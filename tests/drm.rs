use canvas::drm::{
    DrmFormatInfo, DrmFramebufferCmd, DrmLayout, FourCC, PlaneIdx, BGR332, BGRX444, C8, RGB332,
    RGBX444, XBGR444, XRGB444,
};
use canvas::layout::Layout;

fn grey_cmd(width: u32, height: u32, pitch: u32) -> DrmFramebufferCmd {
    DrmFramebufferCmd {
        width,
        height,
        fourcc: FourCC::from(*b"C8  "),
        flags: 0,
        pitches: [pitch, 0, 0, 0],
        offsets: [0; 4],
        modifier: [0; 4],
    }
}

#[test]
fn fourcc_codes_are_little_endian() {
    assert_eq!(FourCC::from(*b"C8  "), FourCC(C8));
    assert_eq!(FourCC::from(*b"RGB8"), FourCC(RGB332));
    assert_eq!(FourCC::from(*b"BGR8"), FourCC(BGR332));
    assert_eq!(FourCC::from(*b"XR12"), FourCC(XRGB444));
    assert_eq!(FourCC::from(*b"XB12"), FourCC(XBGR444));
    assert_eq!(FourCC::from(*b"RX12"), FourCC(RGBX444));
    assert_eq!(FourCC::from(*b"BX12"), FourCC(BGRX444));
    assert_eq!(FourCC::from([1, 2, 3, 4]).0, 0x0403_0201);
}

#[test]
fn format_info_table() {
    let info = FourCC(C8).info().ok().unwrap();
    assert_eq!(info.num_planes, 1);
    assert_eq!(info.char_per_block, [1, 0, 0, 0]);
    assert_eq!(info.format, FourCC(C8));
    let info = FourCC(XRGB444).info().ok().unwrap();
    assert_eq!(info.char_per_block, [2, 0, 0, 0]);
    assert!(FourCC::from(*b"NV12").info().is_err());
    assert_eq!(FourCC(BGR332).block_element().unwrap().size(), 1);
    assert_eq!(FourCC(RGBX444).block_element().unwrap().size(), 2);
    assert!(FourCC(0).block_element().is_none());
    assert!(info.into_layout(4, 4).is_none());
}

#[test]
fn grey_frame_buffer_is_valid() {
    let layout = DrmLayout::new(&grey_cmd(4, 2, 4)).ok().unwrap();
    assert_eq!(layout.byte_len(), 8);
    assert_eq!(layout.fourcc(), FourCC(C8));
    assert_eq!(layout.width(), 4);
    assert_eq!(layout.height(), 2);
    let plane = layout.plane(PlaneIdx::First).unwrap();
    assert_eq!(plane.byte_len(), 8);
    assert_eq!(plane.fourcc(), FourCC(C8));
    assert!(layout.plane(PlaneIdx::Second).is_none());
    assert!(layout.plane(PlaneIdx::Third).is_none());
}

#[test]
fn padded_pitch_and_offset_count() {
    let mut cmd = grey_cmd(4, 2, 6);
    cmd.offsets[0] = 10;
    let layout = DrmLayout::new(&cmd).ok().unwrap();
    assert_eq!(layout.byte_len(), 22);
    assert_eq!(layout.plane(PlaneIdx::First).unwrap().byte_len(), 22);
}

#[test]
fn short_pitch_fails() {
    assert!(DrmLayout::new(&grey_cmd(4, 2, 3)).is_err());
}

#[test]
fn mismatched_modifiers_fail() {
    let cmd = DrmFramebufferCmd {
        width: 2,
        height: 2,
        fourcc: FourCC::from(*b"XR12"),
        flags: 0,
        pitches: [4, 0, 0, 0],
        offsets: [0; 4],
        modifier: [1, 2, 1, 1],
    };
    assert!(DrmLayout::new(&cmd).is_err());
    let ok = DrmFramebufferCmd { modifier: [0; 4], ..cmd };
    assert_eq!(DrmLayout::new(&ok).ok().unwrap().byte_len(), 8);
    let vendor = DrmFramebufferCmd { modifier: [7; 4], ..cmd };
    assert!(DrmLayout::new(&vendor).is_err());
}

#[test]
fn unregistered_fourcc_fails() {
    let cmd = DrmFramebufferCmd { fourcc: FourCC::from(*b"YUYV"), ..grey_cmd(4, 2, 4) };
    assert!(DrmLayout::new(&cmd).is_err());
}

fn yuv_info(hsub: u8, vsub: u8) -> DrmFormatInfo {
    DrmFormatInfo {
        format: FourCC(C8),
        num_planes: 3,
        char_per_block: [1, 1, 1, 0],
        block_w: [1, 1, 1, 1],
        block_h: [1, 1, 1, 1],
        hsub,
        vsub,
        has_alpha: false,
        is_yuv: true,
    }
}

fn yuv_cmd() -> DrmFramebufferCmd {
    DrmFramebufferCmd {
        width: 4,
        height: 4,
        fourcc: FourCC(C8),
        flags: 0,
        pitches: [4, 2, 2, 0],
        offsets: [0, 16, 20, 0],
        modifier: [0; 4],
    }
}

#[test]
fn subsampled_yuv_planes() {
    let layout = DrmLayout::with_info(&yuv_cmd(), yuv_info(2, 2)).ok().unwrap();
    assert_eq!(layout.byte_len(), 24);
    let second = layout.plane(PlaneIdx::Second).unwrap();
    assert_eq!(second.byte_len(), 20);
    let third = layout.plane(PlaneIdx::Third).unwrap();
    assert_eq!(third.byte_len(), 24);
}

#[test]
fn yuv_subsampling_not_power_of_two_fails() {
    assert!(DrmLayout::with_info(&yuv_cmd(), yuv_info(3, 2)).is_err());
    assert!(DrmLayout::with_info(&yuv_cmd(), yuv_info(2, 8)).is_err());
}

#[test]
fn non_yuv_subsampling_fails() {
    let mut info = yuv_info(2, 2);
    info.is_yuv = false;
    assert!(DrmLayout::with_info(&yuv_cmd(), info).is_err());
}

#[test]
fn planes_out_of_order_fail() {
    let mut cmd = yuv_cmd();
    // The first plane ends at 16.
    cmd.offsets[1] = 15;
    assert!(DrmLayout::with_info(&cmd, yuv_info(2, 2)).is_err());
    let mut cmd = yuv_cmd();
    cmd.offsets = [8, 0, 4, 0];
    assert!(DrmLayout::with_info(&cmd, yuv_info(2, 2)).is_err());
}

#[test]
fn plane_count_out_of_range_fails() {
    let mut info = yuv_info(2, 2);
    info.num_planes = 0;
    assert!(DrmLayout::with_info(&yuv_cmd(), info).is_err());
    info.num_planes = 4;
    assert!(DrmLayout::with_info(&yuv_cmd(), info).is_err());
}

#[test]
fn unpopulated_declared_plane_fails() {
    let mut info = yuv_info(2, 2);
    info.char_per_block = [1, 1, 0, 0];
    assert!(DrmLayout::with_info(&yuv_cmd(), info).is_err());
}

#[test]
fn oversized_frame_buffer_fails() {
    assert!(DrmLayout::new(&grey_cmd(u32::MAX, 2, u32::MAX)).is_err());
    let mut cmd = grey_cmd(4, 2, 4);
    cmd.offsets[0] = u32::MAX - 8;
    assert!(DrmLayout::new(&cmd).is_ok());
    cmd.offsets[0] = u32::MAX - 7;
    assert!(DrmLayout::new(&cmd).is_err());
}

#[test]
fn plane_index_positions() {
    assert_eq!(PlaneIdx::First.to_index(), 0);
    assert_eq!(PlaneIdx::Second.to_index(), 1);
    assert_eq!(PlaneIdx::Third.to_index(), 2);
}
