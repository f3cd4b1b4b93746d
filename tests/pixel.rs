use canvas::pixel::{AsPixel, Pixel};

#[test]
fn witness_reports_size_and_alignment() {
    let p = u32::pixel();
    assert_eq!(p.size(), 4);
    assert_eq!(p.align(), std::mem::align_of::<u32>());
    assert_eq!(<()>::pixel().size(), 0);
    assert_eq!(i64::pixel().size(), 8);
    assert!(Pixel::<[u8; 3]>::for_type().is_some());
    assert!(u8::pixel() == u8::pixel());
}

#[test]
fn cast_drops_trailing_bytes() {
    let rgb: Pixel<[u8; 3]> = Pixel::for_type().unwrap();
    let bytes = [1u8, 2, 3, 4, 5, 6, 7];
    let pixels = rgb.cast_to_slice(&bytes).unwrap();
    assert_eq!(pixels.len(), 2);
    assert_eq!(pixels[1], [4, 5, 6]);
    assert_eq!(rgb.cast_to_slice(&bytes[..2]).unwrap().len(), 0);
}

#[test]
fn cast_aligned_words() {
    let words = [0x0102_0304u32, 0x0506_0708, 0x090a_0b0c];
    let p = u32::pixel();
    let bytes = p.cast_to_bytes(&words);
    assert_eq!(bytes.len(), 12);
    let back = p.cast_to_slice(&bytes[..11]).unwrap();
    assert_eq!(back.len(), 2);
    assert_eq!(back[1], 0x0506_0708);
    assert_eq!(p.cast_to_slice(bytes).unwrap(), &words[..]);
}

#[test]
fn cast_mutably() {
    let mut words = [0u16; 4];
    let p = u16::pixel();
    {
        let bytes = p.cast_to_mut_bytes(&mut words);
        assert_eq!(bytes.len(), 8);
        bytes[0] = 0xff;
        bytes[1] = 0xff;
    }
    assert_eq!(words[0], 0xffff);
    let bytes = p.cast_to_mut_bytes(&mut words);
    let view = p.cast_to_mut_slice(&mut bytes[..7]).unwrap();
    assert_eq!(view.len(), 3);
    view[2] = 7;
    assert_eq!(words[2], 7);
}

#[test]
fn zero_sized_cast_is_unbounded() {
    let unit = <()>::pixel();
    let bytes = [0u8; 4];
    assert_eq!(unit.cast_to_slice(&bytes).unwrap().len(), usize::MAX);
    let mut bytes = [0u8; 3];
    assert_eq!(unit.cast_to_mut_slice(&mut bytes).unwrap().len(), usize::MAX);
    let empty: Pixel<[u16; 0]> = Pixel::for_type().unwrap();
    if let Some(view) = empty.cast_to_slice(&bytes) {
        assert_eq!(view.len(), usize::MAX);
    }
}

#[test]
fn max_aligned_addresses() {
    assert!(canvas::pixel::is_max_aligned(0));
    assert!(canvas::pixel::is_max_aligned(48));
    assert!(!canvas::pixel::is_max_aligned(8));
    assert!(!canvas::pixel::is_max_aligned(17));
}
