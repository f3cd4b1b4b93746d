//! Validation of multi-plane frame-buffer descriptors in the style of the kernel's direct
//! rendering manager.
use crate::layout::{DynLayout, Element, Layout};
use vstd::arithmetic::div_mod::lemma_div_decreases;
use vstd::arithmetic::power2::is_pow2;
use vstd::prelude::*;

verus! {

broadcast use vstd::array::group_array_axioms;

/// A 4CC format identifier.
///
/// The code is always stored as little endian: the first character in the lowest byte.
#[derive(Clone, Copy, Debug, PartialEq, Eq, Structural, Hash)]
pub struct FourCC(pub u32);

/// The code of four characters, the first in the lowest byte.
pub open spec fn fourcc_code(arr: [u8; 4]) -> int {
    arr[0] as int + 256 * arr[1] as int + 65536 * arr[2] as int + 16777216 * arr[3] as int
}

/// The code denoting an invalid format, e.g. signalling a missing format.
pub const INVALID: u32 = 0;

/// Single 8 bpp grey color, `C8  `.
pub const C8: u32 = 0x2020_3843;

/// 8 bpp rgb with 3 bits red, 3 bits green, 2 bits blue, `RGB8`.
pub const RGB332: u32 = 0x3842_4752;

/// 8 bpp rgb with 2 bits red, 3 bits green, 3 bits blue, `BGR8`.
pub const BGR332: u32 = 0x3852_4742;

/// 16 bpp xrgb with 4 bits each, `XR12`.
pub const XRGB444: u32 = 0x3231_5258;

/// 16 bpp xbgr with 4 bits each, `XB12`.
pub const XBGR444: u32 = 0x3231_4258;

/// 16 bpp rgbx with 4 bits each, `RX12`.
pub const RGBX444: u32 = 0x3231_5852;

/// 16 bpp bgrx with 4 bits each, `BX12`.
pub const BGRX444: u32 = 0x3231_5842;

/// The bytes of each pixel of a registered format, or `None` for an unknown code.
pub open spec fn pixel_bytes(code: u32) -> Option<u8> {
    if code == C8 || code == RGB332 || code == BGR332 {
        Some(1)
    } else if code == XRGB444 || code == XBGR444 || code == RGBX444 || code == BGRX444 {
        Some(2)
    } else {
        None
    }
}

impl FourCC {
    /// The identifier of four characters, the first in the lowest byte.
    pub fn from(arr: [u8; 4]) -> (r: Self)
        ensures
            r.0 == fourcc_code(arr),
    {
        let (a, b, c, d) = (arr[0], arr[1], arr[2], arr[3]);
        let code = (a as u32) | (b as u32) << 8 | (c as u32) << 16 | (d as u32) << 24;
        assert(code == a as u32 + 256 * (b as u32) + 65536 * (c as u32) + 16777216 * (d as u32))
            by (bit_vector)
            requires
                code == (a as u32) | (b as u32) << 8 | (c as u32) << 16 | (d as u32) << 24,
        ;
        FourCC(code)
    }

    /// The format information of a registered code.
    pub fn info(self) -> (r: Result<DrmFormatInfo, BadDrmError>)
        ensures
            r is Ok <==> pixel_bytes(self.0) is Some,
            r matches Ok(i) ==> i == pixel1_info(self, pixel_bytes(self.0)->Some_0),
    {
        if self.0 == C8 || self.0 == RGB332 || self.0 == BGR332 {
            Ok(DrmFormatInfo::pixel1(self, 1))
        } else if self.0 == XRGB444 || self.0 == XBGR444 || self.0 == RGBX444 || self.0 == BGRX444 {
            Ok(DrmFormatInfo::pixel1(self, 2))
        } else {
            Err(BadDrmError { _private: () })
        }
    }

    /// The element describing each block (atomic unit) of the described layout.
    pub fn block_element(self) -> (r: Option<Element>)
        ensures
            r is Some <==> pixel_bytes(self.0) is Some,
            r matches Some(e) ==> e.spec_size() == pixel_bytes(self.0)->Some_0,
            pixel_bytes(self.0) == Some(1u8) ==> r == Some(Element::spec_of::<u8>()),
            pixel_bytes(self.0) == Some(2u8) ==> r == Some(Element::spec_of::<u16>()),
    {
        if self.0 == C8 || self.0 == RGB332 || self.0 == BGR332 {
            Some(Element::from_pixel::<u8>())
        } else if self.0 == XRGB444 || self.0 == XBGR444 || self.0 == RGBX444 || self.0 == BGRX444 {
            Some(Element::from_pixel::<u16>())
        } else {
            None
        }
    }
}

/// A direct rendering manager format info.
///
/// The format information describes the byte layout of pixels of that particular type. It is
/// not a layout itself: it need not be internally consistent and it has no width and height.
#[derive(Clone, Copy, Debug, Hash)]
pub struct DrmFormatInfo {
    /// The 4CC format identifier.
    pub format: FourCC,
    /// The number of image color planes (1 to 3).
    pub num_planes: u8,
    /// Number of bytes per block (per plane); zero for a plane that does not exist.
    pub char_per_block: [u8; 4],
    /// The width of a block in pixels.
    pub block_w: [u8; 4],
    /// The height of a block in pixels.
    pub block_h: [u8; 4],
    /// The horizontal chroma subsampling factor.
    pub hsub: u8,
    /// The vertical chroma subsampling factor.
    pub vsub: u8,
    /// Does the format embed an alpha component?
    pub has_alpha: bool,
    /// Is it a YUV format?
    pub is_yuv: bool,
}

/// The info of a single-plane format of 1×1 blocks of `bytes` bytes each, not subsampled.
pub open spec fn pixel1_info(format: FourCC, bytes: u8) -> DrmFormatInfo {
    DrmFormatInfo {
        format,
        num_planes: 1,
        char_per_block: [bytes, 0, 0, 0],
        block_w: [1, 1, 1, 1],
        block_h: [1, 1, 1, 1],
        hsub: 1,
        vsub: 1,
        has_alpha: false,
        is_yuv: false,
    }
}

impl DrmFormatInfo {
    /// A single-plane format of 1×1 blocks, each pixel stored individually.
    fn pixel1(format: FourCC, bytes: u8) -> (r: Self)
        ensures
            r == pixel1_info(format, bytes),
    {
        DrmFormatInfo {
            format,
            num_planes: 1,
            char_per_block: [bytes, 0, 0, 0],
            block_w: [1, 1, 1, 1],
            block_h: [1, 1, 1, 1],
            hsub: 1,
            vsub: 1,
            has_alpha: false,
            is_yuv: false,
        }
    }
}

/// An error converting an info into a supported layout.
#[derive(Debug)]
pub struct BadDrmError {
    _private: (),
}

/// A descriptor for a single frame buffer, as a user requests it.
///
/// Mirrors the kernel's request to create a frame buffer; it is the input from which a
/// [`DrmLayout`] is validated.
#[derive(Clone, Copy, Debug, Hash)]
pub struct DrmFramebufferCmd {
    pub width: u32,
    pub height: u32,
    pub fourcc: FourCC,
    pub flags: i32,
    pub pitches: [u32; 4],
    pub offsets: [u32; 4],
    pub modifier: [u64; 4],
}

/// The index of a plane in a frame buffer.
#[derive(Clone, Copy, Debug, PartialEq, Eq, Structural, PartialOrd, Ord)]
pub enum PlaneIdx {
    First,
    Second,
    Third,
}

impl PlaneIdx {
    /// The position of the plane, counted from zero.
    pub open spec fn spec_index(self) -> nat {
        match self {
            PlaneIdx::First => 0,
            PlaneIdx::Second => 1,
            PlaneIdx::Third => 2,
        }
    }

    /// The position of the plane, counted from zero.
    pub fn to_index(self) -> (r: usize)
        ensures
            r == self.spec_index(),
    {
        match self {
            PlaneIdx::First => 0,
            PlaneIdx::Second => 1,
            PlaneIdx::Third => 2,
        }
    }

    /// The plane at a position counted from zero.
    fn at(idx: usize) -> (r: PlaneIdx)
        requires
            idx < 3,
        ensures
            r.spec_index() == idx,
    {
        if idx == 0 {
            PlaneIdx::First
        } else if idx == 1 {
            PlaneIdx::Second
        } else {
            PlaneIdx::Third
        }
    }
}

/// `a / b`, rounded up.
pub open spec fn ceil_div(a: int, b: int) -> int {
    a / b + if a % b == 0 {
        0int
    } else {
        1int
    }
}

fn round_up_div(dimension: u32, div: u8) -> (r: u32)
    requires
        div > 0,
    ensures
        r == ceil_div(dimension as int, div as int),
{
    let div = div as u32;
    proof {
        if div == 1 {
            assert(dimension % div == 0);
        } else if dimension > 0 {
            lemma_div_decreases(dimension as int, div as int);
        }
    }
    dimension / div + if dimension % div == 0 {
        0
    } else {
        1
    }
}

/// A dimension of a plane before it is counted in blocks: subsampled planes of a YUV format,
/// those after the first, are divided by the factor, rounded up.
pub open spec fn subsampled(fi: DrmFormatInfo, dim: u32, idx: nat, factor: u8) -> int {
    if fi.is_yuv && idx != 0 {
        ceil_div(dim as int, factor as int)
    } else {
        dim as int
    }
}

/// The width of a plane in blocks; the vertical factor applies to the width.
pub open spec fn plane_width_of(fi: DrmFormatInfo, width: u32, idx: nat) -> int {
    ceil_div(subsampled(fi, width, idx, fi.vsub), fi.block_w@[idx as int] as int)
}

/// The height of a plane in blocks; the horizontal factor applies to the height.
pub open spec fn plane_height_of(fi: DrmFormatInfo, height: u32, idx: nat) -> int {
    ceil_div(subsampled(fi, height, idx, fi.hsub), fi.block_h@[idx as int] as int)
}

/// Whether the factors that the plane dimensions divide by are not zero.
pub open spec fn divisors_ok(fi: DrmFormatInfo, idx: nat) -> bool {
    &&& fi.block_w@[idx as int] != 0
    &&& fi.block_h@[idx as int] != 0
    &&& (fi.is_yuv && idx != 0 ==> fi.hsub != 0 && fi.vsub != 0)
}

impl DrmFormatInfo {
    /// The width of a plane in blocks; `None` where a factor it divides by is zero.
    fn plane_width(self, width: u32, idx: PlaneIdx) -> (r: Option<u32>)
        ensures
            r is Some <==> self.block_w[idx.spec_index() as int] != 0 && !(self.is_yuv
                && idx.spec_index() != 0 && self.vsub == 0),
            r matches Some(w) ==> w == plane_width_of(self, width, idx.spec_index()),
    {
        let i = idx.to_index();
        let width = if self.is_yuv && idx != PlaneIdx::First {
            if self.vsub == 0 {
                return None;
            }
            round_up_div(width, self.vsub)
        } else {
            width
        };
        if self.block_w[i] == 0 {
            return None;
        }
        Some(round_up_div(width, self.block_w[i]))
    }

    /// The height of a plane in blocks; `None` where a factor it divides by is zero.
    fn plane_height(self, height: u32, idx: PlaneIdx) -> (r: Option<u32>)
        ensures
            r is Some <==> self.block_h[idx.spec_index() as int] != 0 && !(self.is_yuv
                && idx.spec_index() != 0 && self.hsub == 0),
            r matches Some(h) ==> h == plane_height_of(self, height, idx.spec_index()),
    {
        let i = idx.to_index();
        let height = if self.is_yuv && idx != PlaneIdx::First {
            if self.hsub == 0 {
                return None;
            }
            round_up_div(height, self.hsub)
        } else {
            height
        };
        if self.block_h[i] == 0 {
            return None;
        }
        Some(round_up_div(height, self.block_h[i]))
    }

    /// Create a layout with particular dimensions.
    ///
    /// No format converts to a dynamic layout yet, so this is always `None`.
    pub fn into_layout(self, width: u32, height: u32) -> (r: Option<DynLayout>)
        ensures
            r is None,
    {
        None
    }
}

/// Whether the subsampling factors are supported: only YUV formats may be subsampled, and a
/// factor is a power of two of at most four.
pub open spec fn subsampling_ok(fi: DrmFormatInfo) -> bool {
    &&& fi.is_yuv || (fi.hsub == 1 && fi.vsub == 1)
    &&& fi.hsub <= 4 && is_pow2(fi.hsub as int)
    &&& fi.vsub <= 4 && is_pow2(fi.vsub as int)
}

/// Whether the plane at `idx` is described: bytes per block and block dimensions not zero.
pub open spec fn populated(fi: DrmFormatInfo, idx: nat) -> bool {
    &&& fi.char_per_block@[idx as int] != 0
    &&& fi.block_w@[idx as int] != 0
    &&& fi.block_h@[idx as int] != 0
}

/// Whether the plane at `idx` is valid where the previous planes end at `last`: it is
/// described, starts at or after `last`, its pitch holds a row of blocks, and its end fits into
/// `u32`.
pub open spec fn plane_ok(
    fi: DrmFormatInfo,
    width: u32,
    height: u32,
    pitches: [u32; 4],
    offsets: [u32; 4],
    idx: nat,
    last: int,
) -> bool {
    let pitch = pitches@[idx as int] as int;
    let offset = offsets@[idx as int] as int;
    let row = fi.char_per_block@[idx as int] * plane_width_of(fi, width, idx);
    let size = pitch * plane_height_of(fi, height, idx);
    &&& populated(fi, idx)
    &&& offset >= last
    &&& row <= u32::MAX
    &&& row <= pitch
    &&& size <= u32::MAX
    &&& offset + size <= u32::MAX
}

/// Where the first `n` planes end, planes laid out one after the other by offset; `None` where
/// one of them is not valid.
pub open spec fn planes_end(
    fi: DrmFormatInfo,
    width: u32,
    height: u32,
    pitches: [u32; 4],
    offsets: [u32; 4],
    n: nat,
) -> Option<int>
    decreases n,
{
    if n == 0 {
        Some(0)
    } else {
        let idx = (n - 1) as nat;
        match planes_end(fi, width, height, pitches, offsets, idx) {
            None => None,
            Some(last) => if plane_ok(fi, width, height, pitches, offsets, idx, last) {
                Some(
                    offsets@[idx as int] + pitches@[idx as int] * plane_height_of(fi, height, idx),
                )
            } else {
                None
            },
        }
    }
}

/// The byte length of the frame buffer that `cmd` describes in the format `fi`, or `None`
/// where the request is rejected.
///
/// The format has one to three planes and a block element, all four modifiers are the same
/// and zero, the subsampling is supported, and the planes are valid in offset order.
pub open spec fn validated_len(cmd: DrmFramebufferCmd, fi: DrmFormatInfo) -> Option<int> {
    if !(1 <= fi.num_planes <= 3) {
        None
    } else if pixel_bytes(cmd.fourcc.0) is None {
        None
    } else if !(cmd.modifier@[0] == 0 && cmd.modifier@[1] == 0 && cmd.modifier@[2] == 0
        && cmd.modifier@[3] == 0) {
        None
    } else if !subsampling_ok(fi) {
        None
    } else {
        planes_end(fi, cmd.width, cmd.height, cmd.pitches, cmd.offsets, fi.num_planes as nat)
    }
}

/// The byte length of the frame buffer that `cmd` describes, or `None` where its format is
/// not registered or the request is rejected.
pub open spec fn framebuffer_len(cmd: DrmFramebufferCmd) -> Option<int> {
    match pixel_bytes(cmd.fourcc.0) {
        None => None,
        Some(bytes) => validated_len(cmd, pixel1_info(cmd.fourcc, bytes)),
    }
}

/// The filled-in info about a frame buffer, the kernel's frame buffer minus its internals.
pub(crate) struct DrmFramebuffer {
    pub(crate) format: DrmFormatInfo,
    pub(crate) pitches: [u32; 4],
    pub(crate) offsets: [u32; 4],
    pub(crate) modifier: u64,
    pub(crate) width: u32,
    pub(crate) height: u32,
    /// A bit mask for which modifiers are actually to be enabled. All 0 for now.
    pub(crate) flags: i32,
}

/// A frame buffer layout that has been validated.
///
/// It cannot be edited in place, so that what was computed from it stays fresh: any change
/// means validating a new request.
pub struct DrmLayout {
    info: DrmFramebuffer,
    element: Element,
    total_len: usize,
}

impl DrmLayout {
    #[verifier::type_invariant]
    spec fn inv(self) -> bool {
        let fi = self.info.format;
        &&& 1 <= fi.num_planes <= 3
        &&& subsampling_ok(fi)
        &&& planes_end(
            fi,
            self.info.width,
            self.info.height,
            self.info.pitches,
            self.info.offsets,
            fi.num_planes as nat,
        ) == Some(self.total_len as int)
    }

    /// The format information of the frame buffer.
    pub closed spec fn spec_format(self) -> DrmFormatInfo {
        self.info.format
    }

    /// The pitch of each plane.
    pub closed spec fn spec_pitches(self) -> [u32; 4] {
        self.info.pitches
    }

    /// The offset of each plane.
    pub closed spec fn spec_offsets(self) -> [u32; 4] {
        self.info.offsets
    }

    /// The modifier shared by all planes.
    pub closed spec fn spec_modifier(self) -> u64 {
        self.info.modifier
    }

    /// The width of the image in pixels.
    pub closed spec fn spec_width(self) -> u32 {
        self.info.width
    }

    /// The height of the image in pixels.
    pub closed spec fn spec_height(self) -> u32 {
        self.info.height
    }

    /// The element of each block.
    pub closed spec fn spec_element(self) -> Element {
        self.element
    }

    /// The bytes that the frame buffer needs: where its last plane ends.
    pub closed spec fn spec_total_len(self) -> usize {
        self.total_len
    }

    /// Whether this is the layout that `cmd` describes in the format `fi`.
    pub open spec fn describes(self, cmd: DrmFramebufferCmd, fi: DrmFormatInfo) -> bool {
        &&& validated_len(cmd, fi) == Some(self.spec_total_len() as int)
        &&& self.spec_format() == fi
        &&& self.spec_pitches() == cmd.pitches
        &&& self.spec_offsets() == cmd.offsets
        &&& self.spec_modifier() == cmd.modifier@[0]
        &&& self.spec_width() == cmd.width
        &&& self.spec_height() == cmd.height
        &&& pixel_bytes(cmd.fourcc.0) matches Some(b) && self.spec_element().spec_size() == b
    }

    /// Try to construct a layout from a filled request.
    ///
    /// The format must be registered. Beyond what the kernel demands, the modifier must be `0`
    /// for all planes and only YUV formats may be subsampled.
    pub fn new(info: &DrmFramebufferCmd) -> (r: Result<Self, BadDrmError>)
        ensures
            r is Ok <==> framebuffer_len(*info) is Some,
            r matches Ok(l) ==> l.describes(*info, pixel1_info(info.fourcc, pixel_bytes(info.fourcc.0)->Some_0)),
    {
        let format_info = match info.fourcc.info() {
            Ok(fi) => fi,
            Err(e) => return Err(e),
        };
        DrmLayout::with_info(info, format_info)
    }

    /// Validate a request against the given format information.
    ///
    /// The steps are those of [`DrmLayout::new`], with `format_info` in place of what the
    /// registry holds for the request's code; the code still has to name a block element.
    pub fn with_info(info: &DrmFramebufferCmd, format_info: DrmFormatInfo) -> (r: Result<
        Self,
        BadDrmError,
    >)
        ensures
            r is Ok <==> validated_len(*info, format_info) is Some,
            r matches Ok(l) ==> l.describes(*info, format_info),
    {
        let fi = format_info;
        if fi.num_planes < 1 || fi.num_planes > 3 {
            return Err(BadDrmError { _private: () });
        }
        let element = match info.fourcc.block_element() {
            Some(e) => e,
            None => return Err(BadDrmError { _private: () }),
        };
        let modifier = info.modifier[0];
        if info.modifier[1] != modifier || info.modifier[2] != modifier || info.modifier[3]
            != modifier {
            // All modifiers must be the same, and zero as checked for each plane.
            return Err(BadDrmError { _private: () });
        }
        if !fi.is_yuv && (fi.hsub != 1 || fi.vsub != 1) {
            // Subsampling is only supported for YUV.
            return Err(BadDrmError { _private: () });
        }
        if fi.hsub > 4 || !is_power_of_two(fi.hsub) {
            return Err(BadDrmError { _private: () });
        }
        if fi.vsub > 4 || !is_power_of_two(fi.vsub) {
            return Err(BadDrmError { _private: () });
        }
        let ghost (w, h, pitches, offsets) = (info.width, info.height, info.pitches, info.offsets);
        assert(fi.hsub != 0 && fi.vsub != 0) by {
            reveal(is_pow2);
        }
        let n = fi.num_planes as usize;
        let mut last_plane_end: u32 = 0;
        let mut idx: usize = 0;
        while idx < n
            invariant
                1 <= n <= 3,
                fi == format_info,
                n == fi.num_planes,
                idx <= n,
                w == info.width && h == info.height && pitches == info.pitches && offsets
                    == info.offsets,
                info.modifier@[1] == modifier && info.modifier@[2] == modifier && info.modifier@[3]
                    == modifier && info.modifier@[0] == modifier,
                idx > 0 ==> modifier == 0,
                pixel_bytes(info.fourcc.0) is Some,
                subsampling_ok(fi),
                fi.hsub != 0 && fi.vsub != 0,
                planes_end(fi, w, h, pitches, offsets, idx as nat) == Some(last_plane_end as int),
            decreases n - idx,
        {
            let ghost before = last_plane_end as int;
            proof {
                if planes_end(fi, w, h, pitches, offsets, (idx + 1) as nat) is None {
                    lemma_planes_end_none(fi, w, h, pitches, offsets, (idx + 1) as nat, n as nat);
                }
            }
            if info.modifier[idx] != 0 {
                return Err(BadDrmError { _private: () });
            }
            if fi.char_per_block[idx] == 0 || fi.block_w[idx] == 0 || fi.block_h[idx] == 0 {
                return Err(BadDrmError { _private: () });
            }
            if info.offsets[idx] < last_plane_end {
                // Only planes in order are supported.
                return Err(BadDrmError { _private: () });
            }
            let plane = PlaneIdx::at(idx);
            let width = match fi.plane_width(info.width, plane) {
                Some(w) => w,
                None => return Err(BadDrmError { _private: () }),
            };
            let height = match fi.plane_height(info.height, plane) {
                Some(h) => h,
                None => return Err(BadDrmError { _private: () }),
            };
            let char_per_line = match (fi.char_per_block[idx] as u32).checked_mul(width) {
                Some(c) => c,
                None => return Err(BadDrmError { _private: () }),
            };
            if info.pitches[idx] < char_per_line {
                return Err(BadDrmError { _private: () });
            }
            let char_for_plane = match info.pitches[idx].checked_mul(height) {
                Some(c) => c,
                None => return Err(BadDrmError { _private: () }),
            };
            last_plane_end = match info.offsets[idx].checked_add(char_for_plane) {
                Some(end) => end,
                None => return Err(BadDrmError { _private: () }),
            };
            idx = idx + 1;
        }
        let total_len = last_plane_end as usize;
        let descriptor = DrmFramebuffer {
            format: fi,
            pitches: info.pitches,
            offsets: info.offsets,
            modifier,
            width: info.width,
            height: info.height,
            flags: 0,
        };
        Ok(DrmLayout { info: descriptor, element, total_len })
    }
}

impl DrmLayout {
    /// Get the FourCC of this layout.
    pub fn fourcc(&self) -> (r: FourCC)
        ensures
            r == self.spec_format().format,
    {
        self.info.format.format
    }

    /// Get the layout of the nth plane of this frame buffer.
    ///
    /// `None` for a plane slot that the format does not populate, which includes the slots
    /// beyond its number of planes.
    pub fn plane(&self, plane_idx: PlaneIdx) -> (r: Option<PlaneLayout>)
        ensures
            r is Some <==> plane_idx.spec_index() < self.spec_format().num_planes && populated(
                self.spec_format(),
                plane_idx.spec_index(),
            ),
            r matches Some(p) ==> p.spec_fourcc() == self.spec_format().format && p.spec_pitch()
                == self.spec_pitches()[plane_idx.spec_index() as int] && p.spec_offset()
                == self.spec_offsets()[plane_idx.spec_index() as int] && p.spec_modifier()
                == self.spec_modifier() && p.spec_width() == plane_width_of(
                self.spec_format(),
                self.spec_width(),
                plane_idx.spec_index(),
            ) && p.spec_height() == plane_height_of(
                self.spec_format(),
                self.spec_height(),
                plane_idx.spec_index(),
            ),
    {
        proof {
            use_type_invariant(self);
        }
        let idx = plane_idx.to_index();
        let format = self.info.format;
        if format.char_per_block[idx] == 0 || format.block_w[idx] == 0 || format.block_h[idx] == 0 {
            // Not a plane in the sense we're looking for.
            return None;
        }
        if idx >= format.num_planes as usize {
            return None;
        }
        proof {
            assert(format.hsub != 0 && format.vsub != 0) by {
                reveal(is_pow2);
            }
            lemma_planes_end_some(
                format,
                self.info.width,
                self.info.height,
                self.info.pitches,
                self.info.offsets,
                idx as nat,
                format.num_planes as nat,
            );
        }
        let width = match format.plane_width(self.info.width, plane_idx) {
            Some(w) => w,
            None => return None,
        };
        let height = match format.plane_height(self.info.height, plane_idx) {
            Some(h) => h,
            None => return None,
        };
        Some(
            PlaneLayout {
                format: PlaneInfo {
                    format: format.format,
                    char_per_block: format.char_per_block[idx],
                    block_w: format.block_w[idx],
                    block_h: format.block_h[idx],
                    hsub: format.hsub,
                    vsub: format.vsub,
                    has_alpha: format.has_alpha,
                    is_yuv: format.is_yuv,
                },
                pitch: self.info.pitches[idx],
                offset: self.info.offsets[idx],
                modifier: self.info.modifier,
                width,
                height,
            },
        )
    }

    /// The apparent width as a usize.
    pub fn width(&self) -> (r: usize)
        ensures
            r == self.spec_width(),
    {
        self.info.width as usize
    }

    /// The apparent height as a usize.
    pub fn height(&self) -> (r: usize)
        ensures
            r == self.spec_height(),
    {
        self.info.height as usize
    }
}

impl Layout for DrmLayout {
    open spec fn spec_byte_len(&self) -> nat {
        self.spec_total_len() as nat
    }

    fn byte_len(&self) -> (r: usize) {
        self.total_len
    }
}

/// The format information that concerns one plane.
struct PlaneInfo {
    /// The 4CC of the whole buffer format.
    format: FourCC,
    /// Characters per block of this plane.
    char_per_block: u8,
    /// The width of a block in pixels.
    block_w: u8,
    /// The height of a block in pixels.
    block_h: u8,
    /// The horizontal chroma subsampling factor.
    hsub: u8,
    /// The vertical chroma subsampling factor.
    vsub: u8,
    /// Does the format embed an alpha component?
    has_alpha: bool,
    /// Is it a YUV format?
    is_yuv: bool,
}

/// The layout of one plane of a validated frame buffer.
pub struct PlaneLayout {
    format: PlaneInfo,
    pitch: u32,
    offset: u32,
    modifier: u64,
    width: u32,
    height: u32,
}

impl PlaneLayout {
    #[verifier::type_invariant]
    spec fn inv(self) -> bool {
        self.offset + self.pitch * self.height <= u32::MAX
    }

    /// The FourCC of the whole buffer.
    pub closed spec fn spec_fourcc(self) -> FourCC {
        self.format.format
    }

    /// The bytes of one row of blocks, padding included.
    pub closed spec fn spec_pitch(self) -> u32 {
        self.pitch
    }

    /// Where the plane starts in the buffer.
    pub closed spec fn spec_offset(self) -> u32 {
        self.offset
    }

    /// The modifier of the plane.
    pub closed spec fn spec_modifier(self) -> u64 {
        self.modifier
    }

    /// The width of the plane in blocks.
    pub closed spec fn spec_width(self) -> u32 {
        self.width
    }

    /// The height of the plane in blocks.
    pub closed spec fn spec_height(self) -> u32 {
        self.height
    }

    /// Get the FourCC of this layout.
    pub fn fourcc(&self) -> (r: FourCC)
        ensures
            r == self.spec_fourcc(),
    {
        self.format.format
    }

    /// The bytes of the buffer that the plane covers.
    fn byte_range(&self) -> (r: core::ops::Range<usize>)
        ensures
            r.start == self.spec_offset(),
            r.end == self.spec_offset() + self.spec_pitch() * self.spec_height(),
    {
        proof {
            use_type_invariant(self);
            assert(self.height * self.pitch == self.pitch * self.height) by (nonlinear_arith);
            assert(0 <= self.pitch * self.height) by (nonlinear_arith);
        }
        let start = self.offset as usize;
        let len = self.height() * self.pitch as usize;
        start..start + len
    }

    /// The width of the plane in blocks.
    fn width(&self) -> (r: usize)
        ensures
            r == self.spec_width(),
    {
        self.width as usize
    }

    /// The height of the plane in blocks.
    fn height(&self) -> (r: usize)
        ensures
            r == self.spec_height(),
    {
        self.height as usize
    }
}

impl Layout for PlaneLayout {
    open spec fn spec_byte_len(&self) -> nat {
        (self.spec_offset() + self.spec_pitch() * self.spec_height()) as nat
    }

    fn byte_len(&self) -> (r: usize) {
        self.byte_range().end
    }
}

/// Whether `x` is a power of two.
fn is_power_of_two(x: u8) -> (r: bool)
    ensures
        r == is_pow2(x as int),
{
    proof {
        reveal_with_fuel(is_pow2, 9);
    }
    x == 1 || x == 2 || x == 4 || x == 8 || x == 16 || x == 32 || x == 64 || x == 128
}

/// Once some planes are invalid, so are any more.
proof fn lemma_planes_end_none(
    fi: DrmFormatInfo,
    width: u32,
    height: u32,
    pitches: [u32; 4],
    offsets: [u32; 4],
    k: nat,
    n: nat,
)
    requires
        k <= n,
        planes_end(fi, width, height, pitches, offsets, k) is None,
    ensures
        planes_end(fi, width, height, pitches, offsets, n) is None,
    decreases n - k,
{
    if k < n {
        lemma_planes_end_none(fi, width, height, pitches, offsets, k + 1, n);
    }
}

/// Valid planes each are valid, and each ends at or before where all of them end.
proof fn lemma_planes_end_some(
    fi: DrmFormatInfo,
    width: u32,
    height: u32,
    pitches: [u32; 4],
    offsets: [u32; 4],
    idx: nat,
    n: nat,
)
    requires
        idx < n,
        planes_end(fi, width, height, pitches, offsets, n) is Some,
    ensures
        planes_end(fi, width, height, pitches, offsets, idx) is Some,
        plane_ok(
            fi,
            width,
            height,
            pitches,
            offsets,
            idx,
            planes_end(fi, width, height, pitches, offsets, idx)->Some_0,
        ),
    decreases n - idx,
{
    if idx + 1 < n {
        lemma_planes_end_some(fi, width, height, pitches, offsets, idx + 1, n);
    }
}

} // verus!
