//! Byte geometry of pixel buffers: a witness for plain-data pixel types, layout descriptors
//! related by decay and mend, and validation of multi-plane frame-buffer descriptors.
use vstd::prelude::*;

pub mod layout;
pub mod pixel;
pub mod drm;

pub use self::layout::Layout;
pub use self::pixel::{AsPixel, Pixel};

verus! {

} // verus!
