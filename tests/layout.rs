use canvas::layout::{
    Bytes, Coord, Decay, DynLayout, Element, Layout, Matrix, MismatchedPixelError, SampleSlice,
    TMatrix, Take, TryMend, Yuv420p,
};
use canvas::pixel::{AsPixel, Pixel};
use std::alloc::Layout as StdLayout;

fn element(size: usize, align: usize) -> Element {
    Element::with_layout(StdLayout::from_size_align(size, align).unwrap()).unwrap()
}

#[test]
fn element_order_and_infimum() {
    let u8 = Element::from_pixel::<u8>();
    let u8x2 = element(2, 1);
    let u8x3 = element(3, 1);
    let u16 = Element::from_pixel::<u16>();

    assert!(u8 < u16, "due to size and alignment");
    assert!(u8x2 < u16, "due to its alignment");
    assert!(!(u8x3 < u16) && !(u16 < u8x3), "not comparable");
    assert_eq!(u8x3.partial_cmp(&u16), None);

    let meet = u8x3.infimum(u16);
    assert!(meet <= u8x3);
    assert!(meet <= u16);
    assert!(meet == u16.packed(1));
    assert_eq!(meet.size(), 2);
    assert_eq!(meet.align(), 1);
}

#[test]
fn infimum_commutative_and_idempotent() {
    let a = element(12, 4);
    let b = element(8, 8);
    assert_eq!(a.infimum(b), b.infimum(a));
    assert_eq!(a.infimum(a), a);
    assert_eq!(a.infimum(b), element(8, 4));
}

#[test]
fn element_reports_size_and_alignment() {
    let e = Element::from_pixel::<u32>();
    assert_eq!(e.size(), 4);
    assert_eq!(e.align(), std::mem::align_of::<u32>());
    let e = element(6, 2);
    assert_eq!(e.size(), 6);
    assert_eq!(e.align(), 2);
}

#[test]
fn element_with_layout_checks() {
    assert!(Element::with_layout(StdLayout::from_size_align(32, 32).unwrap()).is_none());
    assert!(Element::with_layout(StdLayout::from_size_align(3, 2).unwrap()).is_none());
    assert!(Element::with_layout(StdLayout::from_size_align(16, 16).unwrap()).is_some());
    let l = element(12, 4).layout();
    assert_eq!(l.size(), 12);
    assert_eq!(l.align(), 4);
}

#[test]
fn max_size_shrinks_alignment_only() {
    let e = element(12, 4);
    let m = Element::max_size().infimum(e);
    assert_eq!(m.size(), 12);
    assert_eq!(m.align(), 1);
    assert_eq!(Element::max_size().size(), isize::MAX as usize);
}

#[test]
fn packed_reduces_alignment() {
    let e = element(16, 8);
    assert_eq!(e.packed(2).align(), 2);
    assert_eq!(e.packed(2).size(), 16);
    assert_eq!(e.packed(16).align(), 8);
}

#[test]
fn matrix_byte_len() {
    let u32e = Element::from_pixel::<u32>();
    let m = Matrix::from_width_height(u32e, 3, 5).unwrap();
    assert_eq!(m.byte_len(), 60);
    assert_eq!(m.len(), 15);
    assert_eq!(m.width(), 3);
    assert_eq!(m.height(), 5);
    assert_eq!(m.element(), u32e);
    assert_eq!(Layout::byte_len(&m), 60);
}

#[test]
fn matrix_overflow_fails() {
    let u8e = Element::from_pixel::<u8>();
    let u32e = Element::from_pixel::<u32>();
    assert!(Matrix::from_width_height(u8e, usize::MAX, 2).is_none());
    assert!(Matrix::from_width_height(u8e, usize::MAX, 1).is_some());
    assert!(Matrix::from_width_height(u32e, usize::MAX / 4 + 1, 1).is_none());
    assert!(Matrix::from_width_height(u32e, usize::MAX / 4, 1).is_some());
}

#[test]
fn yuv420p_byte_len() {
    let u8e = Element::from_pixel::<u8>();
    let u16e = Element::from_pixel::<u16>();
    let y = Yuv420p::from_width_height(u8e, 4, 2).unwrap();
    assert_eq!(y.byte_len(), 12);
    let y = Yuv420p::from_width_height(u16e, 4, 2).unwrap();
    assert_eq!(y.byte_len(), 24);
    let y = Yuv420p::from_width_height(u8e, 640, 480).unwrap();
    assert_eq!(y.byte_len(), 640 * 480 + 640 * 480 / 2);
}

#[test]
fn yuv420p_odd_dimensions_fail() {
    let u8e = Element::from_pixel::<u8>();
    assert!(Yuv420p::from_width_height(u8e, 3, 2).is_none());
    assert!(Yuv420p::from_width_height(u8e, 4, 5).is_none());
    assert!(Yuv420p::from_width_height(u8e, 0, 0).is_some());
}

#[test]
fn dyn_layout_dispatches() {
    let u8e = Element::from_pixel::<u8>();
    let m = Matrix::from_width_height(u8e, 4, 4).unwrap();
    let y = Yuv420p::from_width_height(u8e, 4, 4).unwrap();
    assert_eq!(DynLayout::from(m).byte_len(), 16);
    assert_eq!(DynLayout::from(y).byte_len(), 24);
    assert_eq!(Bytes::from_layout(DynLayout::from(y)).0, 24);
}

#[test]
fn decay_then_mend_round_trip() {
    let pixel = u32::pixel();
    let m = Matrix::from_width_height(Element::from_pixel::<u32>(), 7, 3).unwrap();
    let t = TMatrix::with_matrix(pixel, m).unwrap();
    let decayed = Matrix::decay(t);
    assert_eq!(decayed, m);
    let mended = pixel.try_mend(&decayed).unwrap();
    assert_eq!(mended.into_matrix(), t.into_matrix());
    assert_eq!(mended.into_matrix().width(), 7);
    assert_eq!(mended.into_matrix().height(), 3);
    assert_eq!(Layout::byte_len(&mended), 84);
    assert_eq!(mended.len(), 21);
}

#[test]
fn mend_with_mismatched_pixel_fails() {
    let m = Matrix::from_width_height(Element::from_pixel::<u32>(), 7, 3).unwrap();
    let err = u16::pixel().try_mend(&m).err().unwrap();
    assert_eq!(err, MismatchedPixelError::default());
    assert!(TMatrix::with_matrix(u8::pixel(), m).is_none());
}

#[test]
fn take_keeps_element() {
    let e = element(6, 2);
    let mut m = Matrix::from_width_height(e, 5, 5).unwrap();
    let old = m.take();
    assert_eq!(old.byte_len(), 150);
    assert_eq!(m.byte_len(), 0);
    assert_eq!(m.element(), e);
    assert_eq!(m, Matrix::empty(e));

    let mut t = TMatrix::with_matrix(u16::pixel(), Matrix::from_width_height(Element::from_pixel::<u16>(), 2, 2).unwrap()).unwrap();
    let old = t.take();
    assert_eq!(Layout::byte_len(&old), 8);
    assert_eq!(Layout::byte_len(&t), 0);
    assert_eq!(t.into_matrix().element(), Element::from_pixel::<u16>());

    let mut b = Bytes(10);
    assert_eq!(b.take(), Bytes(10));
    assert_eq!(b, Bytes(0));
}

#[test]
fn bytes_decay_keeps_length() {
    let m = Matrix::from_width_height(Element::from_pixel::<u16>(), 3, 3).unwrap();
    assert_eq!(Bytes::decay(m), Bytes(18));
    assert_eq!(Bytes::from_layout(m), Bytes(18));
    let boxed: Box<Matrix> = Decay::decay(m);
    assert_eq!(Layout::byte_len(&boxed), 18);
}

#[test]
fn element_from_pixel_witness() {
    let e = Element::from(u16::pixel());
    assert_eq!(e, Element::from_pixel::<u16>());
    let p: Pixel<u64> = Pixel::for_type().unwrap();
    assert_eq!(Element::from(p).size(), 8);
    assert_eq!(TMatrix::empty(p).into_matrix(), Matrix::empty(Element::from(p)));
}

#[test]
fn coord_accessors() {
    let c = Coord(3, 7);
    assert_eq!(c.x(), 3);
    assert_eq!(c.y(), 7);
    assert_eq!(c.xy(), (3, 7));
    assert_eq!(c.yx(), (7, 3));
}

#[test]
fn bytes_from_layouts() {
    let m = Matrix::from_width_height(Element::from_pixel::<u16>(), 3, 4).unwrap();
    assert_eq!(Bytes::from(m), Bytes(24));
    assert_eq!(Bytes::from(DynLayout::from(m)), Bytes(24));
    let t = TMatrix::with_matrix(u16::pixel(), m).unwrap();
    assert_eq!(Bytes::from(t), Bytes(24));
    assert_eq!(Matrix::from(t), m);
}

#[test]
fn element_layout_round_trip() {
    let e = element(12, 4);
    assert_eq!(Element::with_layout(e.layout()), Some(e));
    let u16e = Element::from_pixel::<u16>();
    assert_eq!(Element::with_layout(u16e.layout()), Some(u16e));
}
