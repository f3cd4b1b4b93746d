//! Layout descriptors of image bytes and the relations between them.
use crate::pixel::{AsPixel, Pixel};
use vstd::arithmetic::power2::is_pow2;
use vstd::layout::{align_of, size_of, valid_layout};
use vstd::arithmetic::div_mod::{lemma_fundamental_div_mod, lemma_mod_multiples_basic};
use vstd::math::min;
use vstd::prelude::*;

verus! {

/// The largest alignment that any element or pixel may require.
pub const MAX_ALIGN: usize = 16;

/// Describes the byte layout of an element, untyped.
///
/// The alignment is a power of two not larger than [`MAX_ALIGN`] and the size is a multiple
/// of the alignment that does not exceed `isize::MAX`.
#[derive(Clone, Copy, Debug, PartialEq, Eq, Structural, Hash)]
pub struct Element {
    size: usize,
    align: usize,
}

/// The conditions under which a size and an alignment describe an element.
pub open spec fn element_ok(size: int, align: int) -> bool {
    &&& is_pow2(align)
    &&& align <= MAX_ALIGN
    &&& size % align == 0
    &&& 0 <= size <= isize::MAX
}

impl Element {
    #[verifier::type_invariant]
    spec fn inv(self) -> bool {
        element_ok(self.size as int, self.align as int)
    }

    /// The size in bytes.
    pub closed spec fn spec_size(self) -> usize {
        self.size
    }

    /// The required alignment in bytes.
    pub closed spec fn spec_align(self) -> usize {
        self.align
    }

    /// The element of the smaller size and the smaller alignment.
    pub closed spec fn spec_infimum(self, other: Self) -> Element {
        Element {
            size: min(self.size as int, other.size as int) as usize,
            align: min(self.align as int, other.align as int) as usize,
        }
    }

    /// The element of a type's size and alignment.
    pub closed spec fn spec_of<P>() -> Element {
        Element { size: size_of::<P>() as usize, align: align_of::<P>() as usize }
    }

    /// Neither size nor alignment is larger than the other's.
    pub open spec fn spec_le(self, other: Self) -> bool {
        self.spec_size() <= other.spec_size() && self.spec_align() <= other.spec_align()
    }

    /// Construct an element from a self-evident pixel.
    pub fn from_pixel<P: AsPixel>() -> (r: Self)
        ensures
            r == Element::spec_of::<P>(),
            element_ok(r.spec_size() as int, r.spec_align() as int),
            r.spec_size() == size_of::<P>(),
            r.spec_align() == align_of::<P>(),
    {
        Element::of_pixel(P::pixel())
    }

    /// The element of a pixel, discarding the exact type information.
    pub fn of_pixel<P>(pixel: Pixel<P>) -> (r: Self)
        ensures
            r == Element::spec_of::<P>(),
            element_ok(r.spec_size() as int, r.spec_align() as int),
            r.spec_size() == size_of::<P>(),
            r.spec_align() == align_of::<P>(),
    {
        vstd::layout::layout_for_type_is_valid::<P>();
        let size = pixel.size();
        let align = pixel.align();
        Element { size, align }
    }

    /// An element with maximum size and no alignment requirements.
    ///
    /// Used with [`Element::infimum`] it only shrinks the alignment and keeps the size.
    pub fn max_size() -> (r: Self)
        ensures
            r.spec_size() == isize::MAX,
            r.spec_align() == 1,
            element_ok(r.spec_size() as int, r.spec_align() as int),
    {
        proof {
            reveal(is_pow2);
        }
        Element { size: isize::MAX as usize, align: 1 }
    }

    /// Create an element for a fictional type with specific layout.
    ///
    /// Only the layout related checks are performed: the alignment must be at most
    /// [`MAX_ALIGN`] and the size a multiple of it.
    pub fn with_layout(layout: core::alloc::Layout) -> (r: Option<Self>)
        ensures
            r is Some <==> layout_align(layout) <= MAX_ALIGN && layout_size(layout) % layout_align(
                layout,
            ) == 0,
            r matches Some(e) ==> e.spec_size() == layout_size(layout) && e.spec_align()
                == layout_align(layout) && element_ok(e.spec_size() as int, e.spec_align() as int),
    {
        let align = layout.align();
        let size = layout.size();
        proof {
            lemma_pow2_positive(align as int);
        }
        if align > MAX_ALIGN {
            return None;
        }
        if size % align != 0 {
            return None;
        }
        Some(Element { size, align })
    }

    /// Convert this into a type layout.
    ///
    /// This never fails as `Element` refines the standard library layout type.
    pub fn layout(self) -> (r: core::alloc::Layout)
        ensures
            layout_size(r) == self.spec_size(),
            layout_align(r) == self.spec_align(),
            element_ok(self.spec_size() as int, self.spec_align() as int),
    {
        proof {
            use_type_invariant(&self);
            lemma_pow2_positive(self.align as int);
            lemma_multiple_below(self.size as int, self.align as int, isize::MAX as int);
        }
        core::alloc::Layout::from_size_align(self.size, self.align).unwrap()
    }

    /// Reduce the alignment of the element.
    ///
    /// This performs the same modification as `repr(packed)` on the element's type.
    pub fn packed(self, align: usize) -> (r: Element)
        requires
            is_pow2(align as int),
        ensures
            r.spec_size() == self.spec_size(),
            r.spec_align() == min(self.spec_align() as int, align as int),
            element_ok(r.spec_size() as int, r.spec_align() as int),
    {
        proof {
            use_type_invariant(&self);
            if align < self.align {
                lemma_pow2_divides(align as int, self.align as int);
                lemma_pow2_positive(align as int);
                lemma_divides_trans(align as int, self.align as int, self.size as int);
            }
        }
        let align = if self.align <= align { self.align } else { align };
        Element { size: self.size, align }
    }

    /// Create an element having the smaller of both sizes and alignments.
    pub fn infimum(self, other: Self) -> (r: Element)
        ensures
            r == self.spec_infimum(other),
            r.spec_size() == min(self.spec_size() as int, other.spec_size() as int),
            r.spec_align() == min(self.spec_align() as int, other.spec_align() as int),
            element_ok(r.spec_size() as int, r.spec_align() as int),
    {
        proof {
            use_type_invariant(&self);
            use_type_invariant(&other);
            lemma_min_element_ok(
                self.size as int,
                self.align as int,
                other.size as int,
                other.align as int,
            );
        }
        let size = if self.size <= other.size { self.size } else { other.size };
        let align = if self.align <= other.align { self.align } else { other.align };
        Element { size, align }
    }

    /// Get the size of the element.
    pub fn size(self) -> (r: usize)
        ensures
            r == self.spec_size(),
            element_ok(self.spec_size() as int, self.spec_align() as int),
    {
        proof {
            use_type_invariant(&self);
        }
        self.size
    }

    /// Get the minimum required alignment of the element.
    pub fn align(self) -> (r: usize)
        ensures
            r == self.spec_align(),
            element_ok(self.spec_size() as int, self.spec_align() as int),
    {
        proof {
            use_type_invariant(&self);
        }
        self.align
    }
}

/// A multiple of `a` that is at most `m` is at most the largest multiple of `a` below `m`.
proof fn lemma_multiple_below(s: int, a: int, m: int)
    requires
        a > 0,
        0 <= s <= m,
        s % a == 0,
    ensures
        s <= m - m % a,
{
    lemma_fundamental_div_mod(s, a);
    lemma_fundamental_div_mod(m, a);
    let k = s / a;
    let q = m / a;
    assert(k <= q) by (nonlinear_arith)
        requires
            s == a * k,
            m == a * q + m % a,
            0 <= m % a < a,
            s <= m,
            a > 0,
    ;
    assert(a * k <= a * q) by (nonlinear_arith)
        requires
            k <= q,
            a > 0,
    ;
}

/// Convert a pixel to an element, discarding the exact type information.
impl<P> From<Pixel<P>> for Element {
    fn from(pixel: Pixel<P>) -> (r: Self) {
        Element::of_pixel(pixel)
    }
}

impl<P> vstd::std_specs::convert::FromSpecImpl<Pixel<P>> for Element {
    open spec fn obeys_from_spec() -> bool {
        true
    }

    open spec fn from_spec(pixel: Pixel<P>) -> Element {
        Element::spec_of::<P>()
    }
}

/// The partial order of elements compares size and alignment together.
///
/// Two elements are incomparable when one is larger in size and the other in alignment.
impl PartialOrd for Element {
    fn partial_cmp(&self, other: &Self) -> (r: Option<core::cmp::Ordering>) {
        if self.size == other.size && self.align == other.align {
            Some(core::cmp::Ordering::Equal)
        } else if self.size <= other.size && self.align <= other.align {
            Some(core::cmp::Ordering::Less)
        } else if self.size >= other.size && self.align >= other.align {
            Some(core::cmp::Ordering::Greater)
        } else {
            None
        }
    }
}

impl vstd::std_specs::cmp::PartialOrdSpecImpl for Element {
    open spec fn obeys_partial_cmp_spec() -> bool {
        true
    }

    open spec fn partial_cmp_spec(&self, other: &Self) -> Option<core::cmp::Ordering> {
        if *self == *other {
            Some(core::cmp::Ordering::Equal)
        } else if self.spec_le(*other) {
            Some(core::cmp::Ordering::Less)
        } else if other.spec_le(*self) {
            Some(core::cmp::Ordering::Greater)
        } else {
            None
        }
    }
}

/// A layout of image bytes: at least the number of bytes that a buffer for it needs.
pub trait Layout {
    /// The number of bytes that the layout describes.
    spec fn spec_byte_len(&self) -> nat;

    fn byte_len(&self) -> (r: usize)
        ensures
            r == self.spec_byte_len(),
    ;
}

/// Convert one layout to a less strict one.
///
/// The conversion may generalize and need not be lossless: `Bytes` is the least descriptive
/// layout and every layout decays into it. The relation is not reflexive.
pub trait Decay<T>: Layout + Sized {
    /// The layout that `from` decays into.
    spec fn spec_decay(from: T) -> Self;

    fn decay(from: T) -> (r: Self)
        ensures
            r == Self::spec_decay(from),
    ;
}

/// Convert a layout to a stricter one.
pub trait Mend<From> {
    type Into: Layout;

    /// The stricter layout of `from`.
    spec fn spec_mend(self, from: From) -> Self::Into;

    fn mend(self, from: &From) -> (r: Self::Into)
        ensures
            r == self.spec_mend(*from),
    ;
}

/// Try to convert a layout to a stricter one.
pub trait TryMend<From> {
    type Into: Layout;

    type Err;

    /// The stricter layout of `from`, or why there is none.
    spec fn spec_try_mend(self, from: From) -> Result<Self::Into, Self::Err>;

    fn try_mend(self, from: &From) -> (r: Result<Self::Into, Self::Err>)
        ensures
            r == self.spec_try_mend(*from),
    ;
}

/// A layout that can be emptied.
///
/// Taking leaves a layout of no bytes behind that keeps everything else about the format, such
/// as the element or pixel type; it is not the same as a default value.
pub trait Take: Layout + Sized {
    /// What remains of `self` once it has been taken.
    spec fn spec_emptied(&self) -> Self;

    fn take(&mut self) -> (r: Self)
        ensures
            r == *old(self),
            *final(self) == old(self).spec_emptied(),
            final(self).spec_byte_len() == 0,
    ;
}

/// A layout that is a slice of samples of one single type.
pub trait SampleSlice: Layout {
    /// The sample type itself.
    type Sample;

    /// Get the sample description.
    fn sample(&self) -> Pixel<Self::Sample>;

    /// The number of samples: a slice of that length has the byte length of the layout.
    fn len(&self) -> (r: usize)
        requires
            size_of::<Self::Sample>() > 0,
        ensures
            r == self.spec_byte_len() / size_of::<Self::Sample>(),
    ;
}

/// Describes an image coordinate.
#[derive(Clone, Copy, Debug, Default, PartialEq, Eq, Structural)]
pub struct Coord(pub u32, pub u32);

impl Coord {
    pub fn x(self) -> (r: u32)
        ensures
            r == self.0,
    {
        self.0
    }

    pub fn y(self) -> (r: u32)
        ensures
            r == self.1,
    {
        self.1
    }

    pub fn yx(self) -> (r: (u32, u32))
        ensures
            r == (self.1, self.0),
    {
        (self.1, self.0)
    }

    pub fn xy(self) -> (r: (u32, u32))
        ensures
            r == (self.0, self.1),
    {
        (self.0, self.1)
    }
}

/// A byte layout that only describes the number of bytes.
///
/// All other layouts can be converted into this layout.
#[derive(Clone, Copy, Debug, PartialEq, Eq, Structural, Hash)]
pub struct Bytes(pub usize);

impl Bytes {
    /// Forget all layout semantics except the number of bytes used.
    pub fn from_layout<L: Layout>(layout: L) -> (r: Self)
        ensures
            r.0 == layout.spec_byte_len(),
    {
        Bytes(layout.byte_len())
    }
}

impl Layout for Bytes {
    open spec fn spec_byte_len(&self) -> nat {
        self.0 as nat
    }

    fn byte_len(&self) -> (r: usize) {
        self.0
    }
}

impl Take for Bytes {
    open spec fn spec_emptied(&self) -> Self {
        Bytes(0)
    }

    fn take(&mut self) -> (r: Self) {
        let r = Bytes(self.0);
        self.0 = 0;
        r
    }
}

impl<T: Layout> Decay<T> for Bytes {
    open spec fn spec_decay(from: T) -> Bytes {
        Bytes(from.spec_byte_len() as usize)
    }

    fn decay(from: T) -> (r: Bytes) {
        Bytes(from.byte_len())
    }
}

impl<L: Layout> Layout for Box<L> {
    open spec fn spec_byte_len(&self) -> nat {
        (**self).spec_byte_len()
    }

    fn byte_len(&self) -> (r: usize) {
        (**self).byte_len()
    }
}

impl<L: Layout> Decay<L> for Box<L> {
    open spec fn spec_decay(from: L) -> Box<L> {
        Box::new(from)
    }

    fn decay(from: L) -> (r: Box<L>) {
        Box::new(from)
    }
}

/// A matrix of packed pixels (channel groups).
///
/// This is a layout of exactly width·height homogeneous elements. It does not prescribe any
/// order of arrangement: row major, column major or along a space filling curve alike.
#[derive(Clone, Copy, Debug, PartialEq, Eq, Structural, Hash)]
pub struct Matrix {
    element: Element,
    first_dim: usize,
    second_dim: usize,
}

/// Whether a matrix of these dimensions has a byte count that fits into `usize`.
pub open spec fn matrix_fits(size: int, first_dim: int, second_dim: int) -> bool {
    &&& first_dim * second_dim <= usize::MAX
    &&& first_dim * second_dim * size <= usize::MAX
}

impl Matrix {
    #[verifier::type_invariant]
    spec fn inv(self) -> bool {
        matrix_fits(self.element.spec_size() as int, self.first_dim as int, self.second_dim as int)
    }

    /// The element type.
    pub closed spec fn spec_element(self) -> Element {
        self.element
    }

    /// The first dimension.
    pub closed spec fn spec_width(self) -> usize {
        self.first_dim
    }

    /// The second dimension.
    pub closed spec fn spec_height(self) -> usize {
        self.second_dim
    }

    /// The matrix of these dimensions.
    pub closed spec fn spec_of(element: Element, first_dim: usize, second_dim: usize) -> Matrix {
        Matrix { element, first_dim, second_dim }
    }

    /// The matrix of no elements of this type.
    pub closed spec fn spec_empty(element: Element) -> Matrix {
        Matrix { element, first_dim: 0, second_dim: 0 }
    }

    /// A matrix of no elements.
    pub fn empty(element: Element) -> (r: Self)
        ensures
            r == Matrix::spec_empty(element),
            r.spec_element() == element,
            r.spec_width() == 0,
            r.spec_height() == 0,
    {
        Matrix { element, first_dim: 0, second_dim: 0 }
    }

    /// A matrix of the given dimensions; `None` where its byte count overflows `usize`.
    pub fn from_width_height(element: Element, first_dim: usize, second_dim: usize) -> (r: Option<
        Self,
    >)
        ensures
            r is Some <==> matrix_fits(element.spec_size() as int, first_dim as int, second_dim as int),
            r matches Some(m) ==> m.spec_element() == element && m.spec_width() == first_dim
                && m.spec_height() == second_dim,
    {
        let max_index = match first_dim.checked_mul(second_dim) {
            Some(n) => n,
            None => return None,
        };
        match max_index.checked_mul(element.size()) {
            Some(_) => {},
            None => return None,
        }
        Some(Matrix { element, first_dim, second_dim })
    }

    /// Get the element type of this matrix.
    pub fn element(&self) -> (r: Element)
        ensures
            r == self.spec_element(),
    {
        self.element
    }

    /// Get the width of this matrix.
    pub fn width(&self) -> (r: usize)
        ensures
            r == self.spec_width(),
    {
        self.first_dim
    }

    /// Get the height of this matrix.
    pub fn height(&self) -> (r: usize)
        ensures
            r == self.spec_height(),
    {
        self.second_dim
    }

    /// Get the required bytes for this layout.
    pub fn byte_len(self) -> (r: usize)
        ensures
            r == self.spec_element().spec_size() * self.spec_width() * self.spec_height(),
    {
        proof {
            use_type_invariant(&self);
            lemma_mul3(self.element.spec_size() as int, self.first_dim as int, self.second_dim as int);
        }
        self.element.size() * self.len()
    }

    /// The number of pixels in this layout.
    pub fn len(self) -> (r: usize)
        ensures
            r == self.spec_width() * self.spec_height(),
    {
        proof {
            use_type_invariant(&self);
        }
        self.first_dim * self.second_dim
    }
}

impl Layout for Matrix {
    open spec fn spec_byte_len(&self) -> nat {
        (self.spec_element().spec_size() * self.spec_width() * self.spec_height()) as nat
    }

    fn byte_len(&self) -> (r: usize) {
        Matrix::byte_len(*self)
    }
}

impl Take for Matrix {
    open spec fn spec_emptied(&self) -> Self {
        Matrix::spec_empty(self.spec_element())
    }

    fn take(&mut self) -> (r: Self) {
        let r = *self;
        *self = Matrix::empty(r.element);
        r
    }
}

/// A typed matrix of packed pixels (channel groups).
///
/// This is the statically typed equivalent of [`Matrix`].
pub struct TMatrix<P> {
    pixel: Pixel<P>,
    first_dim: usize,
    second_dim: usize,
}

impl<P> TMatrix<P> {
    #[verifier::type_invariant]
    spec fn inv(self) -> bool {
        matrix_fits(size_of::<P>() as int, self.first_dim as int, self.second_dim as int)
    }

    /// The first dimension.
    pub closed spec fn spec_width(self) -> usize {
        self.first_dim
    }

    /// The second dimension.
    pub closed spec fn spec_height(self) -> usize {
        self.second_dim
    }

    /// The pixel witness.
    pub closed spec fn spec_pixel(self) -> Pixel<P> {
        self.pixel
    }

    /// The typed matrix of no pixels.
    pub closed spec fn spec_empty(pixel: Pixel<P>) -> TMatrix<P> {
        TMatrix { pixel, first_dim: 0, second_dim: 0 }
    }

    /// The typed matrix of the dimensions of `matrix`, where its element has the pixel's size.
    pub closed spec fn spec_with_matrix(pixel: Pixel<P>, matrix: Matrix) -> Option<TMatrix<P>> {
        if matrix.spec_element().spec_size() == size_of::<P>() {
            Some(TMatrix { pixel, first_dim: matrix.spec_width(), second_dim: matrix.spec_height() })
        } else {
            None
        }
    }

    /// A typed matrix of no pixels.
    pub fn empty(pixel: Pixel<P>) -> (r: Self)
        ensures
            r == TMatrix::spec_empty(pixel),
            r.spec_width() == 0,
            r.spec_height() == 0,
    {
        TMatrix { pixel, first_dim: 0, second_dim: 0 }
    }

    /// Use the matrix with a specific pixel type; `None` where the sizes differ.
    pub fn with_matrix(pixel: Pixel<P>, matrix: Matrix) -> (r: Option<Self>)
        ensures
            r == TMatrix::spec_with_matrix(pixel, matrix),
            r is Some <==> matrix.spec_element().spec_size() == size_of::<P>(),
            r matches Some(t) ==> t.spec_width() == matrix.spec_width() && t.spec_height()
                == matrix.spec_height(),
    {
        proof {
            use_type_invariant(&matrix);
        }
        if pixel.size() == matrix.element.size() {
            Some(TMatrix { pixel, first_dim: matrix.first_dim, second_dim: matrix.second_dim })
        } else {
            None
        }
    }

    /// Remove the static typing: the matrix of the pixel's element and the same dimensions.
    pub fn into_matrix(self) -> (r: Matrix)
        ensures
            r.spec_element().spec_size() == size_of::<P>(),
            r.spec_element().spec_align() == align_of::<P>(),
            r.spec_width() == self.spec_width(),
            r.spec_height() == self.spec_height(),
    {
        proof {
            use_type_invariant(&self);
        }
        Matrix { element: Element::of_pixel(self.pixel), first_dim: self.first_dim, second_dim: self.second_dim }
    }
}

impl<P> Clone for TMatrix<P> {
    fn clone(&self) -> Self {
        proof {
            use_type_invariant(self);
        }
        TMatrix { pixel: self.pixel, first_dim: self.first_dim, second_dim: self.second_dim }
    }
}

impl<P> Copy for TMatrix<P> {

}

impl<P> Layout for TMatrix<P> {
    open spec fn spec_byte_len(&self) -> nat {
        (size_of::<P>() * self.spec_width() * self.spec_height()) as nat
    }

    fn byte_len(&self) -> (r: usize) {
        self.into_matrix().byte_len()
    }
}

impl<P> SampleSlice for TMatrix<P> {
    type Sample = P;

    fn sample(&self) -> Pixel<P> {
        self.pixel
    }

    fn len(&self) -> (r: usize) {
        self.byte_len() / self.pixel.size()
    }
}

impl<P> Take for TMatrix<P> {
    open spec fn spec_emptied(&self) -> Self {
        TMatrix::spec_empty(self.spec_pixel())
    }

    fn take(&mut self) -> (r: Self) {
        let r = *self;
        *self = TMatrix::empty(r.pixel);
        r
    }
}

/// The untyped matrix of a typed one: the pixel's size and alignment and the same dimensions.
pub open spec fn untyped<P>(t: TMatrix<P>) -> Matrix {
    Matrix::spec_of(Element::spec_of::<P>(), t.spec_width(), t.spec_height())
}

/// Remove the strong typing for dynamic channel type information.
impl<P> Decay<TMatrix<P>> for Matrix {
    open spec fn spec_decay(from: TMatrix<P>) -> Matrix {
        untyped(from)
    }

    fn decay(from: TMatrix<P>) -> (r: Matrix) {
        let r = from.into_matrix();
        proof {
            assert(r == untyped(from));
        }
        r
    }
}

/// Remove the static typing: the matrix of the pixel's element and the same dimensions.
impl<P> From<TMatrix<P>> for Matrix {
    fn from(mat: TMatrix<P>) -> (r: Self) {
        let r = mat.into_matrix();
        proof {
            assert(r == untyped(mat));
        }
        r
    }
}

impl<P> vstd::std_specs::convert::FromSpecImpl<TMatrix<P>> for Matrix {
    open spec fn obeys_from_spec() -> bool {
        true
    }

    open spec fn from_spec(mat: TMatrix<P>) -> Matrix {
        untyped(mat)
    }
}

/// Forget all layout semantics of a matrix except the number of bytes used.
impl From<Matrix> for Bytes {
    fn from(layout: Matrix) -> (r: Self) {
        Bytes::from_layout(layout)
    }
}

impl vstd::std_specs::convert::FromSpecImpl<Matrix> for Bytes {
    open spec fn obeys_from_spec() -> bool {
        true
    }

    open spec fn from_spec(layout: Matrix) -> Bytes {
        Bytes(layout.spec_byte_len() as usize)
    }
}

/// Forget all layout semantics of a typed matrix except the number of bytes used.
impl<P> From<TMatrix<P>> for Bytes {
    fn from(layout: TMatrix<P>) -> (r: Self) {
        Bytes::from_layout(layout)
    }
}

impl<P> vstd::std_specs::convert::FromSpecImpl<TMatrix<P>> for Bytes {
    open spec fn obeys_from_spec() -> bool {
        true
    }

    open spec fn from_spec(layout: TMatrix<P>) -> Bytes {
        Bytes(layout.spec_byte_len() as usize)
    }
}

/// An error indicating that mending failed due to mismatching pixel attributes.
#[derive(Debug, Default, PartialEq, Eq, Hash)]
pub struct MismatchedPixelError {
    _private: (),
}

impl MismatchedPixelError {
    /// The one value of the error.
    pub closed spec fn spec_value() -> Self {
        MismatchedPixelError { _private: () }
    }
}

/// Try to use the matrix with a specific pixel type.
impl<P> TryMend<Matrix> for Pixel<P> {
    type Into = TMatrix<P>;

    type Err = MismatchedPixelError;

    open spec fn spec_try_mend(self, matrix: Matrix) -> Result<TMatrix<P>, MismatchedPixelError> {
        match TMatrix::spec_with_matrix(self, matrix) {
            Some(t) => Ok(t),
            None => Err(MismatchedPixelError::spec_value()),
        }
    }

    fn try_mend(self, matrix: &Matrix) -> (r: Result<TMatrix<P>, MismatchedPixelError>) {
        match TMatrix::with_matrix(self, *matrix) {
            Some(t) => Ok(t),
            None => Err(MismatchedPixelError { _private: () }),
        }
    }
}

/// Planar chroma 2×2 block-wise sub-sampled image.
#[derive(Clone, Copy, Debug, PartialEq, Eq, Structural, Hash)]
pub struct Yuv420p {
    channel: Element,
    width: u32,
    height: u32,
}

/// Whether a 4:2:0 image of these dimensions is possible: even dimensions, and a luma count,
/// sample count (luma and half as many chroma) and byte count that fit into `usize`.
pub open spec fn yuv420p_fits(size: int, width: int, height: int) -> bool {
    let luma = width * height;
    &&& width % 2 == 0
    &&& height % 2 == 0
    &&& luma <= usize::MAX
    &&& luma + luma / 2 <= usize::MAX
    &&& (luma + luma / 2) * size <= usize::MAX
}

impl Yuv420p {
    #[verifier::type_invariant]
    spec fn inv(self) -> bool {
        yuv420p_fits(self.channel.spec_size() as int, self.width as int, self.height as int)
    }

    /// The element of each sample.
    pub closed spec fn spec_channel(self) -> Element {
        self.channel
    }

    /// The width of the luma plane.
    pub closed spec fn spec_width(self) -> u32 {
        self.width
    }

    /// The height of the luma plane.
    pub closed spec fn spec_height(self) -> u32 {
        self.height
    }

    /// A 4:2:0 image of the given dimensions; `None` where a dimension is odd or a count
    /// overflows `usize`.
    pub fn from_width_height(channel: Element, width: u32, height: u32) -> (r: Option<Self>)
        ensures
            r is Some <==> yuv420p_fits(channel.spec_size() as int, width as int, height as int),
            r matches Some(y) ==> y.spec_channel() == channel && y.spec_width() == width
                && y.spec_height() == height,
    {
        if width % 2 != 0 || height % 2 != 0 {
            return None;
        }
        let mwidth = width as usize;
        let mheight = height as usize;
        let y_count = match mwidth.checked_mul(mheight) {
            Some(n) => n,
            None => return None,
        };
        let uv_count = y_count / 2;
        let count = match y_count.checked_add(uv_count) {
            Some(n) => n,
            None => return None,
        };
        match count.checked_mul(channel.size()) {
            Some(_) => {},
            None => return None,
        }
        Some(Yuv420p { channel, width, height })
    }

    /// The bytes of the luma plane and of the two chroma planes of a quarter of its size each.
    pub fn byte_len(self) -> (r: usize)
        ensures
            r == yuv420p_len(
                self.spec_channel().spec_size() as int,
                self.spec_width() as int,
                self.spec_height() as int,
            ),
    {
        proof {
            use_type_invariant(&self);
            lemma_yuv420p_len(
                self.channel.spec_size() as int,
                self.width as int,
                self.height as int,
            );
        }
        let ylen = (self.width as usize) * (self.height as usize) * self.channel.size();
        ylen + ylen / 2
    }
}

/// The bytes of a 4:2:0 image: the luma bytes and half as many again.
pub open spec fn yuv420p_len(size: int, width: int, height: int) -> int {
    let ylen = width * height * size;
    ylen + ylen / 2
}

/// With an even luma count, the luma bytes and half as many are the sample count in bytes.
proof fn lemma_yuv420p_len(size: int, width: int, height: int)
    requires
        size >= 0,
        width >= 0,
        height >= 0,
        yuv420p_fits(size, width, height),
    ensures
        width * height * size <= usize::MAX,
        yuv420p_len(size, width, height) == (width * height + width * height / 2) * size,
{
    let luma = width * height;
    let hw = width / 2;
    assert(luma == 2 * (hw * height)) by (nonlinear_arith)
        requires
            width == 2 * hw,
            luma == width * height,
    ;
    let half = luma / 2;
    assert(half == hw * height);
    assert(luma == 2 * half);
    assert(luma * size == 2 * (half * size)) by (nonlinear_arith)
        requires
            luma == 2 * half,
    ;
    assert((luma + half) * size == luma * size + half * size) by (nonlinear_arith);
    assert(luma * size <= (luma + half) * size) by (nonlinear_arith)
        requires
            half >= 0,
            size >= 0,
    ;
}

impl Layout for Yuv420p {
    open spec fn spec_byte_len(&self) -> nat {
        yuv420p_len(
            self.spec_channel().spec_size() as int,
            self.spec_width() as int,
            self.spec_height() as int,
        ) as nat
    }

    fn byte_len(&self) -> (r: usize) {
        Yuv420p::byte_len(*self)
    }
}

/// A dynamic descriptor of an image's layout.
#[derive(Clone, Copy, Debug, PartialEq, Eq, Structural, Hash)]
pub struct DynLayout {
    pub repr: LayoutRepr,
}

/// The closed set of layouts that a [`DynLayout`] can hold.
#[derive(Clone, Copy, Debug, PartialEq, Eq, Structural, Hash)]
pub enum LayoutRepr {
    Matrix(Matrix),
    Yuv420p(Yuv420p),
}

impl DynLayout {
    /// The bytes of the layout held.
    pub open spec fn spec_len(self) -> nat {
        match self.repr {
            LayoutRepr::Matrix(m) => m.spec_byte_len(),
            LayoutRepr::Yuv420p(y) => y.spec_byte_len(),
        }
    }

    pub fn byte_len(&self) -> (r: usize)
        ensures
            r == self.spec_len(),
    {
        match self.repr {
            LayoutRepr::Matrix(matrix) => matrix.byte_len(),
            LayoutRepr::Yuv420p(matrix) => matrix.byte_len(),
        }
    }
}

impl Layout for DynLayout {
    open spec fn spec_byte_len(&self) -> nat {
        self.spec_len()
    }

    fn byte_len(&self) -> (r: usize) {
        DynLayout::byte_len(self)
    }
}

impl From<Matrix> for DynLayout {
    fn from(matrix: Matrix) -> (r: Self) {
        DynLayout { repr: LayoutRepr::Matrix(matrix) }
    }
}

impl vstd::std_specs::convert::FromSpecImpl<Matrix> for DynLayout {
    open spec fn obeys_from_spec() -> bool {
        true
    }

    open spec fn from_spec(matrix: Matrix) -> DynLayout {
        DynLayout { repr: LayoutRepr::Matrix(matrix) }
    }
}

impl From<Yuv420p> for DynLayout {
    fn from(matrix: Yuv420p) -> (r: Self) {
        DynLayout { repr: LayoutRepr::Yuv420p(matrix) }
    }
}

impl vstd::std_specs::convert::FromSpecImpl<Yuv420p> for DynLayout {
    open spec fn obeys_from_spec() -> bool {
        true
    }

    open spec fn from_spec(matrix: Yuv420p) -> DynLayout {
        DynLayout { repr: LayoutRepr::Yuv420p(matrix) }
    }
}

/// Two elements of the same size and alignment are the same element.
pub proof fn lemma_element_ext(a: Element, b: Element)
    ensures
        (a.spec_size() == b.spec_size() && a.spec_align() == b.spec_align()) <==> a == b,
{
}

/// The element of a type has the type's size and alignment.
pub proof fn lemma_element_of<P>()
    ensures
        Element::spec_of::<P>().spec_size() == size_of::<P>() as usize,
        Element::spec_of::<P>().spec_align() == align_of::<P>() as usize,
{
}

/// The infimum of two elements has the smaller size and the smaller alignment.
pub proof fn lemma_infimum_of(a: Element, b: Element)
    ensures
        a.spec_infimum(b).spec_size() == min(a.spec_size() as int, b.spec_size() as int),
        a.spec_infimum(b).spec_align() == min(a.spec_align() as int, b.spec_align() as int),
{
}

/// A matrix made of an element and dimensions has that element and those dimensions.
pub proof fn lemma_matrix_of(element: Element, first_dim: usize, second_dim: usize)
    ensures
        Matrix::spec_of(element, first_dim, second_dim).spec_element() == element,
        Matrix::spec_of(element, first_dim, second_dim).spec_width() == first_dim,
        Matrix::spec_of(element, first_dim, second_dim).spec_height() == second_dim,
{
}

/// Decaying a typed matrix keeps its dimensions and gives the element of its pixel type.
pub proof fn lemma_decay_dimensions<P>(t: TMatrix<P>)
    ensures
        <Matrix as Decay<TMatrix<P>>>::spec_decay(t).spec_element() == Element::spec_of::<P>(),
        <Matrix as Decay<TMatrix<P>>>::spec_decay(t).spec_width() == t.spec_width(),
        <Matrix as Decay<TMatrix<P>>>::spec_decay(t).spec_height() == t.spec_height(),
{
}

/// Mending a matrix with a witness succeeds exactly when the element has the pixel's size,
/// and then keeps the matrix's dimensions.
pub proof fn lemma_try_mend<P>(m: Matrix, pixel: Pixel<P>)
    ensures
        pixel.spec_try_mend(m) is Ok <==> m.spec_element().spec_size() == size_of::<P>(),
        pixel.spec_try_mend(m) matches Ok(t) ==> t.spec_width() == m.spec_width()
            && t.spec_height() == m.spec_height() && t.spec_pixel() == pixel,
{
}

/// The infimum of two elements is below both of them in the partial order, and taking it is
/// commutative and idempotent.
pub proof fn lemma_infimum_is_meet(a: Element, b: Element)
    ensures
        a.spec_infimum(b).spec_le(a),
        a.spec_infimum(b).spec_le(b),
        a.spec_infimum(b) == b.spec_infimum(a),
        a.spec_infimum(a) == a,
{
}

/// Decaying a typed matrix and mending it with the same pixel witness gives back a typed
/// matrix of the same dimensions and, so, the same untyped matrix.
pub proof fn lemma_decay_then_mend<P>(t: TMatrix<P>, pixel: Pixel<P>)
    requires
        size_of::<P>() <= usize::MAX,
    ensures
        pixel.spec_try_mend(<Matrix as Decay<TMatrix<P>>>::spec_decay(t)) matches Ok(u) && u.spec_width()
            == t.spec_width() && u.spec_height() == t.spec_height() && untyped(u) == untyped(t),
{
}

/// Mending a matrix with a witness of another element size fails with the mismatch error.
pub proof fn lemma_mend_mismatch<P>(m: Matrix, pixel: Pixel<P>)
    requires
        m.spec_element().spec_size() != size_of::<P>(),
    ensures
        pixel.spec_try_mend(m) == Err::<TMatrix<P>, MismatchedPixelError>(
            MismatchedPixelError::spec_value(),
        ),
{
}

/// Taking a matrix leaves an empty matrix of the same element behind.
pub proof fn lemma_take_keeps_element(m: Matrix)
    ensures
        m.spec_emptied().spec_element() == m.spec_element(),
        m.spec_emptied().spec_byte_len() == 0,
{
    let s = m.spec_element().spec_size() as int;
    assert(s * 0 * 0 == 0);
}

/// Taking a typed matrix leaves an empty matrix of the same pixel witness behind.
pub proof fn lemma_take_keeps_pixel<P>(t: TMatrix<P>)
    ensures
        t.spec_emptied().spec_pixel() == t.spec_pixel(),
        t.spec_emptied().spec_byte_len() == 0,
{
    let s = size_of::<P>() as int;
    assert(s * 0 * 0 == 0);
}

/// Forget all layout semantics of a dynamic layout except the number of bytes used.
impl From<DynLayout> for Bytes {
    fn from(layout: DynLayout) -> (r: Self) {
        Bytes::from_layout(layout)
    }
}

impl vstd::std_specs::convert::FromSpecImpl<DynLayout> for Bytes {
    open spec fn obeys_from_spec() -> bool {
        true
    }

    open spec fn from_spec(layout: DynLayout) -> Bytes {
        Bytes(layout.spec_byte_len() as usize)
    }
}

/// A product of three factors in the orders that byte counts are written in.
proof fn lemma_mul3(s: int, w: int, h: int)
    ensures
        s * (w * h) == s * w * h,
        s * (w * h) == w * h * s,
{
    assert(s * (w * h) == s * w * h) by (nonlinear_arith);
    assert(s * (w * h) == w * h * s) by (nonlinear_arith);
}

/// Of two powers of two the smaller divides the larger.
proof fn lemma_pow2_divides(a: int, b: int)
    requires
        is_pow2(a),
        is_pow2(b),
        a <= b,
    ensures
        b % a == 0,
    decreases a,
{
    reveal(is_pow2);
    if a == 1 {
    } else {
        lemma_pow2_divides(a / 2, b / 2);
        let k = (b / 2) / (a / 2);
        lemma_fundamental_div_mod(b / 2, a / 2);
        assert(b == (k * 2) * (a / 2)) by (nonlinear_arith)
            requires
                b % 2 == 0,
                b / 2 == (a / 2) * k,
        ;
        assert(b == k * a) by (nonlinear_arith)
            requires
                a % 2 == 0,
                b == (k * 2) * (a / 2),
        ;
        lemma_mod_multiples_basic(k, a);
    }
}

/// A power of two is positive.
proof fn lemma_pow2_positive(a: int)
    requires
        is_pow2(a),
    ensures
        a > 0,
{
    reveal(is_pow2);
}

/// Divisibility is transitive.
proof fn lemma_divides_trans(a: int, b: int, c: int)
    requires
        a > 0,
        b > 0,
        b % a == 0,
        c % b == 0,
    ensures
        c % a == 0,
{
    let k = b / a;
    let m = c / b;
    lemma_fundamental_div_mod(b, a);
    lemma_fundamental_div_mod(c, b);
    assert(c == (k * m) * a) by (nonlinear_arith)
        requires
            b == a * k,
            c == b * m,
    ;
    lemma_mod_multiples_basic(k * m, a);
}

/// The smaller of two elements' sizes is a multiple of the smaller of their alignments.
proof fn lemma_min_element_ok(s1: int, a1: int, s2: int, a2: int)
    requires
        element_ok(s1, a1),
        element_ok(s2, a2),
    ensures
        element_ok(min(s1, s2), min(a1, a2)),
{
    reveal(is_pow2);
    let a = min(a1, a2);
    lemma_pow2_divides(a, a1);
    lemma_pow2_divides(a, a2);
    lemma_divides_trans(a, a1, s1);
    lemma_divides_trans(a, a2, s2);
}

/// The standard library's description of a type's size and alignment.
#[verifier::external_type_specification]
#[verifier::external_body]
pub struct ExLayout(core::alloc::Layout);

/// The error of an invalid size and alignment pair.
#[verifier::external_type_specification]
#[verifier::external_body]
pub struct ExLayoutError(core::alloc::LayoutError);

/// The size that a standard layout was made with.
pub uninterp spec fn layout_size(l: core::alloc::Layout) -> usize;

/// The alignment that a standard layout was made with.
pub uninterp spec fn layout_align(l: core::alloc::Layout) -> usize;

/// Relies on `Layout::size`: the size the layout was made with.
pub assume_specification[ core::alloc::Layout::size ](l: &core::alloc::Layout) -> (r: usize)
    ensures
        r == layout_size(*l),
;

/// Relies on `Layout::align`: the alignment the layout was made with, which the type keeps a
/// power of two such that the size rounded up to it does not exceed `isize::MAX`.
pub assume_specification[ core::alloc::Layout::align ](l: &core::alloc::Layout) -> (r: usize)
    ensures
        r == layout_align(*l),
        valid_layout(layout_size(*l), r),
;

/// Relies on `Layout::from_size_align`: it succeeds exactly for a power of two alignment and a
/// size that, rounded up to the alignment, does not exceed `isize::MAX`.
pub assume_specification[ core::alloc::Layout::from_size_align ](size: usize, align: usize) -> (r:
    Result<core::alloc::Layout, core::alloc::LayoutError>)
    ensures
        r is Ok <==> valid_layout(size, align),
        r matches Ok(l) ==> layout_size(l) == size && layout_align(l) == align,
;

} // verus!
