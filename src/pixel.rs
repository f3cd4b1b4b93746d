//! Witnesses for pixel types and the byte casts that they permit.
use crate::layout::MAX_ALIGN;
use core::marker::PhantomData;
use vstd::layout::{align_of, size_of};
use vstd::prelude::*;

verus! {

broadcast use vstd::layout::group_layout_axioms;

/// Marker struct to denote a pixel type.
///
/// A value exists only for types whose alignment is at most [`MAX_ALIGN`] and that can be
/// reinterpreted from and as bytes: the constructors are [`Pixel::for_type`], which asks for
/// `bytemuck::Pod`, and the [`AsPixel`] impls of this module for the unit type and the integer
/// primitives. It is zero-sized and carries no data, and every witness of a type is
/// indistinguishable from every other.
pub struct Pixel<P> {
    marker: PhantomData<P>,
}

/// Describes a type which can represent a `Pixel` and for which this is statically known.
pub trait AsPixel: Sized {
    /// Get the pixel struct for this type.
    fn pixel() -> Pixel<Self>;
}

impl<P> Pixel<P> {
    #[verifier::type_invariant]
    spec fn inv(self) -> bool {
        align_of::<P>() <= MAX_ALIGN
    }

    /// Proxy of `core::mem::align_of`.
    pub fn align(self) -> (r: usize)
        ensures
            r == align_of::<P>(),
            r <= MAX_ALIGN,
    {
        proof {
            use_type_invariant(&self);
        }
        core::mem::align_of::<P>()
    }

    /// Proxy of `core::mem::size_of`.
    pub fn size(self) -> (r: usize)
        ensures
            r == size_of::<P>(),
    {
        core::mem::size_of::<P>()
    }
}

impl<P> Clone for Pixel<P> {
    fn clone(&self) -> Self {
        proof {
            use_type_invariant(self);
        }
        Pixel { marker: PhantomData }
    }
}

impl<P> Copy for Pixel<P> {

}

/// Every witness of a type is indistinguishable from any other.
impl<P> PartialEq for Pixel<P> {
    fn eq(&self, _other: &Self) -> bool {
        true
    }
}

impl<P> vstd::std_specs::cmp::PartialEqSpecImpl for Pixel<P> {
    open spec fn obeys_eq_spec() -> bool {
        true
    }

    open spec fn eq_spec(&self, _other: &Self) -> bool {
        true
    }
}

impl<P> Eq for Pixel<P> {

}

impl<P> PartialOrd for Pixel<P> {
    fn partial_cmp(&self, _other: &Self) -> Option<core::cmp::Ordering> {
        Some(core::cmp::Ordering::Equal)
    }
}

impl<P> vstd::std_specs::cmp::PartialOrdSpecImpl for Pixel<P> {
    open spec fn obeys_partial_cmp_spec() -> bool {
        true
    }

    open spec fn partial_cmp_spec(&self, _other: &Self) -> Option<core::cmp::Ordering> {
        Some(core::cmp::Ordering::Equal)
    }
}

impl<P> core::hash::Hash for Pixel<P> {
    fn hash<H: core::hash::Hasher>(&self, _state: &mut H) {
    }
}

impl<P: bytemuck::Pod> Pixel<P> {
    /// Try to construct an instance of the marker.
    ///
    /// Succeeds only when the alignment of `P` is at most [`MAX_ALIGN`] and `P` has no drop
    /// glue; the `Pod` bound provides the absence of padding and of invariants.
    pub fn for_type() -> (r: Option<Self>)
        ensures
            align_of::<P>() > MAX_ALIGN ==> r is None,
    {
        if core::mem::align_of::<P>() <= MAX_ALIGN && !has_drop_glue::<P>() {
            Some(Pixel { marker: PhantomData })
        } else {
            None
        }
    }

    /// Reinterpret a slice of bytes as a slice of the pixel.
    ///
    /// The view covers the largest whole number of pixels that fit into the bytes; trailing
    /// bytes that do not form a complete pixel are left out. For a zero-sized `P` the view has
    /// `usize::MAX` items, none of which occupies memory. The result is `None` when the bytes do
    /// not start at an address aligned for `P`, which never happens for a pixel of alignment one.
    pub fn cast_to_slice<'buf>(self, buffer: &'buf [u8]) -> (r: Option<&'buf [P]>)
        ensures
            r matches Some(s) ==> s@.len() == view_len(buffer@.len(), size_of::<P>()),
            align_of::<P>() == 1 ==> r is Some,
    {
        let size = core::mem::size_of::<P>();
        if size == 0 {
            let units = leak_units(vec![[0u8; 0]; usize::MAX]);
            return match units_as::<P>(units) {
                Ok(s) => Some(s),
                Err(_) => None,
            };
        }
        proof {
            lemma_whole_prefix(buffer@.len(), size as nat);
        }
        let used: usize = buffer.len() / size * size;
        let (head, _) = buffer.split_at(used);
        match try_cast_bytes::<P>(head) {
            Ok(s) => {
                proof {
                    lemma_mul_cancel(s@.len() as int, (buffer@.len() / size as nat) as int, size as int);
                }
                Some(s)
            },
            Err(_) => None,
        }
    }

    /// Reinterpret a mutable slice of bytes as a mutable slice of the pixel.
    ///
    /// The view is the one [`Pixel::cast_to_slice`] describes; writing through it changes the
    /// underlying bytes.
    pub fn cast_to_mut_slice<'buf>(self, buffer: &'buf mut [u8]) -> (r: Option<&'buf mut [P]>)
        ensures
            r matches Some(s) ==> s@.len() == view_len(old(buffer)@.len(), size_of::<P>()),
            align_of::<P>() == 1 ==> r is Some,
    {
        let size = core::mem::size_of::<P>();
        if size == 0 {
            let units = leak_units(vec![[0u8; 0]; usize::MAX]);
            return match units_as_mut::<P>(units) {
                Ok(s) => Some(s),
                Err(_) => None,
            };
        }
        proof {
            lemma_whole_prefix(buffer@.len(), size as nat);
        }
        let used: usize = buffer.len() / size * size;
        let (head, _) = buffer.split_at_mut(used);
        match try_cast_bytes_mut::<P>(head) {
            Ok(s) => {
                proof {
                    lemma_mul_cancel(s@.len() as int, (old(buffer)@.len() / size as nat) as int, size as int);
                }
                Some(s)
            },
            Err(_) => None,
        }
    }

    /// Reinterpret a slice of pixels as memory.
    pub fn cast_to_bytes<'buf>(self, pixel: &'buf [P]) -> (r: &'buf [u8])
        ensures
            r@.len() == pixel@.len() * size_of::<P>(),
    {
        pixels_as_bytes::<P>(pixel)
    }

    /// Reinterpret a mutable slice of pixels as memory.
    pub fn cast_to_mut_bytes<'buf>(self, pixel: &'buf mut [P]) -> (r: &'buf mut [u8])
        ensures
            r@.len() == old(pixel)@.len() * size_of::<P>(),
    {
        pixels_as_bytes_mut::<P>(pixel)
    }
}

/// Whether a buffer starting at `addr` is aligned for every pixel: the address is divisible
/// by [`MAX_ALIGN`].
pub fn is_max_aligned(addr: usize) -> (r: bool)
    ensures
        r == (addr % MAX_ALIGN == 0),
{
    addr % MAX_ALIGN == 0
}

/// The length of the view of `len` bytes as items of `size` bytes: the number of whole items,
/// or `usize::MAX` for items that occupy no memory.
pub open spec fn view_len(len: nat, size: nat) -> nat {
    if size == 0 {
        usize::MAX as nat
    } else {
        len / size
    }
}

/// The bytes of all whole items form a prefix.
proof fn lemma_whole_prefix(len: nat, size: nat)
    requires
        size > 0,
    ensures
        (len / size) * size <= len,
        ((len / size) * size) / size == len / size,
        ((len / size) * size) % size == 0,
{
    vstd::arithmetic::div_mod::lemma_mod_multiples_basic((len / size) as int, size as int);
    vstd::arithmetic::div_mod::lemma_fundamental_div_mod(len as int, size as int);
    vstd::arithmetic::div_mod::lemma_div_multiples_vanish((len / size) as int, size as int);
    assert((len / size) * size == size * (len / size)) by (nonlinear_arith);
}

/// Equal multiples of a positive number have equal factors.
proof fn lemma_mul_cancel(a: int, b: int, c: int)
    requires
        c > 0,
        a * c == b * c,
    ensures
        a == b,
{
    assert(a == b) by (nonlinear_arith)
        requires
            c > 0,
            a * c == b * c,
    ;
}

/// Relies on `core::mem::needs_drop`: whether dropping a `T` runs any code.
#[verifier::external_body]
fn has_drop_glue<T>() -> bool {
    core::mem::needs_drop::<T>()
}

/// The error type of bytemuck's fallible casts.
#[verifier::external_type_specification]
#[verifier::external_body]
pub struct ExPodCastError(bytemuck::PodCastError);

/// Relies on `bytemuck::try_cast_slice` from bytes: on success the output covers exactly the
/// input bytes (an empty input for a zero-sized `P`); it fails only on a misaligned start or
/// when the bytes do not form whole items, and the start is always aligned for alignment one.
#[verifier::external_body]
fn try_cast_bytes<P: bytemuck::Pod>(bytes: &[u8]) -> (r: Result<&[P], bytemuck::PodCastError>)
    ensures
        r matches Ok(s) ==> s@.len() * size_of::<P>() == bytes@.len(),
        r matches Ok(s) ==> size_of::<P>() == 0 ==> s@.len() == 0,
        align_of::<P>() == 1 && size_of::<P>() > 0 && bytes@.len() % size_of::<P>() == 0 ==> r is Ok,
{
    bytemuck::try_cast_slice::<u8, P>(bytes)
}

/// Relies on `bytemuck::try_cast_slice_mut` from bytes, which behaves as
/// `bytemuck::try_cast_slice` does.
#[verifier::external_body]
fn try_cast_bytes_mut<P: bytemuck::Pod>(bytes: &mut [u8]) -> (r: Result<
    &mut [P],
    bytemuck::PodCastError,
>)
    ensures
        r matches Ok(s) ==> s@.len() * size_of::<P>() == old(bytes)@.len(),
        r matches Ok(s) ==> size_of::<P>() == 0 ==> s@.len() == 0,
        align_of::<P>() == 1 && size_of::<P>() > 0 && old(bytes)@.len() % size_of::<P>() == 0
            ==> r is Ok,
{
    bytemuck::try_cast_slice_mut::<u8, P>(bytes)
}

/// Relies on `Vec::leak`: the leaked slice holds the vector's items. A vector of zero-sized
/// items owns no memory, so nothing is lost.
#[verifier::external_body]
fn leak_units(units: Vec<[u8; 0]>) -> (r: &'static mut [[u8; 0]])
    ensures
        r@.len() == units@.len(),
{
    units.leak()
}

/// Relies on `bytemuck::try_cast_slice` from zero-sized items: to another zero-sized type it
/// keeps the length, to a sized one it gives no items; it fails only on a misaligned start,
/// and the start is always aligned for alignment one.
#[verifier::external_body]
fn units_as<P: bytemuck::Pod>(units: &[[u8; 0]]) -> (r: Result<&[P], bytemuck::PodCastError>)
    ensures
        r matches Ok(s) ==> size_of::<P>() == 0 ==> s@.len() == units@.len(),
        r matches Ok(s) ==> size_of::<P>() > 0 ==> s@.len() == 0,
        align_of::<P>() == 1 ==> r is Ok,
{
    bytemuck::try_cast_slice::<[u8; 0], P>(units)
}

/// Relies on `bytemuck::try_cast_slice_mut` from zero-sized items, which behaves as
/// `bytemuck::try_cast_slice` does.
#[verifier::external_body]
fn units_as_mut<P: bytemuck::Pod>(units: &mut [[u8; 0]]) -> (r: Result<
    &mut [P],
    bytemuck::PodCastError,
>)
    ensures
        r matches Ok(s) ==> size_of::<P>() == 0 ==> s@.len() == old(units)@.len(),
        r matches Ok(s) ==> size_of::<P>() > 0 ==> s@.len() == 0,
        align_of::<P>() == 1 ==> r is Ok,
{
    bytemuck::try_cast_slice_mut::<[u8; 0], P>(units)
}

/// Relies on `bytemuck::cast_slice` to bytes, which never fails in that direction: the output
/// has `size_of::<P>()` bytes for each input item.
#[verifier::external_body]
fn pixels_as_bytes<P: bytemuck::Pod>(pixels: &[P]) -> (r: &[u8])
    ensures
        r@.len() == pixels@.len() * size_of::<P>(),
{
    bytemuck::cast_slice::<P, u8>(pixels)
}

/// Relies on `bytemuck::cast_slice_mut` to bytes, which never fails in that direction.
#[verifier::external_body]
fn pixels_as_bytes_mut<P: bytemuck::Pod>(pixels: &mut [P]) -> (r: &mut [u8])
    ensures
        r@.len() == old(pixels)@.len() * size_of::<P>(),
{
    bytemuck::cast_slice_mut::<P, u8>(pixels)
}

/// A type whose size is at most [`MAX_ALIGN`] and not zero, or whose alignment is one, needs
/// no larger alignment.
proof fn lemma_primitive_align<T>()
    requires
        (0 < size_of::<T>() <= MAX_ALIGN) || align_of::<T>() == 1,
    ensures
        align_of::<T>() <= MAX_ALIGN,
{
    broadcast use vstd::layout::group_align_properties;

    if align_of::<T>() > size_of::<T>() {
        assert(size_of::<T>() % align_of::<T>() == size_of::<T>()) by {
            vstd::arithmetic::div_mod::lemma_small_mod(
                size_of::<T>() as nat,
                align_of::<T>() as nat,
            );
        }
    }
}

impl AsPixel for () {
    fn pixel() -> Pixel<()> {
        proof {
            lemma_primitive_align::<()>();
        }
        Pixel { marker: PhantomData }
    }
}

impl AsPixel for u8 {
    fn pixel() -> Pixel<u8> {
        proof {
            lemma_primitive_align::<u8>();
        }
        Pixel { marker: PhantomData }
    }
}

impl AsPixel for i8 {
    fn pixel() -> Pixel<i8> {
        proof {
            lemma_primitive_align::<i8>();
        }
        Pixel { marker: PhantomData }
    }
}

impl AsPixel for u16 {
    fn pixel() -> Pixel<u16> {
        proof {
            lemma_primitive_align::<u16>();
        }
        Pixel { marker: PhantomData }
    }
}

impl AsPixel for i16 {
    fn pixel() -> Pixel<i16> {
        proof {
            lemma_primitive_align::<i16>();
        }
        Pixel { marker: PhantomData }
    }
}

impl AsPixel for u32 {
    fn pixel() -> Pixel<u32> {
        proof {
            lemma_primitive_align::<u32>();
        }
        Pixel { marker: PhantomData }
    }
}

impl AsPixel for i32 {
    fn pixel() -> Pixel<i32> {
        proof {
            lemma_primitive_align::<i32>();
        }
        Pixel { marker: PhantomData }
    }
}

impl AsPixel for u64 {
    fn pixel() -> Pixel<u64> {
        proof {
            lemma_primitive_align::<u64>();
        }
        Pixel { marker: PhantomData }
    }
}

impl AsPixel for i64 {
    fn pixel() -> Pixel<i64> {
        proof {
            lemma_primitive_align::<i64>();
        }
        Pixel { marker: PhantomData }
    }
}

} // verus!
