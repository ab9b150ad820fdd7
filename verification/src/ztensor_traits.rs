//! What a lazy tensor is made of: finite indices, extents whose ends may be
//! infinite, and a generating function that is asked for each element.

use crate::omega_int::OmegaInt;
use std::ops::Range;
use vstd::prelude::*;

verus! {

/// A finite index along one dimension.
pub type FiniteIndex = i64;

/// An end of an extent: a finite index or an infinity.
pub type OmegaIndex = OmegaInt<FiniteIndex>;

/// The functions that generate the elements of a tensor of `N` dimensions
/// from their indices: every function or closure from an index tuple to an
/// element. A tensor shares its generating function with the tensors that
/// are derived from it.
pub trait CloneableFn<const N: usize, Elem>: Fn(&[FiniteIndex; N]) -> Elem {

}

impl<const N: usize, Elem, F> CloneableFn<N, Elem> for F where F: Fn(&[FiniteIndex; N]) -> Elem {

}

/// An array of `N` dimensions whose elements are computed when they are
/// asked for. Its extents are advertised, not enforced: an element can be
/// asked for at any index tuple that the tensor accepts, within the extents
/// or not.
pub trait ZTensorLike<const N: usize> {
    /// The type of the elements.
    type DType;

    /// The advertised extent of each dimension: from `start`, up to and
    /// without `end`.
    spec fn index_ranges(&self) -> [Range<OmegaIndex>; N];

    /// Whether the tensor can be asked for the element at `indices`.
    spec fn accepts(&self, indices: [FiniteIndex; N]) -> bool;

    /// The values that the tensor may give at `indices`: one value, where
    /// the generating function is a function of the indices alone.
    spec fn values_at(&self, indices: [FiniteIndex; N]) -> Set<Self::DType>;

    /// The element at `indices`.
    fn get_single_elem(&self, indices: &[FiniteIndex; N]) -> (e: Self::DType)
        requires
            self.accepts(*indices),
        ensures
            self.values_at(*indices).contains(e),
    ;

    /// The advertised extent of each dimension.
    fn get_index_ranges(&self) -> (r: [Range<OmegaIndex>; N])
        ensures
            r == self.index_ranges(),
    ;
}

/// Whether a tensor can be asked for the element at every index tuple, as
/// one can whose generating function is defined on all of them.
pub open spec fn total<const N: usize, T: ZTensorLike<N>>(t: T) -> bool {
    forall|indices: [FiniteIndex; N]| t.accepts(indices)
}

/// Tensors that are made from extents and a generating function of type `F`.
pub trait ZTensorLikeFromRangesValues<const N: usize, F>: ZTensorLike<N> + Sized where
    F: CloneableFn<N, Self::DType>,
 {
    /// The tensor with the extents `ranges` whose elements are those that
    /// `value_getter` gives. No element is computed.
    fn from_ranges_values(ranges: &[Range<OmegaIndex>; N], value_getter: F) -> (t: Self)
        ensures
            t.index_ranges() == *ranges,
            forall|i: [FiniteIndex; N]| #[trigger]
                t.accepts(i) == call_requires(value_getter, (&i,)),
            forall|i: [FiniteIndex; N]| #[trigger]
                t.values_at(i) == Set::new(
                    |e: Self::DType| call_ensures(value_getter, (&i,), e),
                ),
    ;
}

/// The range whose ends are the ends of `r`, converted.
pub fn range_into<S, T>(r: Range<S>) -> (out: Range<T>) where S: Into<T>
    ensures
        call_ensures(S::into, (r.start,), out.start),
        call_ensures(S::into, (r.end,), out.end),
{
    Range { start: r.start.into(), end: r.end.into() }
}

/// `<[T; N]>::map` makes the array of what the function returns for each
/// element in turn; the function here is [`range_into`].
#[verifier::external_body]
fn ranges_into<const N: usize, S: Into<T>, T>(ranges: [Range<S>; N]) -> (out: [Range<T>; N])
    ensures
        forall|k: int|
            0 <= k < N ==> call_ensures(range_into::<S, T>, (ranges[k],), #[trigger] out[k]),
{
    ranges.map(|r| range_into(r))
}

/// Whether `out` is what becomes of the range `r` when its ends are cloned
/// and the clones converted.
pub open spec fn range_converted<S: Into<T> + Clone, T>(r: Range<S>, out: Range<T>) -> bool {
    exists|c: Range<S>|
        cloned(r.start, c.start) && cloned(r.end, c.end) && call_ensures(
            S::into,
            (c.start,),
            out.start,
        ) && call_ensures(S::into, (c.end,), out.end)
}

/// The extents `ranges` with their ends converted to ends of extents.
pub(crate) fn convert_ranges<const N: usize, S>(ranges: &[Range<S>; N]) -> (out: [
    Range<OmegaIndex>;
    N
]) where S: Into<OmegaIndex> + Clone
    ensures
        forall|k: int| 0 <= k < N ==> range_converted(ranges[k], #[trigger] out[k]),
{
    let cloned_ranges = ranges.clone();
    let out = ranges_into(cloned_ranges);
    assert forall|k: int| 0 <= k < N implies range_converted(ranges[k], #[trigger] out[k]) by {
        let c = cloned_ranges[k];
        assert(cloned(ranges@[k], cloned_ranges@[k]));
        assert(cloned(ranges[k].start, c.start) && cloned(ranges[k].end, c.end));
        assert(call_ensures(range_into::<S, OmegaIndex>, (c,), out[k]));
        assert(call_ensures(S::into, (c.start,), out[k].start));
        assert(call_ensures(S::into, (c.end,), out[k].end));
    }
    out
}

/// Tensors of which a slice can be taken.
pub trait ZTensorLikeSlice<const N: usize>: ZTensorLike<N> + Sized {
    /// The tensor with the extents `ranges` and the elements of this one:
    /// the element at an index tuple is what it was, and no index is
    /// shifted.
    fn get_slice(&self, ranges: &[Range<OmegaIndex>; N]) -> (s: Self)
        ensures
            s.index_ranges() == *ranges,
            forall|i: [FiniteIndex; N]| #[trigger] s.accepts(i) == self.accepts(i),
            forall|i: [FiniteIndex; N]| #[trigger] s.values_at(i) == self.values_at(i),
    ;
}

/// Tensors of which a slice can be taken by extents whose ends are of any
/// type that converts to an end of an extent.
pub trait ZTensorLikeSliceGenericIndex<const N: usize>: ZTensorLikeSlice<N> + Sized {
    /// The slice with the extents `ranges`, their ends converted.
    fn get_slice_generic<S: Into<OmegaIndex> + Clone>(&self, ranges: &[Range<S>; N]) -> (s: Self)
        ensures
            forall|k: int|
                0 <= k < N ==> range_converted(ranges[k], #[trigger] s.index_ranges()[k]),
            forall|i: [FiniteIndex; N]| #[trigger] s.accepts(i) == self.accepts(i),
            forall|i: [FiniteIndex; N]| #[trigger] s.values_at(i) == self.values_at(i),
    {
        let ranges: [Range<OmegaIndex>; N] = convert_ranges(ranges);
        self.get_slice(&ranges)
    }
}

impl<T, const N: usize> ZTensorLikeSliceGenericIndex<N> for T where T: ZTensorLikeSlice<N> + Sized {

}

/// Tensors that are made from a generating function of type `F` and extents
/// whose ends are of any type that converts to an end of an extent.
pub trait ZTensorLikeFromRangesValuesGenericIndex<
    const N: usize,
    D,
    F,
>: ZTensorLike<N, DType = D> + Sized + ZTensorLikeFromRangesValues<N, F> where
    F: CloneableFn<N, D>,
 {
    /// The tensor with the extents `ranges`, their ends converted, whose
    /// elements are those that `value_getter` gives.
    fn from_ranges_values_generic<S: Into<OmegaIndex> + Clone>(
        ranges: &[Range<S>; N],
        value_getter: F,
    ) -> (t: Self)
        ensures
            forall|k: int|
                0 <= k < N ==> range_converted(ranges[k], #[trigger] t.index_ranges()[k]),
            forall|i: [FiniteIndex; N]| #[trigger]
                t.accepts(i) == call_requires(value_getter, (&i,)),
            forall|i: [FiniteIndex; N]| #[trigger]
                t.values_at(i) == Set::new(|e: D| call_ensures(value_getter, (&i,), e)),
    {
        let ranges: [Range<OmegaIndex>; N] = convert_ranges(ranges);
        Self::from_ranges_values(&ranges, value_getter)
    }
}

impl<const N: usize, D, F, T> ZTensorLikeFromRangesValuesGenericIndex<N, D, F> for T where
    F: CloneableFn<N, D>,
    T: ZTensorLike<N, DType = D> + Sized + ZTensorLikeFromRangesValues<N, F>,
 {

}

/// Tensors without a dimension: scalars.
pub trait ZScalarLike: ZTensorLike<0> {

}

impl<T: ZTensorLike<0>> ZScalarLike for T {

}

/// Tensors of one dimension: vectors.
pub trait ZVectorLike: ZTensorLike<1> {

}

impl<T: ZTensorLike<1>> ZVectorLike for T {

}

/// Tensors of two dimensions: matrices.
pub trait ZMatrixLike: ZTensorLike<2> {

}

impl<T: ZTensorLike<2>> ZMatrixLike for T {

}

} // verus!
