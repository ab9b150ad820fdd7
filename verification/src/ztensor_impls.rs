//! The lazy tensor.

use crate::elem::Elem;
use crate::generic_index::Index;
use crate::ztensor_traits::{
    convert_ranges, range_converted, total, CloneableFn, FiniteIndex, OmegaIndex, ZTensorLike,
    ZTensorLikeFromRangesValues, ZTensorLikeSlice,
};
use std::marker::PhantomData;
use std::ops::{Deref, Range};
use std::sync::Arc;
use vstd::prelude::*;

verus! {

/// `Arc::clone` is another handle to the same value.
#[verifier::external_body]
fn share<G>(g: &Arc<G>) -> (r: Arc<G>)
    ensures
        r == *g,
{
    Arc::clone(g)
}

/// `Clone::clone` of a `Range` clones its two ends.
pub assume_specification<Idx: Clone>[ <Range<Idx> as Clone>::clone ](r: &Range<Idx>) -> (res:
    Range<Idx>)
    ensures
        cloned(r.start, res.start),
        cloned(r.end, res.end),
;

/// The copy of the extents `ranges`.
fn clone_ranges<const N: usize>(ranges: &[Range<OmegaIndex>; N]) -> (r: [Range<OmegaIndex>; N])
    ensures
        r == *ranges,
{
    let r = ranges.clone();
    assert(r@ =~= ranges@);
    assert(r =~= *ranges);
    r
}

/// A tensor of `N` dimensions with elements of type `E`, generated by a
/// function of type `G`.
///
/// The tensor can be asked for an element wherever its generating function
/// can be called, and the element is whatever the function returns there. A
/// tensor whose generating function can be called on every index tuple can
/// be asked everywhere. No operation changes a tensor: each makes a new one,
/// which shares the generating function.
///
/// The fields are public, so that a function that makes a tensor from a
/// closure of its own can say what the tensor holds.
pub struct ZTensor<const N: usize, E, G> {
    /// The advertised extent of each dimension.
    pub index_ranges: [Range<OmegaIndex>; N],
    /// The function that computes the element at given indices.
    pub value_getter: Arc<G>,
    /// The type of the elements.
    pub elem: PhantomData<E>,
}

/// The handle to an element of a tensor: it holds the element, which was
/// computed when the handle was asked for.
pub struct ZTensorElemRef<E> {
    /// The element.
    value: E,
}

impl<E> ZTensorElemRef<E> {
    /// The element that the handle holds.
    pub closed spec fn elem(&self) -> E {
        self.value
    }
}

impl<E> Deref for ZTensorElemRef<E> {
    type Target = E;

    fn deref(&self) -> (r: &E)
        ensures
            *r == self.elem(),
    {
        &self.value
    }
}

impl<const N: usize, E, G: CloneableFn<N, E>> ZTensor<N, E, G> {
    /// The generating function.
    pub open spec fn generator(&self) -> G {
        *self.value_getter
    }

    /// The advertised extent of each dimension: from `start`, up to and
    /// without `end`.
    pub open spec fn ranges(&self) -> [Range<OmegaIndex>; N] {
        self.index_ranges
    }

    /// The values that the tensor may give at `indices`: those that its
    /// generating function may return there, which is one value where the
    /// function is a function of the indices alone.
    pub open spec fn values(&self, indices: [FiniteIndex; N]) -> Set<E> {
        Set::new(|e: E| call_ensures(self.generator(), (&indices,), e))
    }

    /// The tensor with the extents `ranges` whose elements are those that
    /// `value_getter` gives. No element is computed.
    pub fn from_ranges_values(ranges: &[Range<OmegaIndex>; N], value_getter: G) -> (t: Self)
        ensures
            t.ranges() == *ranges,
            t.generator() == value_getter,
    {
        ZTensor {
            index_ranges: clone_ranges(ranges),
            value_getter: Arc::new(value_getter),
            elem: PhantomData,
        }
    }

    /// The advertised extent of each dimension.
    pub fn get_index_ranges(&self) -> (r: [Range<OmegaIndex>; N])
        ensures
            r == self.ranges(),
    {
        clone_ranges(&self.index_ranges)
    }

    /// The element at `indices`: what the generating function returns there.
    pub fn get_single_elem(&self, indices: &[FiniteIndex; N]) -> (e: E)
        requires
            call_requires(self.generator(), (indices,)),
        ensures
            call_ensures(self.generator(), (indices,), e),
    {
        (self.value_getter)(indices)
    }

    /// The tensor with the extents `ranges` and the generating function of
    /// this one: the element at an index tuple is what it was, and no index
    /// is shifted.
    pub fn get_slice(&self, ranges: &[Range<OmegaIndex>; N]) -> (s: Self)
        ensures
            s.ranges() == *ranges,
            s.generator() == self.generator(),
    {
        ZTensor {
            index_ranges: clone_ranges(ranges),
            value_getter: share(&self.value_getter),
            elem: PhantomData,
        }
    }

    /// A handle to the element at `index`.
    pub fn index(&self, index: [FiniteIndex; N]) -> (r: ZTensorElemRef<E>)
        requires
            call_requires(self.generator(), (&index,)),
        ensures
            call_ensures(self.generator(), (&index,), r.elem()),
    {
        ZTensorElemRef { value: self.get_single_elem(&index) }
    }
}

/// A copy of a tensor has the extents of the tensor and shares its
/// generating function.
impl<const N: usize, E, G: CloneableFn<N, E>> Clone for ZTensor<N, E, G> {
    fn clone(&self) -> (r: Self)
        ensures
            r.ranges() == self.ranges(),
            r.generator() == self.generator(),
    {
        ZTensor {
            index_ranges: clone_ranges(&self.index_ranges),
            value_getter: share(&self.value_getter),
            elem: PhantomData,
        }
    }
}

impl<const N: usize, E, G: CloneableFn<N, E>> ZTensor<N, E, G> {
    /// What the tensor traits say of this tensor, over its extents and its
    /// generating function.
    pub proof fn lemma_tensor_like(self)
        ensures
            self.index_ranges() == self.ranges(),
            forall|i: [FiniteIndex; N]| #[trigger]
                self.accepts(i) == call_requires(self.generator(), (&i,)),
            forall|i: [FiniteIndex; N]| #[trigger] self.values_at(i) == self.values(i),
    {
    }
}

impl<const N: usize, E, G: CloneableFn<N, E>> ZTensorLike<N> for ZTensor<N, E, G> {
    type DType = E;

    open spec fn index_ranges(&self) -> [Range<OmegaIndex>; N] {
        self.ranges()
    }

    open spec fn accepts(&self, indices: [FiniteIndex; N]) -> bool {
        call_requires(self.generator(), (&indices,))
    }

    open spec fn values_at(&self, indices: [FiniteIndex; N]) -> Set<E> {
        self.values(indices)
    }

    fn get_index_ranges(&self) -> (r: [Range<OmegaIndex>; N]) {
        ZTensor::get_index_ranges(self)
    }

    fn get_single_elem(&self, indices: &[FiniteIndex; N]) -> (e: E) {
        ZTensor::get_single_elem(self, indices)
    }
}

impl<const N: usize, E, G: CloneableFn<N, E>> ZTensorLikeFromRangesValues<N, G> for ZTensor<
    N,
    E,
    G,
> {
    fn from_ranges_values(ranges: &[Range<OmegaIndex>; N], value_getter: G) -> (t: Self) {
        ZTensor::from_ranges_values(ranges, value_getter)
    }
}

impl<const N: usize, E, G: CloneableFn<N, E>> ZTensorLikeSlice<N> for ZTensor<N, E, G> {
    fn get_slice(&self, ranges: &[Range<OmegaIndex>; N]) -> (s: Self) {
        ZTensor::get_slice(self, ranges)
    }
}

impl<const N: usize, E, G> Index<[FiniteIndex; N]> for ZTensor<N, E, G> where
    E: 'static,
    G: CloneableFn<N, E> + 'static,
 {
    type Output = E;

    type DerefOutput<'a> = ZTensorElemRef<E>;

    open spec fn index_accepts(&self, index: [FiniteIndex; N]) -> bool {
        call_requires(self.generator(), (&index,))
    }

    open spec fn index_yields(&self, index: [FiniteIndex; N], e: E) -> bool {
        call_ensures(self.generator(), (&index,), e)
    }

    open spec fn handle_value<'a>(handle: ZTensorElemRef<E>) -> E {
        handle.elem()
    }

    fn index<'a>(&'a self, index: [FiniteIndex; N]) -> (r: ZTensorElemRef<E>) {
        ZTensor::index(self, index)
    }
}

impl<const N: usize, E, G: CloneableFn<N, E>> ZTensor<N, E, G> {
    /// The tensor with the extents `ranges`, their ends converted, whose
    /// elements are those that `value_getter` gives.
    pub fn from_ranges_values_generic<S: Into<OmegaIndex> + Clone>(
        ranges: &[Range<S>; N],
        value_getter: G,
    ) -> (t: Self)
        ensures
            forall|k: int| 0 <= k < N ==> range_converted(ranges[k], #[trigger] t.ranges()[k]),
            t.generator() == value_getter,
    {
        let converted = convert_ranges(ranges);
        ZTensor::from_ranges_values(&converted, value_getter)
    }

    /// The slice with the extents `ranges`, their ends converted.
    pub fn get_slice_generic<S: Into<OmegaIndex> + Clone>(&self, ranges: &[Range<S>; N]) -> (s:
        Self)
        ensures
            forall|k: int| 0 <= k < N ==> range_converted(ranges[k], #[trigger] s.ranges()[k]),
            s.generator() == self.generator(),
    {
        let converted = convert_ranges(ranges);
        self.get_slice(&converted)
    }

    /// A tensor can be asked everywhere where its generating function can be
    /// called on every index tuple, and so can then every slice and every
    /// copy of it.
    pub proof fn lemma_total(self, other: Self)
        ensures
            total(self) <==> forall|indices: [FiniteIndex; N]|
                call_requires(self.generator(), (&indices,)),
            other.generator() == self.generator() ==> (total(other) <==> total(self)),
    {
        self.lemma_tensor_like();
        other.lemma_tensor_like();
        if forall|indices: [FiniteIndex; N]| call_requires(self.generator(), (&indices,)) {
            assert forall|indices: [FiniteIndex; N]| self.accepts(indices) by {}
        }
        if total(self) {
            assert forall|indices: [FiniteIndex; N]|
                call_requires(self.generator(), (&indices,)) by {
                assert(self.accepts(indices));
            }
        }
        if other.generator() == self.generator() {
            if total(self) {
                assert forall|indices: [FiniteIndex; N]| other.accepts(indices) by {
                    assert(self.accepts(indices));
                }
            }
            if total(other) {
                assert forall|indices: [FiniteIndex; N]| self.accepts(indices) by {
                    assert(other.accepts(indices));
                }
            }
        }
    }
}

/// The slice of any tensor that elements can be read from: the tensor with
/// the extents `ranges` that reads its elements from `t`. It can be asked
/// wherever `t` can, and gives only what `t` gives there.
pub fn slice_by_reading<const N: usize, E, T: ZTensorLike<N, DType = E>>(
    t: T,
    ranges: &[Range<OmegaIndex>; N],
) -> (s: ZTensor<N, E, impl Fn(&[FiniteIndex; N]) -> E>)
    ensures
        s.ranges() == *ranges,
        forall|indices: [FiniteIndex; N]|
            t.accepts(indices) ==> #[trigger] call_requires(s.generator(), (&indices,)),
        forall|indices: [FiniteIndex; N]| #[trigger]
            s.values(indices).subset_of(t.values_at(indices)),
{
    let source = Arc::new(t);
    let getter = move |indices: &[FiniteIndex; N]| -> (e: E)
        requires
            source.accepts(*indices),
        ensures
            source.values_at(*indices).contains(e),
        { source.get_single_elem(indices) };
    ZTensor::from_ranges_values(ranges, getter)
}

/// The index pair with its two indices exchanged.
pub open spec fn transposed(indices: [FiniteIndex; 2]) -> [FiniteIndex; 2] {
    [indices[1], indices[0]]
}

/// Whether `r` is the conjugate transpose of `t` under the conjugation
/// `conj`: the two extents are exchanged, `r` can be asked for an element
/// wherever `t` can be asked for the one at the exchanged indices, and what
/// `r` gives is what `conj` makes of what `t` gives there.
pub open spec fn is_conj_trans_with<E, G, C, H>(
    t: ZTensor<2, E, G>,
    conj: C,
    r: ZTensor<2, E, H>,
) -> bool where G: CloneableFn<2, E>, C: Fn(E) -> E, H: CloneableFn<2, E> {
    &&& r.ranges()[0] == t.ranges()[1]
    &&& r.ranges()[1] == t.ranges()[0]
    &&& forall|indices: [FiniteIndex; 2]|
        call_requires(t.generator(), (&transposed(indices),)) ==> #[trigger] call_requires(
            r.generator(),
            (&indices,),
        )
    &&& forall|indices: [FiniteIndex; 2], e: E| #[trigger]
        call_ensures(r.generator(), (&indices,), e) ==> exists|z: E|
            call_ensures(t.generator(), (&transposed(indices),), z) && call_ensures(
                conj,
                (z,),
                e,
            )
}

impl<E, G: CloneableFn<2, E>> ZTensor<2, E, G> {
    /// The conjugate transpose under the conjugation `conj`: the matrix with
    /// the two extents exchanged whose element at `(i, j)` is what `conj`
    /// makes of the element of this one at `(j, i)`. The conjugation must be
    /// defined on every element.
    pub fn conj_trans_with<C: Fn(E) -> E>(&self, conj: C) -> (r: ZTensor<
        2,
        E,
        impl Fn(&[FiniteIndex; 2]) -> E,
    >)
        requires
            forall|z: E| call_requires(conj, (z,)),
        ensures
            is_conj_trans_with(*self, conj, r),
    {
        let valget = share(&self.value_getter);
        let conj_shared = Arc::new(conj);
        let getter = move |indices: &[FiniteIndex; 2]| -> (e: E)
            requires
                call_requires(*valget, (&transposed(*indices),)),
            ensures
                exists|z: E|
                    call_ensures(*valget, (&transposed(*indices),), z) && call_ensures(
                        *conj_shared,
                        (z,),
                        e,
                    ),
            {
                let exchanged: [FiniteIndex; 2] = [indices[1], indices[0]];
                assert(exchanged =~= transposed(*indices));
                let val = valget(&exchanged);
                conj_shared(val)
            };
        let ranges = [
            Range { start: self.index_ranges[1].start, end: self.index_ranges[1].end },
            Range { start: self.index_ranges[0].start, end: self.index_ranges[0].end },
        ];
        let r = ZTensor::from_ranges_values(&ranges, getter);
        proof {
            assert(r.ranges()[0] == self.ranges()[1]);
            assert(r.ranges()[1] == self.ranges()[0]);
            assert forall|indices: [FiniteIndex; 2]|
                call_requires(
                    self.generator(),
                    (&transposed(indices),),
                ) implies #[trigger] call_requires(r.generator(), (&indices,)) by {}
            assert forall|indices: [FiniteIndex; 2], e: E| #[trigger]
                call_ensures(r.generator(), (&indices,), e) implies exists|z: E|
                call_ensures(self.generator(), (&transposed(indices),), z) && call_ensures(
                    conj,
                    (z,),
                    e,
                ) by {
                assert(call_ensures(getter, (&indices,), e));
                let z = choose|z: E|
                    call_ensures(self.generator(), (&transposed(indices),), z) && call_ensures(
                        conj,
                        (z,),
                        e,
                    );
                assert(call_ensures(self.generator(), (&transposed(indices),), z) && call_ensures(
                    conj,
                    (z,),
                    e,
                ));
            }
        }
        r
    }
}

/// Where the conjugation cancels itself, the conjugate transpose of the
/// conjugate transpose of a matrix is the matrix again: it has the same
/// extents, can be asked wherever the matrix can, and gives only what the
/// matrix gives.
pub proof fn lemma_conj_trans_with_twice<E, G, C, H, K>(
    t: ZTensor<2, E, G>,
    conj: C,
    once: ZTensor<2, E, H>,
    twice: ZTensor<2, E, K>,
) where G: CloneableFn<2, E>, C: Fn(E) -> E, H: CloneableFn<2, E>, K: CloneableFn<2, E>
    requires
        is_conj_trans_with(t, conj, once),
        is_conj_trans_with(once, conj, twice),
        forall|z: E, w: E, e: E|
            call_ensures(conj, (z,), w) && call_ensures(conj, (w,), e) ==> e == z,
    ensures
        twice.ranges() == t.ranges(),
        forall|indices: [FiniteIndex; 2]|
            call_requires(t.generator(), (&indices,)) ==> call_requires(
                twice.generator(),
                (&indices,),
            ),
        forall|indices: [FiniteIndex; 2], e: E|
            call_ensures(twice.generator(), (&indices,), e) ==> call_ensures(
                t.generator(),
                (&indices,),
                e,
            ),
{
    assert(twice.ranges() =~= t.ranges());
    assert forall|indices: [FiniteIndex; 2]| transposed(transposed(indices)) == indices by {
        assert(transposed(transposed(indices)) =~= indices);
    }
    assert forall|indices: [FiniteIndex; 2]|
        call_requires(t.generator(), (&indices,)) implies call_requires(
        twice.generator(),
        (&indices,),
    ) by {
        assert(transposed(transposed(indices)) == indices);
        assert(call_requires(once.generator(), (&transposed(indices),)));
    }
    assert forall|indices: [FiniteIndex; 2], e: E|
        call_ensures(twice.generator(), (&indices,), e) implies call_ensures(
        t.generator(),
        (&indices,),
        e,
    ) by {
        let w = choose|w: E|
            call_ensures(once.generator(), (&transposed(indices),), w) && call_ensures(
                conj,
                (w,),
                e,
            );
        let z = choose|z: E|
            call_ensures(t.generator(), (&transposed(transposed(indices)),), z) && call_ensures(
                conj,
                (z,),
                w,
            );
        assert(transposed(transposed(indices)) == indices);
        assert(e == z);
    }
}

/// Whether `r` is the conjugate transpose of `t`: the two extents are
/// exchanged, `r` can be asked for an element wherever `t` can be asked for
/// the one at the exchanged indices, and what `r` gives is the complex
/// conjugate of what `t` gives there.
pub open spec fn is_conj_trans<G, H>(t: ZTensor<2, Elem, G>, r: ZTensor<2, Elem, H>) -> bool where
    G: CloneableFn<2, Elem>,
    H: CloneableFn<2, Elem>,
 {
    &&& r.ranges()[0] == t.ranges()[1]
    &&& r.ranges()[1] == t.ranges()[0]
    &&& forall|indices: [FiniteIndex; 2]|
        call_requires(t.generator(), (&transposed(indices),)) ==> #[trigger] call_requires(
            r.generator(),
            (&indices,),
        )
    &&& forall|indices: [FiniteIndex; 2], e: Elem| #[trigger]
        call_ensures(r.generator(), (&indices,), e) ==> exists|z: Elem|
            call_ensures(t.generator(), (&transposed(indices),), z) && e == z.conj_spec()
}

impl<G: CloneableFn<2, Elem>> ZTensor<2, Elem, G> {
    /// The conjugate transpose: the matrix with the two extents exchanged
    /// whose element at `(i, j)` is the complex conjugate of the element of
    /// this one at `(j, i)`.
    pub fn conj_trans(&self) -> (r: ZTensor<2, Elem, impl Fn(&[FiniteIndex; 2]) -> Elem>)
        ensures
            is_conj_trans(*self, r),
    {
        let valget = share(&self.value_getter);
        let getter = move |indices: &[FiniteIndex; 2]| -> (e: Elem)
            requires
                call_requires(*valget, (&transposed(*indices),)),
            ensures
                exists|z: Elem|
                    call_ensures(*valget, (&transposed(*indices),), z) && e == z.conj_spec(),
            {
                let exchanged: [FiniteIndex; 2] = [indices[1], indices[0]];
                assert(exchanged =~= transposed(*indices));
                let val = valget(&exchanged);
                val.conj()
            };
        let ranges = [
            Range { start: self.index_ranges[1].start, end: self.index_ranges[1].end },
            Range { start: self.index_ranges[0].start, end: self.index_ranges[0].end },
        ];
        let r = ZTensor::from_ranges_values(&ranges, getter);
        proof {
            assert forall|indices: [FiniteIndex; 2], e: Elem| #[trigger]
                call_ensures(r.generator(), (&indices,), e) implies exists|z: Elem|
                call_ensures(self.generator(), (&transposed(indices),), z) && e
                    == z.conj_spec() by {
                let z = choose|z: Elem|
                    call_ensures(self.generator(), (&transposed(indices),), z) && e
                        == z.conj_spec();
                assert(call_ensures(self.generator(), (&transposed(indices),), z) && e
                    == z.conj_spec());
            }
        }
        r
    }
}

/// The conjugate transpose of the conjugate transpose of a matrix is the
/// matrix again: it has the same extents, can be asked wherever the matrix
/// can, and gives only what the matrix gives.
pub proof fn lemma_conj_trans_twice<G, H, K>(
    t: ZTensor<2, Elem, G>,
    once: ZTensor<2, Elem, H>,
    twice: ZTensor<2, Elem, K>,
) where G: CloneableFn<2, Elem>, H: CloneableFn<2, Elem>, K: CloneableFn<2, Elem>
    requires
        is_conj_trans(t, once),
        is_conj_trans(once, twice),
    ensures
        twice.ranges() == t.ranges(),
        forall|indices: [FiniteIndex; 2]|
            call_requires(t.generator(), (&indices,)) ==> call_requires(
                twice.generator(),
                (&indices,),
            ),
        forall|indices: [FiniteIndex; 2], e: Elem|
            call_ensures(twice.generator(), (&indices,), e) ==> call_ensures(
                t.generator(),
                (&indices,),
                e,
            ),
{
    assert(twice.ranges() =~= t.ranges());
    assert forall|indices: [FiniteIndex; 2]| transposed(transposed(indices)) == indices by {
        assert(transposed(transposed(indices)) =~= indices);
    }
    assert forall|indices: [FiniteIndex; 2]|
        call_requires(t.generator(), (&indices,)) implies call_requires(
        twice.generator(),
        (&indices,),
    ) by {
        assert(transposed(transposed(indices)) == indices);
        assert(call_requires(once.generator(), (&transposed(indices),)));
    }
    assert forall|indices: [FiniteIndex; 2], e: Elem|
        call_ensures(twice.generator(), (&indices,), e) implies call_ensures(
        t.generator(),
        (&indices,),
        e,
    ) by {
        let w = choose|w: Elem|
            call_ensures(once.generator(), (&transposed(indices),), w) && e == w.conj_spec();
        let z = choose|z: Elem|
            call_ensures(t.generator(), (&transposed(transposed(indices)),), z) && w
                == z.conj_spec();
        assert(transposed(transposed(indices)) == indices);
        z.lemma_conj_involution();
    }
}

/// A tensor without a dimension.
pub type ZScalar<E, G> = ZTensor<0, E, G>;

/// A tensor of one dimension.
pub type ZVector<E, G> = ZTensor<1, E, G>;

/// A tensor of two dimensions.
pub type ZMatrix<E, G> = ZTensor<2, E, G>;

} // verus!
