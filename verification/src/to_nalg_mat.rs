//! Dense matrices of `nalgebra` from matrices that are tensors, and back.
//!
//! A tensor can be made into a dense matrix where both of its extents are
//! finite; the matrix holds the elements within the extents. A dense matrix
//! is made into a tensor whose extents start at zero.

use crate::elem::Elem;
use crate::failure::Failure;
use crate::omega_int::OmegaInt;
use crate::ztensor_impls::ZTensor;
use crate::ztensor_traits::{CloneableFn, FiniteIndex, OmegaIndex, ZTensorLike};
use std::ops::Range;
use std::sync::Arc;
use vstd::prelude::*;

verus! {

/// A dense matrix of `nalgebra` whose elements are of type `Elem`. What it
/// holds is known by its shape and its cells.
#[verifier::external_body]
#[derive(PartialEq, Debug)]
pub struct DenseMatrix {
    inner: nalgebra::DMatrix<Elem>,
}

/// The numbers of rows and of columns of a dense matrix.
pub uninterp spec fn dense_shape(m: DenseMatrix) -> (nat, nat);

/// The cells of a dense matrix, by row and column.
pub uninterp spec fn dense_cells(m: DenseMatrix) -> Map<(int, int), Elem>;

/// `Matrix::nrows` is the number of rows.
#[verifier::external_body]
fn dense_nrows(m: &DenseMatrix) -> (n: usize)
    ensures
        n == dense_shape(*m).0,
{
    m.inner.nrows()
}

/// `Matrix::ncols` is the number of columns.
#[verifier::external_body]
fn dense_ncols(m: &DenseMatrix) -> (n: usize)
    ensures
        n == dense_shape(*m).1,
{
    m.inner.ncols()
}

/// Indexing a `Matrix` by a pair gives the cell at that row and column; the
/// pair must lie within the shape.
#[verifier::external_body]
fn dense_index(m: &DenseMatrix, i: usize, j: usize) -> (e: Elem)
    requires
        i < dense_shape(*m).0,
        j < dense_shape(*m).1,
    ensures
        e == dense_cells(*m)[(i as int, j as int)],
{
    m.inner[(i, j)]
}

/// `DMatrix::from_row_slice` makes the matrix of the given shape whose
/// cells are the elements of the slice, row by row; the slice must hold as
/// many elements as the matrix has cells.
#[verifier::external_body]
fn dense_from_row_slice(nrows: usize, ncols: usize, data: &[Elem]) -> (m: DenseMatrix)
    requires
        nrows * ncols == data@.len(),
    ensures
        dense_shape(m) == (nrows as nat, ncols as nat),
        forall|i: int, j: int|
            0 <= i < nrows && 0 <= j < ncols ==> #[trigger] dense_cells(m)[(i, j)] == data@[i
                * ncols + j],
{
    DenseMatrix { inner: nalgebra::DMatrix::from_row_slice(nrows, ncols, data) }
}

/// `Clone::clone` of a `DMatrix` is a matrix of the same shape with the
/// same cells.
#[verifier::external_body]
fn dense_clone(m: &DenseMatrix) -> (r: DenseMatrix)
    ensures
        dense_shape(r) == dense_shape(*m),
        dense_cells(r) == dense_cells(*m),
{
    DenseMatrix { inner: m.inner.clone() }
}

impl Clone for DenseMatrix {
    fn clone(&self) -> (r: Self)
        ensures
            r.spec_nrows() == self.spec_nrows(),
            r.spec_ncols() == self.spec_ncols(),
            dense_cells(r) == dense_cells(*self),
    {
        dense_clone(self)
    }
}

/// The number of bytes that an element takes in memory.
pub const ELEM_BYTES: usize = 8;

/// Whether a matrix of `nrows` rows and `ncols` columns can be held: a block
/// of memory has at most `isize::MAX` bytes.
pub open spec fn cells_fit(nrows: int, ncols: int) -> bool {
    nrows * ncols * ELEM_BYTES <= isize::MAX
}

/// The index pair of the tensor that the cell at row `i` and column `j`
/// is taken from, where the extents start at `start0` and `start1`.
pub open spec fn cell_index(start0: int, start1: int, i: int, j: int) -> [FiniteIndex; 2] {
    [(start0 + i) as FiniteIndex, (start1 + j) as FiniteIndex]
}

/// The element of `t` for the cell at row `i` and column `j`.
fn cell_at<T: ZTensorLike<2, DType = Elem>>(
    t: &T,
    start0: FiniteIndex,
    start1: FiniteIndex,
    i: usize,
    j: usize,
) -> (e: Elem)
    requires
        i <= FiniteIndex::MAX,
        j <= FiniteIndex::MAX,
        start0 + i <= FiniteIndex::MAX,
        start1 + j <= FiniteIndex::MAX,
        t.accepts(cell_index(start0 as int, start1 as int, i as int, j as int)),
    ensures
        t.values_at(cell_index(start0 as int, start1 as int, i as int, j as int)).contains(e),
{
    let indices: [FiniteIndex; 2] = [start0 + i as FiniteIndex, start1 + j as FiniteIndex];
    assert(indices =~= cell_index(start0 as int, start1 as int, i as int, j as int));
    t.get_single_elem(&indices)
}

/// `DMatrix::from_fn` makes the matrix of the given shape whose cell at
/// each row and column is what the function returns for them; the function
/// here is [`cell_at`]. It reserves the memory of all cells at once, which
/// must be no more than a block of memory can have.
#[verifier::external_body]
fn dense_from_fn<T: ZTensorLike<2, DType = Elem>>(
    nrows: usize,
    ncols: usize,
    t: &T,
    start0: FiniteIndex,
    start1: FiniteIndex,
) -> (m: DenseMatrix)
    requires
        cells_fit(nrows as int, ncols as int),
        nrows <= FiniteIndex::MAX,
        ncols <= FiniteIndex::MAX,
        start0 + nrows <= FiniteIndex::MAX + 1,
        start1 + ncols <= FiniteIndex::MAX + 1,
        forall|i: int, j: int|
            0 <= i < nrows && 0 <= j < ncols ==> t.accepts(
                #[trigger] cell_index(start0 as int, start1 as int, i, j),
            ),
    ensures
        dense_shape(m) == (nrows as nat, ncols as nat),
        forall|i: int, j: int|
            0 <= i < nrows && 0 <= j < ncols ==> t.values_at(
                cell_index(start0 as int, start1 as int, i, j),
            ).contains(#[trigger] dense_cells(m)[(i, j)]),
{
    DenseMatrix {
        inner: nalgebra::DMatrix::from_fn(nrows, ncols, |i, j| cell_at(t, start0, start1, i, j)),
    }
}

impl DenseMatrix {
    /// The number of rows.
    pub open spec fn spec_nrows(self) -> nat {
        dense_shape(self).0
    }

    /// The number of columns.
    pub open spec fn spec_ncols(self) -> nat {
        dense_shape(self).1
    }

    /// The cell at row `i` and column `j`.
    pub open spec fn cell(self, i: int, j: int) -> Elem {
        dense_cells(self)[(i, j)]
    }

    /// The number of rows.
    pub fn nrows(&self) -> (n: usize)
        ensures
            n == self.spec_nrows(),
    {
        dense_nrows(self)
    }

    /// The number of columns.
    pub fn ncols(&self) -> (n: usize)
        ensures
            n == self.spec_ncols(),
    {
        dense_ncols(self)
    }

    /// The cell at row `i` and column `j`, where the matrix has one.
    pub fn get(&self, i: usize, j: usize) -> (e: Option<Elem>)
        ensures
            e == (if i < self.spec_nrows() && j < self.spec_ncols() {
                Some(self.cell(i as int, j as int))
            } else {
                None
            }),
    {
        if i < dense_nrows(self) && j < dense_ncols(self) {
            Some(dense_index(self, i, j))
        } else {
            None
        }
    }

    /// The matrix of the given shape whose cells are the elements of `data`,
    /// row by row, where `data` holds as many elements as the shape has
    /// cells.
    pub fn from_row_slice(nrows: usize, ncols: usize, data: &[Elem]) -> (r: Option<Self>)
        ensures
            match r {
                Some(m) => {
                    &&& nrows * ncols == data@.len()
                    &&& m.spec_nrows() == nrows
                    &&& m.spec_ncols() == ncols
                    &&& forall|i: int, j: int|
                        0 <= i < nrows && 0 <= j < ncols ==> #[trigger] m.cell(i, j) == data@[i
                            * ncols + j]
                },
                None => nrows * ncols != data@.len(),
            },
    {
        let len = data.len();
        match nrows.checked_mul(ncols) {
            Some(cells) => {
                if cells == len {
                    let m = dense_from_row_slice(nrows, ncols, data);
                    assert forall|i: int, j: int|
                        0 <= i < nrows && 0 <= j < ncols implies #[trigger] m.cell(i, j)
                        == data@[i * ncols + j] by {
                        assert(dense_cells(m)[(i, j)] == data@[i * ncols + j]);
                    }
                    Some(m)
                } else {
                    None
                }
            },
            None => None,
        }
    }
}

/// The part of the index plane that a dense matrix is filled from: where
/// each extent starts and how many indices it holds.
#[derive(PartialEq, Eq, Clone, Copy, Debug)]
pub struct Window {
    /// Where the first extent starts: the index of the first row.
    pub start0: FiniteIndex,
    /// The number of indices of the first extent: the number of rows.
    pub nrows: usize,
    /// Where the second extent starts: the index of the first column.
    pub start1: FiniteIndex,
    /// The number of indices of the second extent: the number of columns.
    pub ncols: usize,
}

/// Where a finite extent starts and how many indices it holds, or why no
/// dense matrix can be made along it: an extent with an infinite end, or one
/// that ends before it starts, is outside what the conversion is defined on,
/// and a count of indices that is no index or no `usize` is an overflow.
pub open spec fn extent_outcome(r: Range<OmegaIndex>) -> Result<(int, int), Failure> {
    match (r.start, r.end) {
        (OmegaInt::Integer(s), OmegaInt::Integer(e)) => if e - s < 0 {
            Err(Failure::ContractViolation)
        } else if e - s > FiniteIndex::MAX || e - s > usize::MAX {
            Err(Failure::Overflow)
        } else {
            Ok((s as int, e - s))
        },
        _ => Err(Failure::ContractViolation),
    }
}

/// The window that a dense matrix is filled from where the extents are
/// `ranges`, or why none can be made. A violated contract is reported before
/// an overflow, and more cells than can be held are an overflow.
pub open spec fn window_of(ranges: [Range<OmegaIndex>; 2]) -> Result<Window, Failure> {
    match (extent_outcome(ranges[0]), extent_outcome(ranges[1])) {
        (Ok((s0, n0)), Ok((s1, n1))) => if cells_fit(n0, n1) {
            Ok(
                Window {
                    start0: s0 as FiniteIndex,
                    nrows: n0 as usize,
                    start1: s1 as FiniteIndex,
                    ncols: n1 as usize,
                },
            )
        } else {
            Err(Failure::Overflow)
        },
        (Err(Failure::ContractViolation), _) => Err(Failure::ContractViolation),
        (_, Err(Failure::ContractViolation)) => Err(Failure::ContractViolation),
        _ => Err(Failure::Overflow),
    }
}

/// Two finite extents that do not end before they start, whose counts of
/// indices are 32-bit numbers and multiply to less than 2 to the power of
/// 28, make the window that starts where they start and holds their
/// indices.
pub proof fn lemma_window_of_finite(ranges: [Range<OmegaIndex>; 2])
    requires
        ranges[0].start is Integer,
        ranges[0].end is Integer,
        ranges[1].start is Integer,
        ranges[1].end is Integer,
        0 <= ranges[0].end->0 - ranges[0].start->0 <= u32::MAX,
        0 <= ranges[1].end->0 - ranges[1].start->0 <= u32::MAX,
        (ranges[0].end->0 - ranges[0].start->0) * (ranges[1].end->0 - ranges[1].start->0)
            <= 0x0fff_ffff,
    ensures
        window_of(ranges) == Ok::<Window, Failure>(
            Window {
                start0: ranges[0].start->0,
                nrows: (ranges[0].end->0 - ranges[0].start->0) as usize,
                start1: ranges[1].start->0,
                ncols: (ranges[1].end->0 - ranges[1].start->0) as usize,
            },
        ),
{
    let n0 = ranges[0].end->0 - ranges[0].start->0;
    let n1 = ranges[1].end->0 - ranges[1].start->0;
    assert(extent_outcome(ranges[0]) == Ok::<(int, int), Failure>(
        (ranges[0].start->0 as int, n0),
    ));
    assert(extent_outcome(ranges[1]) == Ok::<(int, int), Failure>(
        (ranges[1].start->0 as int, n1),
    ));
}

/// Whether `t` can be asked for the element of every cell of the window.
pub open spec fn accepts_window<T: ZTensorLike<2, DType = Elem>>(t: T, w: Window) -> bool {
    forall|i: int, j: int|
        0 <= i < w.nrows && 0 <= j < w.ncols ==> t.accepts(
            #[trigger] cell_index(w.start0 as int, w.start1 as int, i, j),
        )
}

/// Whether `m` is the dense matrix of `t`: it has the shape of the window of
/// `t`, and each cell holds a value that `t` gives at the index pair of the
/// cell.
pub open spec fn is_dense_of<T: ZTensorLike<2, DType = Elem>>(t: T, m: DenseMatrix) -> bool {
    &&& window_of(t.index_ranges()) matches Ok(w)
    &&& m.spec_nrows() == w.nrows
    &&& m.spec_ncols() == w.ncols
    &&& forall|i: int, j: int|
        0 <= i < w.nrows && 0 <= j < w.ncols ==> t.values_at(
            cell_index(w.start0 as int, w.start1 as int, i, j),
        ).contains(#[trigger] m.cell(i, j))
}

/// Where a finite extent starts and how many indices it holds.
pub fn finite_extent(r: &Range<OmegaIndex>) -> (res: Result<(FiniteIndex, usize), Failure>)
    ensures
        match res {
            Ok((s, n)) => extent_outcome(*r) == Ok::<(int, int), Failure>((s as int, n as int)),
            Err(f) => extent_outcome(*r) == Err::<(int, int), Failure>(f),
        },
{
    let (start, end) = match (r.start, r.end) {
        (OmegaInt::Integer(s), OmegaInt::Integer(e)) => (s, e),
        _ => { return Err(Failure::ContractViolation); },
    };
    if end < start {
        return Err(Failure::ContractViolation);
    }
    let len = match r.end.checked_sub(&r.start) {
        Some(OmegaInt::Integer(x)) => x,
        _ => { return Err(Failure::Overflow); },
    };
    if len as u64 > usize::MAX as u64 {
        return Err(Failure::Overflow);
    }
    Ok((start, len as usize))
}

/// The window that a dense matrix is filled from where the extents are
/// `ranges`.
pub fn bridge_window(ranges: &[Range<OmegaIndex>; 2]) -> (res: Result<Window, Failure>)
    ensures
        res == window_of(*ranges),
{
    let first = finite_extent(&ranges[0]);
    let second = finite_extent(&ranges[1]);
    match (first, second) {
        (Ok((start0, nrows)), Ok((start1, ncols))) => {
            let bytes = match nrows.checked_mul(ncols) {
                Some(cells) => cells.checked_mul(ELEM_BYTES),
                None => None,
            };
            match bytes {
                Some(b) if b <= isize::MAX as usize => Ok(Window { start0, nrows, start1, ncols }),
                _ => {
                    assert(!cells_fit(nrows as int, ncols as int)) by (nonlinear_arith)
                        requires
                            nrows * ncols > usize::MAX || nrows * ncols * 8 > isize::MAX,
                            0 <= nrows,
                            0 <= ncols,
                            usize::MAX >= isize::MAX,
                    {
                    }
                    Err(Failure::Overflow)
                },
            }
        },
        (Err(Failure::ContractViolation), _) => Err(Failure::ContractViolation),
        (_, Err(Failure::ContractViolation)) => Err(Failure::ContractViolation),
        _ => Err(Failure::Overflow),
    }
}

/// Matrices that are tensors and can be made into dense matrices.
pub trait ToNAlgMat: ZTensorLike<2, DType = Elem> + Sized {
    /// The dense matrix of the elements within the extents, which must both
    /// be finite.
    fn to_nalg_mat(&self) -> (m: DenseMatrix)
        requires
            window_of(self.index_ranges()) matches Ok(w) && accepts_window(*self, w),
        ensures
            is_dense_of(*self, m),
    ;

    /// The dense matrix of the elements within the extents, or why there is
    /// none; no element is asked for where there is none.
    fn try_to_nalg_mat(&self) -> (res: Result<DenseMatrix, Failure>)
        requires
            window_of(self.index_ranges()) matches Ok(w) ==> accepts_window(*self, w),
        ensures
            match res {
                Ok(m) => is_dense_of(*self, m),
                Err(f) => window_of(self.index_ranges()) == Err::<Window, Failure>(f),
            },
    ;
}

impl<T: ZTensorLike<2, DType = Elem>> ToNAlgMat for T {
    fn to_nalg_mat(&self) -> (m: DenseMatrix) {
        match self.try_to_nalg_mat() {
            Ok(m) => m,
            Err(_) => unreached(),
        }
    }

    fn try_to_nalg_mat(&self) -> (res: Result<DenseMatrix, Failure>) {
        let ranges = self.get_index_ranges();
        match bridge_window(&ranges) {
            Ok(w) => {
                let m = dense_from_fn(w.nrows, w.ncols, self, w.start0, w.start1);
                Ok(m)
            },
            Err(f) => Err(f),
        }
    }
}

impl<G: CloneableFn<2, Elem>> ZTensor<2, Elem, G> {
    /// Whether the generating function can be called for every cell of the
    /// window.
    pub open spec fn generates_window(self, w: Window) -> bool {
        forall|i: int, j: int|
            0 <= i < w.nrows && 0 <= j < w.ncols ==> call_requires(
                self.generator(),
                (&#[trigger] cell_index(w.start0 as int, w.start1 as int, i, j),),
            )
    }

    /// Whether `m` has the shape of the window and each cell of `m` holds a
    /// value that the generating function may return at the index pair of
    /// the cell.
    pub open spec fn generates_cells(self, w: Window, m: DenseMatrix) -> bool {
        &&& m.spec_nrows() == w.nrows
        &&& m.spec_ncols() == w.ncols
        &&& forall|i: int, j: int|
            0 <= i < w.nrows && 0 <= j < w.ncols ==> call_ensures(
                self.generator(),
                (&cell_index(w.start0 as int, w.start1 as int, i, j),),
                #[trigger] m.cell(i, j),
            )
    }

    /// The dense matrix of the elements within the extents, which must both
    /// be finite.
    pub fn to_nalg_mat(&self) -> (m: DenseMatrix)
        requires
            window_of(self.ranges()) matches Ok(w) && self.generates_window(w),
        ensures
            is_dense_of(*self, m),
            window_of(self.ranges()) matches Ok(w) && self.generates_cells(w, m),
    {
        match self.try_to_nalg_mat() {
            Ok(m) => m,
            Err(_) => unreached(),
        }
    }

    /// The dense matrix of the elements within the extents, or why there is
    /// none; no element is asked for where there is none.
    pub fn try_to_nalg_mat(&self) -> (res: Result<DenseMatrix, Failure>)
        requires
            window_of(self.ranges()) matches Ok(w) ==> self.generates_window(w),
        ensures
            match res {
                Ok(m) => {
                    &&& is_dense_of(*self, m)
                    &&& window_of(self.ranges()) matches Ok(w) && self.generates_cells(w, m)
                },
                Err(f) => window_of(self.ranges()) == Err::<Window, Failure>(f),
            },
    {
        proof {
            self.lemma_tensor_like();
            if let Ok(w) = window_of(self.ranges()) {
                assert forall|i: int, j: int|
                    0 <= i < w.nrows && 0 <= j < w.ncols implies self.accepts(
                    #[trigger] cell_index(w.start0 as int, w.start1 as int, i, j),
                ) by {}
            }
        }
        let res = ToNAlgMat::try_to_nalg_mat(self);
        proof {
            if res is Ok {
                let m = res->Ok_0;
                let w = window_of(self.ranges())->Ok_0;
                assert forall|i: int, j: int|
                    0 <= i < w.nrows && 0 <= j < w.ncols implies call_ensures(
                    self.generator(),
                    (&cell_index(w.start0 as int, w.start1 as int, i, j),),
                    #[trigger] m.cell(i, j),
                ) by {
                    let indices = cell_index(w.start0 as int, w.start1 as int, i, j);
                    assert(self.values_at(indices).contains(m.cell(i, j)));
                }
            }
        }
        res
    }
}

/// Whether `t` is the tensor of the dense matrix `m`: its extents start at
/// zero and hold the rows and the columns, it can be asked for the element
/// at every row and column of `m`, and what it gives is the cell there.
pub open spec fn is_tensor_of<G: CloneableFn<2, Elem>>(
    m: DenseMatrix,
    t: ZTensor<2, Elem, G>,
) -> bool {
    &&& t.ranges()[0] == (Range {
        start: OmegaInt::Integer(0i64),
        end: OmegaInt::Integer(m.spec_nrows() as FiniteIndex),
    })
    &&& t.ranges()[1] == (Range {
        start: OmegaInt::Integer(0i64),
        end: OmegaInt::Integer(m.spec_ncols() as FiniteIndex),
    })
    &&& forall|indices: [FiniteIndex; 2]|
        0 <= indices[0] < m.spec_nrows() && 0 <= indices[1] < m.spec_ncols()
            ==> #[trigger] call_requires(t.generator(), (&indices,))
    &&& forall|indices: [FiniteIndex; 2], e: Elem| #[trigger]
        call_ensures(t.generator(), (&indices,), e) ==> e == m.cell(
            indices[0] as int,
            indices[1] as int,
        )
}

/// The tensor of a dense matrix: its extents start at zero, and its element
/// at a row and column of the matrix is the cell there. Outside the matrix
/// it has no element. The numbers of rows and of columns must be indices.
pub fn nalgebra_mat_to_zmat(mat: DenseMatrix) -> (t: ZTensor<
    2,
    Elem,
    impl Fn(&[FiniteIndex; 2]) -> Elem,
>)
    requires
        mat.spec_nrows() <= FiniteIndex::MAX,
        mat.spec_ncols() <= FiniteIndex::MAX,
    ensures
        is_tensor_of(mat, t),
{
    let nrows = mat.nrows();
    let ncols = mat.ncols();
    let ranges = [
        Range { start: OmegaInt::Integer(0), end: OmegaInt::Integer(nrows as FiniteIndex) },
        Range { start: OmegaInt::Integer(0), end: OmegaInt::Integer(ncols as FiniteIndex) },
    ];
    let cells = Arc::new(mat);
    let getter = move |indices: &[FiniteIndex; 2]| -> (e: Elem)
        requires
            0 <= indices[0] < cells.spec_nrows(),
            0 <= indices[1] < cells.spec_ncols(),
        ensures
            e == cells.cell(indices[0] as int, indices[1] as int),
        { dense_index(&cells, indices[0] as usize, indices[1] as usize) };
    let t = ZTensor::from_ranges_values(&ranges, getter);
    proof {
        assert(t.ranges()[0] == ranges[0]);
        assert(t.ranges()[1] == ranges[1]);
    }
    t
}

/// The tensor of a dense matrix, where the numbers of its rows and of its
/// columns are indices.
pub fn checked_nalgebra_mat_to_zmat(mat: DenseMatrix) -> (r: Option<
    ZTensor<2, Elem, impl Fn(&[FiniteIndex; 2]) -> Elem>,
>)
    ensures
        match r {
            Some(t) => is_tensor_of(mat, t),
            None => mat.spec_nrows() > FiniteIndex::MAX || mat.spec_ncols() > FiniteIndex::MAX,
        },
{
    let most = FiniteIndex::MAX as u64;
    if mat.nrows() as u64 <= most && mat.ncols() as u64 <= most {
        Some(nalgebra_mat_to_zmat(mat))
    } else {
        None
    }
}

/// A tensor that is made into a dense matrix and back gives, at each row and
/// column of the matrix, only what it gave at the index pair of that cell:
/// the row and the column counted from where its extents start.
pub proof fn lemma_dense_round_trip<T, G>(t: T, m: DenseMatrix, back: ZTensor<2, Elem, G>) where
    T: ZTensorLike<2, DType = Elem>,
    G: CloneableFn<2, Elem>,

    requires
        is_dense_of(t, m),
        is_tensor_of(m, back),
    ensures
        window_of(t.index_ranges()) matches Ok(w) && forall|indices: [FiniteIndex; 2]|
            0 <= indices[0] < w.nrows && 0 <= indices[1] < w.ncols ==> {
                &&& #[trigger] call_requires(back.generator(), (&indices,))
                &&& forall|e: Elem|
                    call_ensures(back.generator(), (&indices,), e) ==> t.values_at(
                        cell_index(
                            w.start0 as int,
                            w.start1 as int,
                            indices[0] as int,
                            indices[1] as int,
                        ),
                    ).contains(e)
            },
{
    let w = window_of(t.index_ranges())->Ok_0;
    assert forall|indices: [FiniteIndex; 2]|
        0 <= indices[0] < w.nrows && 0 <= indices[1] < w.ncols implies {
        &&& #[trigger] call_requires(back.generator(), (&indices,))
        &&& forall|e: Elem|
            call_ensures(back.generator(), (&indices,), e) ==> t.values_at(
                cell_index(
                    w.start0 as int,
                    w.start1 as int,
                    indices[0] as int,
                    indices[1] as int,
                ),
            ).contains(e)
    } by {
        assert forall|e: Elem| call_ensures(back.generator(), (&indices,), e) implies t.values_at(
            cell_index(w.start0 as int, w.start1 as int, indices[0] as int, indices[1] as int),
        ).contains(e) by {
            assert(e == m.cell(indices[0] as int, indices[1] as int));
        }
    }
}

} // verus!
