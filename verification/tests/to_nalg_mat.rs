use nalgebra::DMatrix;
use num_complex::Complex;
use num_traits::ToPrimitive;
use ztensor::{
    bridge_window, checked_nalgebra_mat_to_zmat, finite_extent, nalgebra_mat_to_zmat,
    DenseMatrix, Elem, Failure, FiniteIndex, Integer, MOmega, OmegaIndex, POmega, ToNAlgMat,
    Window, ZTensor, ELEM_BYTES,
};

fn elem(re: f32, im: f32) -> Elem {
    Elem { re: re.to_bits(), im: im.to_bits() }
}

fn complex(e: Elem) -> Complex<f32> {
    Complex::new(f32::from_bits(e.re), f32::from_bits(e.im))
}

fn dmatrix(m: &DenseMatrix) -> DMatrix<Complex<f32>> {
    DMatrix::from_fn(m.nrows(), m.ncols(), |i, j| complex(m.get(i, j).unwrap()))
}

#[test]
fn test_ztensor_to_nalgebra_matrix() {
    let t = ZTensor::from_ranges_values(
        &[OmegaIndex::MOmega..OmegaIndex::POmega, OmegaIndex::MOmega..OmegaIndex::POmega],
        |[i1, i2]: &[FiniteIndex; 2]| elem(i1.to_f32().unwrap(), i2.to_f32().unwrap()),
    );
    let trunc = t.get_slice(&[
        OmegaIndex::Integer(-4)..OmegaIndex::Integer(4),
        OmegaIndex::Integer(-5)..OmegaIndex::Integer(8),
    ]);
    let m = dmatrix(&trunc.to_nalg_mat());
    assert_eq!(
        m[(2, 3)],
        Complex::<f32>::new(-2.to_f32().unwrap(), -2.to_f32().unwrap())
    )
}

#[test]
fn test_nalgebra_mat_to_zmat() {
    let mat = DenseMatrix::from_row_slice(
        2,
        3,
        &([1., 2., 3., 4., 5., 6.].map(|x: f32| elem(x, 0.0))),
    )
    .unwrap();
    let zmat = nalgebra_mat_to_zmat(mat.clone());
    let mat2 = zmat.to_nalg_mat();
    assert_eq!(mat, mat2);
}

#[test]
fn dense_matrix_has_the_shape_and_cells_of_the_window() {
    let t = ZTensor::from_ranges_values(
        &[Integer(-1)..Integer(2), Integer(10)..Integer(12)],
        |i: &[FiniteIndex; 2]| elem(i[0] as f32, i[1] as f32),
    );
    let m = t.to_nalg_mat();
    assert_eq!((m.nrows(), m.ncols()), (3, 2));
    for i in 0..3 {
        for j in 0..2 {
            assert_eq!(m.get(i, j), Some(elem(i as f32 - 1.0, j as f32 + 10.0)));
        }
    }
    assert_eq!(m.get(3, 0), None);
    assert_eq!(m.get(0, 2), None);
    assert_eq!(t.try_to_nalg_mat(), Ok(m));
}

#[test]
fn dense_matrix_of_an_empty_extent_is_empty() {
    let t = ZTensor::from_ranges_values(
        &[Integer(5)..Integer(5), Integer(0)..Integer(4)],
        |_: &[FiniteIndex; 2]| elem(1.0, 1.0),
    );
    let m = t.to_nalg_mat();
    assert_eq!((m.nrows(), m.ncols()), (0, 4));
    assert_eq!(m.get(0, 0), None);
}

#[test]
fn infinite_extent_is_a_contract_violation() {
    let getter = |_: &[FiniteIndex; 2]| -> Elem { panic!("no element may be asked for") };
    for ranges in [
        [MOmega..POmega, Integer(0)..Integer(2)],
        [Integer(0)..Integer(2), Integer(0)..POmega],
        [Integer(0)..Integer(2), MOmega..Integer(3)],
        [POmega..POmega, Integer(0)..Integer(2)],
        [MOmega..POmega, MOmega..POmega],
        [Integer(i64::MIN)..Integer(i64::MAX), MOmega..POmega],
    ] {
        let t = ZTensor::from_ranges_values(&ranges, getter);
        assert_eq!(t.try_to_nalg_mat(), Err(Failure::ContractViolation));
        assert_eq!(bridge_window(&ranges), Err(Failure::ContractViolation));
    }
}

#[test]
fn extent_that_ends_before_it_starts_is_a_contract_violation() {
    assert_eq!(finite_extent(&(Integer(3)..Integer(2))), Err(Failure::ContractViolation));
    assert_eq!(
        finite_extent(&(Integer(i64::MAX)..Integer(i64::MIN))),
        Err(Failure::ContractViolation)
    );
}

#[test]
fn extent_that_is_too_long_is_an_overflow() {
    assert_eq!(finite_extent(&(Integer(-1)..Integer(i64::MAX))), Err(Failure::Overflow));
    assert_eq!(finite_extent(&(Integer(i64::MIN)..Integer(i64::MAX))), Err(Failure::Overflow));
    let big = Integer(0)..Integer(i64::MAX);
    assert_eq!(finite_extent(&big), Ok((0, i64::MAX as usize)));
    assert_eq!(bridge_window(&[big.clone(), big.clone()]), Err(Failure::Overflow));
    assert_eq!(
        bridge_window(&[big.clone(), Integer(0)..POmega]),
        Err(Failure::ContractViolation)
    );
    assert_eq!(
        bridge_window(&[Integer(0)..Integer(1 << 60), Integer(0)..Integer(4)]),
        Err(Failure::Overflow)
    );
    assert_eq!(
        bridge_window(&[Integer(0)..Integer(1 << 60), Integer(0)..Integer(0)]),
        Ok(Window { start0: 0, nrows: 1 << 60, start1: 0, ncols: 0 })
    );
}

#[test]
fn an_element_takes_eight_bytes() {
    assert_eq!(std::mem::size_of::<Elem>(), ELEM_BYTES);
}

#[test]
fn finite_extents_give_a_window() {
    assert_eq!(finite_extent(&(Integer(-4)..Integer(4))), Ok((-4, 8)));
    assert_eq!(finite_extent(&(Integer(7)..Integer(7))), Ok((7, 0)));
    assert_eq!(
        bridge_window(&[Integer(-4)..Integer(4), Integer(-5)..Integer(8)]),
        Ok(Window { start0: -4, nrows: 8, start1: -5, ncols: 13 })
    );
}

#[test]
fn dense_matrix_from_rows() {
    let data: Vec<Elem> = (0..6).map(|k| elem(k as f32, 0.0)).collect();
    let m = DenseMatrix::from_row_slice(2, 3, &data).unwrap();
    assert_eq!((m.nrows(), m.ncols()), (2, 3));
    assert_eq!(m.get(0, 0), Some(elem(0.0, 0.0)));
    assert_eq!(m.get(0, 2), Some(elem(2.0, 0.0)));
    assert_eq!(m.get(1, 0), Some(elem(3.0, 0.0)));
    assert_eq!(m.get(1, 2), Some(elem(5.0, 0.0)));
    assert_eq!(m.get(2, 0), None);
    assert_eq!(dmatrix(&m)[(1, 1)], Complex::new(4.0, 0.0));
    assert_eq!(DenseMatrix::from_row_slice(2, 2, &data), None);
    assert_eq!(DenseMatrix::from_row_slice(usize::MAX, 2, &data), None);
    let copy = m.clone();
    assert_eq!(copy, m);
    assert_ne!(DenseMatrix::from_row_slice(3, 2, &data).unwrap(), m);
}

#[test]
fn tensor_of_a_dense_matrix_starts_at_zero() {
    let data: Vec<Elem> = (0..6).map(|k| elem(k as f32, -1.0)).collect();
    let m = DenseMatrix::from_row_slice(2, 3, &data).unwrap();
    let t = nalgebra_mat_to_zmat(m.clone());
    assert_eq!(t.get_index_ranges(), [Integer(0)..Integer(2), Integer(0)..Integer(3)]);
    for i in 0..2usize {
        for j in 0..3usize {
            assert_eq!(Some(t.get_single_elem(&[i as i64, j as i64])), m.get(i, j));
        }
    }
    let c = checked_nalgebra_mat_to_zmat(m.clone()).unwrap();
    assert_eq!(c.get_single_elem(&[1, 2]), elem(5.0, -1.0));
    assert!(checked_nalgebra_mat_to_zmat(DenseMatrix::from_row_slice(usize::MAX, 0, &[]).unwrap())
        .is_none());
}

#[test]
fn round_trip_gives_the_elements_within_the_extents() {
    let t = ZTensor::from_ranges_values(
        &[Integer(-2)..Integer(3), Integer(4)..Integer(6)],
        |i: &[FiniteIndex; 2]| elem(i[0] as f32 * 0.5, i[1] as f32),
    );
    let back = nalgebra_mat_to_zmat(t.to_nalg_mat());
    assert_eq!(back.get_index_ranges(), [Integer(0)..Integer(5), Integer(0)..Integer(2)]);
    for i in 0..5 {
        for j in 0..2 {
            assert_eq!(back.get_single_elem(&[i, j]), t.get_single_elem(&[i - 2, j + 4]));
        }
    }
    let conj = back.conj_trans();
    assert_eq!(conj.get_single_elem(&[1, 4]), elem(1.0, -5.0));
}

#[test]
fn dense_matrix_through_the_trait() {
    let t = ZTensor::from_ranges_values(
        &[Integer(1)..Integer(3), Integer(0)..Integer(2)],
        |i: &[FiniteIndex; 2]| elem(i[0] as f32, i[1] as f32),
    );
    let m = ToNAlgMat::to_nalg_mat(&t);
    assert_eq!((m.nrows(), m.ncols()), (2, 2));
    assert_eq!(m.get(1, 1), Some(elem(2.0, 1.0)));
    assert_eq!(ToNAlgMat::try_to_nalg_mat(&t), Ok(m));
    let infinite = t.get_slice(&[Integer(1)..POmega, Integer(0)..Integer(2)]);
    assert_eq!(ToNAlgMat::try_to_nalg_mat(&infinite), Err(Failure::ContractViolation));
}
