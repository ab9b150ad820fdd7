use num_complex::Complex;
use num_traits::ToPrimitive;
use ztensor::{
    range_into, slice_by_reading, Elem as Bits, FiniteIndex, Index, Integer, MOmega, OmegaIndex, POmega, ZTensor,
    ZTensorLike, ZTensorLikeFromRangesValues, ZTensorLikeFromRangesValuesGenericIndex,
    ZTensorLikeSlice, ZTensorLikeSliceGenericIndex,
};

type Elem = Complex<f32>;

fn value_getter(index: &[FiniteIndex; 2]) -> Elem {
    return (index[0] + index[1] * 10).to_f32().unwrap().into();
}

fn bits(z: Complex<f32>) -> Bits {
    Bits { re: z.re.to_bits(), im: z.im.to_bits() }
}

fn complex(e: Bits) -> Complex<f32> {
    Complex::new(f32::from_bits(e.re), f32::from_bits(e.im))
}

#[test]
fn test_ztensor() {
    let t = ZTensor::from_ranges_values(
        &[Integer(0)..Integer(3), Integer(0)..Integer(4)],
        value_getter,
    );
    assert_eq!(t.get_single_elem(&[2, 3]), 32.0.into());
    assert_eq!(*t.index([1, 2]), 21.0.into());

    // Test truncations
    let t2 = t.get_slice(&[Integer(0)..Integer(3), Integer(0)..Integer(3)]);
    assert_eq!(*t2.index([1, 2]), 21.0.into());
}

#[test]
fn extents_are_kept_as_given() {
    let t = ZTensor::from_ranges_values(&[MOmega..POmega, Integer(-2)..Integer(9)], value_getter);
    assert_eq!(t.get_index_ranges(), [MOmega..POmega, Integer(-2)..Integer(9)]);
    let s = t.get_slice(&[Integer(1)..Integer(2), Integer(0)..POmega]);
    assert_eq!(s.get_index_ranges(), [Integer(1)..Integer(2), Integer(0)..POmega]);
    assert_eq!(t.get_index_ranges(), [MOmega..POmega, Integer(-2)..Integer(9)]);
}

#[test]
fn extents_do_not_bound_the_indices() {
    let t = ZTensor::from_ranges_values(
        &[Integer(0)..Integer(3), Integer(0)..Integer(4)],
        value_getter,
    );
    assert_eq!(t.get_single_elem(&[50, -7]), (-20.0).into());
    let s = t.get_slice(&[Integer(0)..Integer(1), Integer(0)..Integer(1)]);
    assert_eq!(s.get_single_elem(&[2, 3]), 32.0.into());
}

#[test]
fn tensors_of_other_ranks() {
    let scalar = ZTensor::from_ranges_values(&[], |_: &[FiniteIndex; 0]| 7u8);
    assert_eq!(scalar.get_single_elem(&[]), 7);
    let vector = ZTensor::from_ranges_values(&[Integer(0)..POmega], |i: &[FiniteIndex; 1]| {
        i[0] * i[0]
    });
    assert_eq!(vector.get_single_elem(&[12]), 144);
    let cube = ZTensor::from_ranges_values(
        &[MOmega..POmega, MOmega..POmega, MOmega..POmega],
        |i: &[FiniteIndex; 3]| i[0] + 10 * i[1] + 100 * i[2],
    );
    assert_eq!(*cube.index([1, 2, 3]), 321);
}

#[test]
fn tensor_traits_agree_with_the_tensor() {
    fn read<T: ZTensorLike<2>>(t: &T, i: FiniteIndex, j: FiniteIndex) -> T::DType {
        t.get_single_elem(&[i, j])
    }
    fn narrow<T: ZTensorLikeSlice<2>>(t: &T) -> T {
        t.get_slice(&[Integer(0)..Integer(1), Integer(0)..Integer(1)])
    }
    let t = ZTensor::from_ranges_values(
        &[Integer(0)..Integer(3), Integer(0)..Integer(4)],
        value_getter,
    );
    assert_eq!(read(&t, 2, 3), 32.0.into());
    let s = narrow(&t);
    assert_eq!(read(&s, 2, 3), 32.0.into());
    assert_eq!(ZTensorLike::get_index_ranges(&s), [Integer(0)..Integer(1), Integer(0)..Integer(1)]);
}

#[test]
fn ranges_convert_end_by_end() {
    let r: std::ops::Range<OmegaIndex> = range_into(3i64..8i64);
    assert_eq!(r, Integer(3)..Integer(8));
    let same: std::ops::Range<OmegaIndex> = range_into(MOmega..Integer(8));
    assert_eq!(same, MOmega..Integer(8));
}

#[test]
fn slices_and_tensors_from_finite_ranges() {
    let t = ZTensor::from_ranges_values_generic(&[0i64..3, 0i64..4], value_getter);
    assert_eq!(t.get_index_ranges(), [Integer(0)..Integer(3), Integer(0)..Integer(4)]);
    assert_eq!(t.get_single_elem(&[2, 3]), 32.0.into());
    let s = t.get_slice_generic(&[1i64..2, -5i64..5]);
    assert_eq!(s.get_index_ranges(), [Integer(1)..Integer(2), Integer(-5)..Integer(5)]);
    assert_eq!(s.get_single_elem(&[1, 2]), 21.0.into());
}

#[test]
fn slices_and_tensors_from_finite_ranges_through_the_traits() {
    let t: ZTensor<2, Elem, _> =
        ZTensorLikeFromRangesValuesGenericIndex::from_ranges_values_generic(
            &[0i64..3, 0i64..4],
            value_getter,
        );
    assert_eq!(t.get_index_ranges(), [Integer(0)..Integer(3), Integer(0)..Integer(4)]);
    assert_eq!(t.get_single_elem(&[2, 3]), 32.0.into());
    let s = ZTensorLikeSliceGenericIndex::get_slice_generic(&t, &[1i64..2, -5i64..5]);
    assert_eq!(s.get_index_ranges(), [Integer(1)..Integer(2), Integer(-5)..Integer(5)]);
    assert_eq!(s.get_single_elem(&[1, 2]), 21.0.into());
    let all = [MOmega..POmega, MOmega..POmega];
    let same = ZTensorLikeSliceGenericIndex::get_slice_generic(&t, &all);
    assert_eq!(same.get_index_ranges(), [MOmega..POmega, MOmega..POmega]);
}

#[test]
fn conj_trans_with_exchanges_extents_and_indices() {
    let t = ZTensor::from_ranges_values(
        &[Integer(0)..Integer(3), Integer(0)..POmega],
        |i: &[FiniteIndex; 2]| Complex::<f32>::new(i[0] as f32, i[1] as f32),
    );
    let c = t.conj_trans_with(|z: Complex<f32>| z.conj());
    assert_eq!(c.get_index_ranges(), [Integer(0)..POmega, Integer(0)..Integer(3)]);
    assert_eq!(c.get_single_elem(&[5, 2]), Complex::new(2.0, -5.0));
    let cc = c.conj_trans_with(|z: Complex<f32>| z.conj());
    assert_eq!(cc.get_index_ranges(), t.get_index_ranges());
    for i in -3..4 {
        for j in -3..4 {
            assert_eq!(cc.get_single_elem(&[i, j]), t.get_single_elem(&[i, j]));
        }
    }
}

#[test]
fn conj_trans_is_the_complex_conjugate_transpose() {
    let t = ZTensor::from_ranges_values(
        &[Integer(0)..Integer(3), Integer(0)..POmega],
        |i: &[FiniteIndex; 2]| bits(Complex::new(i[0] as f32, i[1] as f32 + 0.5)),
    );
    let c = t.conj_trans();
    assert_eq!(c.get_index_ranges(), [Integer(0)..POmega, Integer(0)..Integer(3)]);
    assert_eq!(complex(c.get_single_elem(&[5, 2])), Complex::new(2.0, -5.5));
    let cc = c.conj_trans();
    assert_eq!(cc.get_index_ranges(), t.get_index_ranges());
    for i in -3..4 {
        for j in -3..4 {
            assert_eq!(cc.get_single_elem(&[i, j]), t.get_single_elem(&[i, j]));
        }
    }
}

#[test]
fn conj_of_bits_is_the_conjugate_of_the_number() {
    let parts = [
        0.0f32,
        -0.0,
        1.0,
        -1.5,
        3.25e10,
        f32::MIN_POSITIVE,
        f32::INFINITY,
        f32::NEG_INFINITY,
    ];
    for re in parts {
        for im in parts {
            let z = Complex::new(re, im);
            assert_eq!(bits(z).conj(), bits(z.conj()));
            assert_eq!(bits(z).conj().conj(), bits(z));
        }
    }
    let nan = Complex::new(f32::NAN, f32::NAN);
    assert_eq!(bits(nan).conj(), bits(nan.conj()));
}

#[test]
fn slice_by_reading_reads_the_tensor() {
    let t = ZTensor::from_ranges_values(
        &[Integer(0)..Integer(3), Integer(0)..Integer(4)],
        value_getter,
    );
    let s = slice_by_reading(t.clone(), &[Integer(1)..Integer(2), MOmega..Integer(4)]);
    assert_eq!(s.get_index_ranges(), [Integer(1)..Integer(2), MOmega..Integer(4)]);
    for i in -2..5 {
        for j in -2..5 {
            assert_eq!(s.get_single_elem(&[i, j]), t.get_single_elem(&[i, j]));
        }
    }
}

#[test]
fn a_copy_of_a_tensor_shares_its_elements() {
    let t = ZTensor::from_ranges_values(
        &[Integer(0)..Integer(3), Integer(0)..POmega],
        value_getter,
    );
    let copy = t.clone();
    assert_eq!(copy.get_index_ranges(), t.get_index_ranges());
    assert_eq!(copy.get_single_elem(&[2, 3]), 32.0.into());
}

#[test]
fn tensors_are_made_and_indexed_through_the_traits() {
    fn make<T>() -> T
    where
        T: ZTensorLike<2, DType = Elem>
            + ZTensorLikeFromRangesValues<2, fn(&[FiniteIndex; 2]) -> Elem>,
    {
        T::from_ranges_values(
            &[Integer(0)..Integer(3), Integer(0)..Integer(4)],
            value_getter as fn(&[FiniteIndex; 2]) -> Elem,
        )
    }
    let t: ZTensor<2, Elem, fn(&[FiniteIndex; 2]) -> Elem> = make();
    assert_eq!(t.get_single_elem(&[2, 3]), 32.0.into());
    let handle = Index::index(&t, [1, 2]);
    assert_eq!(*handle, 21.0.into());
}
