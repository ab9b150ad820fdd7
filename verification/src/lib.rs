//! Integers extended by infinities, and lazy tensors whose extents are
//! measured in them.
//!
//! An extended integer is an integer of a primitive type or an infinity; its
//! arithmetic is checked, so that an overflow or an indeterminate form is a
//! missing result and never a wrong one. A lazy tensor is an array of any
//! number of dimensions whose elements are computed from their indices when
//! they are asked for, and whose extents may be infinite.

pub mod elem;
pub mod failure;
pub mod generic_index;
pub mod omega_int;
pub mod omega_uint;
pub mod prim;
pub mod prim_impls;
pub mod to_nalg_mat;
pub mod ztensor_impls;
pub mod ztensor_traits;

pub use elem::Elem;
pub use failure::Failure;
pub use generic_index::{Index, IndexMut};
pub use omega_int::OmegaInt::{Integer, MOmega, POmega};
pub use omega_int::{
    empty_sign_checker, omega_int_chkd_op, ExtInt, GetSign, OmegaInt, PMOmega, PrimGetSign, Sign,
};
pub use omega_uint::{omega_uint_chkd_op, ExtNat, Omega, OmegaUInt};
pub use prim::{CheckedPrim, SignedPrim, UnsignedPrim};
pub use to_nalg_mat::{
    bridge_window, checked_nalgebra_mat_to_zmat, finite_extent, nalgebra_mat_to_zmat,
    DenseMatrix, ToNAlgMat, Window, ELEM_BYTES,
};
pub use ztensor_impls::{
    slice_by_reading, ZMatrix, ZScalar, ZTensor, ZTensorElemRef, ZVector,
};
pub use ztensor_traits::{
    range_into, CloneableFn, FiniteIndex, OmegaIndex, ZMatrixLike, ZScalarLike, ZTensorLike,
    ZTensorLikeFromRangesValues, ZTensorLikeFromRangesValuesGenericIndex, ZTensorLikeSlice,
    ZTensorLikeSliceGenericIndex, ZVectorLike,
};
