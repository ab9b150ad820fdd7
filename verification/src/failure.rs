//! The ways in which an operation can be without a result.

use vstd::prelude::*;

verus! {

/// Why an operation has no result.
#[derive(PartialEq, Eq, Clone, Copy, Debug)]
pub enum Failure {
    /// The exact result is an integer that the underlying type cannot hold.
    Overflow,
    /// The operands combine infinities, or zero and an infinity, in a way
    /// that has no mathematical meaning.
    IndeterminateForm,
    /// The operation was asked for outside the inputs it is defined on.
    ContractViolation,
}

} // verus!
