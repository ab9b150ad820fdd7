//! The complex numbers that the matrices of this library hold.

use vstd::prelude::*;

verus! {

/// A complex number whose real and imaginary parts are single-precision
/// numbers in the binary format of IEEE 754, each held as the 32 bits that
/// encode it. Two elements are equal where their bits are.
#[derive(PartialEq, Eq, Clone, Copy, Debug)]
pub struct Elem {
    /// The bits of the real part.
    pub re: u32,
    /// The bits of the imaginary part.
    pub im: u32,
}

impl Elem {
    /// The complex conjugate: the same real part, and the imaginary part with
    /// its sign bit flipped.
    pub open spec fn conj_spec(self) -> Elem {
        Elem { re: self.re, im: self.im ^ 0x8000_0000u32 }
    }

    /// The complex conjugate.
    pub fn conj(&self) -> (r: Elem)
        ensures
            r == self.conj_spec(),
    {
        Elem { re: self.re, im: self.im ^ 0x8000_0000u32 }
    }

    /// The conjugate of the conjugate of an element is the element.
    pub proof fn lemma_conj_involution(self)
        ensures
            self.conj_spec().conj_spec() == self,
    {
        let im = self.im;
        assert((im ^ 0x8000_0000u32) ^ 0x8000_0000u32 == im) by (bit_vector);
    }
}

} // verus!
