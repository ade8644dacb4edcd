use vstd::prelude::*;

verus! {

/// A FLEX word that can be rendered as the 32 bits that go on air.
pub trait Codeword {
    /// The transmitted 32-bit word.
    spec fn spec_codeword(&self) -> u32;

    fn get_codeword(&self) -> (cw: u32)
        ensures
            cw == self.spec_codeword(),
    ;
}

} // verus!
