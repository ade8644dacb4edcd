use vstd::prelude::*;
use crate::apply_bch_and_parity::{apply_bch_and_parity, bch_and_parity, is_valid_flex_word};
use crate::codeword::Codeword;

verus! {

/// Short addresses that this word accepts as they are, without an offset.
pub open spec fn is_raw_short_address(address: u32) -> bool {
    0x1 <= address <= 0x1F27FF
}

/// Short address word that carries the address value itself.
pub struct CWAddressShort {
    address: u32,
}

impl CWAddressShort {
    #[verifier::type_invariant]
    spec fn valid(&self) -> bool {
        is_raw_short_address(self.address)
    }

    /// Accepts addresses 0x1..=0x1F27FF.
    pub fn new(address: u32) -> (r: Result<CWAddressShort, &'static str>)
        ensures
            r matches Err(e) ==> e == "Short address out of range",
            r is Ok <==> is_raw_short_address(address),
            r matches Ok(a) ==> a.spec_codeword() == bch_and_parity(address),
    {
        if address >= 0x1 && address <= 0x1F27FF {
            Ok(CWAddressShort { address: address })
        } else {
            Err("Short address out of range")
        }
    }
}

impl Codeword for CWAddressShort {
    closed spec fn spec_codeword(&self) -> u32 {
        bch_and_parity(self.address)
    }

    fn get_codeword(&self) -> (cw: u32)
        ensures
            is_valid_flex_word(cw),
    {
        proof {
            use_type_invariant(self);
        }
        let mut cw: u32 = self.address;
        cw = apply_bch_and_parity(cw);
        cw
    }
}

} // verus!
