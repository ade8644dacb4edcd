use vstd::prelude::*;
use crate::apply_bch_and_parity::{apply_bch_and_parity, bch_and_parity, is_valid_flex_word};
use crate::codeword::Codeword;

verus! {

/// Offset between a CAPCODE and the short address word that carries it.
pub const SHORT_ADDRESS_CAPCODE_OFFSET: u32 = 0x8000;

/// CAPCODEs that a short address can carry.
pub open spec fn is_short_capcode(capcode: u32) -> bool {
    0x0001 <= capcode <= 0x1EA7FF
}

/// Transmitted short address word of a CAPCODE.
pub open spec fn address_short_word(capcode: u32) -> u32 {
    bch_and_parity((capcode + SHORT_ADDRESS_CAPCODE_OFFSET) as u32)
}

/// Short address word: the CAPCODE shifted by the short address offset.
pub struct CWAddressShort {
    capcode: u32,
}

impl CWAddressShort {
    #[verifier::type_invariant]
    spec fn valid(&self) -> bool {
        is_short_capcode(self.capcode)
    }

    /// Accepts CAPCODEs 0x0001..=0x1EA7FF.
    pub fn new(capcode: u32) -> (r: Result<CWAddressShort, &'static str>)
        ensures
            r matches Err(e) ==> e == "CAPCODE for short address out of range",
            r is Ok <==> is_short_capcode(capcode),
            r matches Ok(a) ==> a.spec_codeword() == address_short_word(capcode),
    {
        if capcode >= 0x0001 && capcode <= 0x1EA7FF {
            Ok(CWAddressShort { capcode: capcode })
        } else {
            Err("CAPCODE for short address out of range")
        }
    }
}

impl Codeword for CWAddressShort {
    closed spec fn spec_codeword(&self) -> u32 {
        address_short_word(self.capcode)
    }

    /// The information bits of the word are the CAPCODE plus 0x8000.
    fn get_codeword(&self) -> (cw: u32)
        ensures
            is_valid_flex_word(cw),
            cw & 0x1FFFFF == self.spec_codeword() & 0x1FFFFF,
    {
        proof {
            use_type_invariant(self);
        }
        let mut cw: u32 = self.capcode + SHORT_ADDRESS_CAPCODE_OFFSET;
        cw = apply_bch_and_parity(cw);
        cw
    }
}

} // verus!
