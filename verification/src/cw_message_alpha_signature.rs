use vstd::prelude::*;
use crate::apply_bch_and_parity::{apply_bch_and_parity, bch_and_parity, is_valid_flex_word};
use crate::codeword::Codeword;

verus! {

/// Information bits of the signature word: the 7-bit signature in bits
/// 0..6 and the first two characters in bits 7..13 and 14..20.
pub open spec fn signature_info(signature: u32, c0: u8, c1: u8) -> u32 {
    signature | (((c0 & 0x7F) as u32) << 7u32) | (((c1 & 0x7F) as u32) << 14u32)
}

/// Alphanumeric message signature word: the checksum over the message and
/// its first two characters.
pub struct CWMessageAlphaSignature {
    signature: u32,
    chars: Vec<u8>,
}

impl CWMessageAlphaSignature {
    #[verifier::type_invariant]
    spec fn in_range(&self) -> bool {
        self.signature <= 0x7F && self.chars@.len() == 2
    }

    /// Requires exactly two characters and a signature up to 0x7F.
    pub fn new(signature: u32, chars: &[u8]) -> (r: Result<CWMessageAlphaSignature, &'static str>)
        ensures
            r is Ok <==> (chars@.len() == 2 && signature <= 0x7F),
            chars@.len() != 2 ==> r == Err::<CWMessageAlphaSignature, &'static str>(
                "Alphanumeric Message Signature: 2 chars required.",
            ),
            chars@.len() == 2 && signature > 0x7F ==> r == Err::<CWMessageAlphaSignature, &'static str>(
                "Alphanumeric Message Signature: Invalid Parameter.",
            ),
            r matches Ok(s) ==> s.spec_codeword() == bch_and_parity(
                signature_info(signature, chars@[0], chars@[1]),
            ),
    {
        if chars.len() != 2 {
            return Err("Alphanumeric Message Signature: 2 chars required.");
        }
        if signature <= 0x7F {
            Ok(CWMessageAlphaSignature { signature: signature, chars: vstd::slice::slice_to_vec(chars) })
        } else {
            Err("Alphanumeric Message Signature: Invalid Parameter.")
        }
    }
}

impl Codeword for CWMessageAlphaSignature {
    closed spec fn spec_codeword(&self) -> u32 {
        bch_and_parity(signature_info(self.signature, self.chars@[0], self.chars@[1]))
    }

    fn get_codeword(&self) -> (cw: u32)
        ensures
            is_valid_flex_word(cw),
    {
        proof {
            use_type_invariant(self);
        }
        let c0 = self.chars[0];
        let c1 = self.chars[1];
        let mut cw: u32 = 0x0;
        cw |= self.signature;
        cw |= ((c0 & 0x7F) as u32) << 7;
        cw |= ((c1 & 0x7F) as u32) << 14;
        proof {
            let s = self.signature;
            assert(cw == signature_info(s, c0, c1) && cw < 0x200000) by (bit_vector)
                requires
                    s <= 0x7F,
                    cw == ((0u32 | s) | (((c0 & 0x7F) as u32) << 7u32)) | (((c1 & 0x7F) as u32)
                        << 14u32),
            ;
        }
        cw = apply_bch_and_parity(cw);
        cw
    }
}

} // verus!
