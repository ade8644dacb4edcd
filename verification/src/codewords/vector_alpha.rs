use vstd::prelude::*;
use crate::apply_bch_and_parity::{apply_bch_and_parity, is_valid_flex_word};
use crate::apply_checksums::all_checksums;
use crate::codeword::Codeword;
use crate::fourbit_checksum::apply_4bit_checksum;

verus! {

/// Information bits of an alphanumeric vector word: type 5 in bits 4..6,
/// message start in bits 7..13 and message length in bits 14..20.
pub open spec fn vector_alpha_info(message_start: u32, message_words: u32) -> u32 {
    (0x5u32 << 4u32) | (message_start << 7u32) | (message_words << 14u32)
}

/// Transmitted alphanumeric vector word.
pub open spec fn vector_alpha_word(message_start: u32, message_words: u32) -> u32 {
    all_checksums(vector_alpha_info(message_start, message_words))
}

/// Where an alphanumeric message starts and how many words it takes.
pub open spec fn vector_alpha_in_range(message_start: u32, message_words: u32) -> bool {
    3 <= message_start <= 87 && 1 <= message_words <= 85
}

/// Alphanumeric vector word: points to the message words of one address.
pub struct CWVectorAlpha {
    message_start: u32,
    message_words: u32,
}

impl CWVectorAlpha {
    #[verifier::type_invariant]
    spec fn in_range(&self) -> bool {
        vector_alpha_in_range(self.message_start, self.message_words)
    }

    /// Accepts a start word 3..=87 and a length of 1..=85 words.
    pub fn new(message_start: u32, message_words: u32) -> (r: Result<CWVectorAlpha, &'static str>)
        ensures
            r matches Err(e) ==> e == "CWVectoralpha: Parameters out of range.",
            r is Ok <==> vector_alpha_in_range(message_start, message_words),
            r matches Ok(v) ==> v.spec_codeword() == vector_alpha_word(message_start, message_words),
    {
        if message_start >= 3 && message_start <= 87 && message_words >= 1 && message_words <= 85 {
            Ok(CWVectorAlpha { message_start: message_start, message_words: message_words })
        } else {
            Err("CWVectoralpha: Parameters out of range.")
        }
    }
}

impl Codeword for CWVectorAlpha {
    closed spec fn spec_codeword(&self) -> u32 {
        vector_alpha_word(self.message_start, self.message_words)
    }

    fn get_codeword(&self) -> (cw: u32)
        ensures
            is_valid_flex_word(cw),
    {
        proof {
            use_type_invariant(self);
        }
        let mut cw: u32 = 0x0;
        cw |= 0x5 << 4;
        cw |= self.message_start << 7;
        cw |= self.message_words << 14;
        let info = cw;
        proof {
            let (a, b) = (self.message_start, self.message_words);
            assert(info == vector_alpha_info(a, b) && info < 0x200000 && info & 0xF == 0)
                by (bit_vector)
                requires
                    a <= 87 && b <= 85,
                    info == ((0u32 | (0x5u32 << 4u32)) | (a << 7u32)) | (b << 14u32),
            ;
        }
        cw = apply_4bit_checksum(cw);
        cw = apply_bch_and_parity(cw);
        cw
    }
}

} // verus!
