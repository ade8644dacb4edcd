use vstd::prelude::*;
use crate::apply_bch_and_parity::{apply_bch_and_parity, bch_and_parity, is_valid_flex_word};
use crate::codeword::Codeword;

verus! {

/// Information bits of a word of three 7-bit characters, the first one in
/// the lowest bits.
pub open spec fn three_chars_info(c0: u8, c1: u8, c2: u8) -> u32 {
    ((c0 & 0x7F) as u32) | (((c1 & 0x7F) as u32) << 7u32) | (((c2 & 0x7F) as u32) << 14u32)
}

/// Transmitted word of three characters.
pub open spec fn three_chars_word(c0: u8, c1: u8, c2: u8) -> u32 {
    bch_and_parity(three_chars_info(c0, c1, c2))
}

/// Packs three characters into information bits, as the content and chars
/// words do.
pub fn pack_three_chars(c0: u8, c1: u8, c2: u8) -> (cw: u32)
    ensures
        cw == three_chars_word(c0, c1, c2),
        is_valid_flex_word(cw),
{
    let mut cw: u32 = 0x0;
    cw |= (c0 & 0x7F) as u32;
    cw |= ((c1 & 0x7F) as u32) << 7;
    cw |= ((c2 & 0x7F) as u32) << 14;
    assert(cw == three_chars_info(c0, c1, c2) && cw < 0x200000) by (bit_vector)
        requires
            cw == ((0u32 | ((c0 & 0x7F) as u32)) | (((c1 & 0x7F) as u32) << 7u32)) | (((c2 & 0x7F)
                as u32) << 14u32),
    ;
    apply_bch_and_parity(cw)
}

/// Alphanumeric message content word: three characters.
pub struct CWMessageAlphaContent {
    chars: Vec<u8>,
}

impl CWMessageAlphaContent {
    #[verifier::type_invariant]
    spec fn three(&self) -> bool {
        self.chars@.len() == 3
    }

    /// Requires exactly three characters.
    pub fn new(chars: &[u8]) -> (r: Result<CWMessageAlphaContent, &'static str>)
        ensures
            r matches Err(e) ==> e == "Alphanumeric Message Content: 3 chars required.",
            r is Ok <==> chars@.len() == 3,
            r matches Ok(c) ==> c.spec_codeword() == three_chars_word(
                chars@[0],
                chars@[1],
                chars@[2],
            ),
    {
        if chars.len() != 3 {
            return Err("Alphanumeric Message Content: 3 chars required.");
        }
        Ok(CWMessageAlphaContent { chars: vstd::slice::slice_to_vec(chars) })
    }
}

impl Codeword for CWMessageAlphaContent {
    closed spec fn spec_codeword(&self) -> u32 {
        three_chars_word(self.chars@[0], self.chars@[1], self.chars@[2])
    }

    fn get_codeword(&self) -> (cw: u32)
        ensures
            is_valid_flex_word(cw),
    {
        proof {
            use_type_invariant(self);
        }
        pack_three_chars(self.chars[0], self.chars[1], self.chars[2])
    }
}

} // verus!
