use vstd::prelude::*;
use crate::apply_bch_and_parity::is_valid_flex_word;
use crate::codeword::Codeword;
use crate::cw_message_alpha_content::{pack_three_chars, three_chars_word};

verus! {

/// A word of three characters given as an array.
pub struct CWMessageAlphaChars {
    chars: [u8; 3],
}

impl CWMessageAlphaChars {
    /// Every array of three characters is accepted.
    pub fn new(chars: [u8; 3]) -> (r: Result<CWMessageAlphaChars, &'static str>)
        ensures
            r matches Ok(c) && c.spec_codeword() == three_chars_word(chars@[0], chars@[1], chars@[2]),
    {
        Ok(CWMessageAlphaChars { chars: chars })
    }
}

impl Codeword for CWMessageAlphaChars {
    closed spec fn spec_codeword(&self) -> u32 {
        three_chars_word(self.chars@[0], self.chars@[1], self.chars@[2])
    }

    fn get_codeword(&self) -> (cw: u32)
        ensures
            is_valid_flex_word(cw),
    {
        pack_three_chars(self.chars[0], self.chars[1], self.chars[2])
    }
}

} // verus!
