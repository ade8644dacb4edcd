use vstd::prelude::*;
use crate::apply_bch_and_parity::{bch_and_parity, is_valid_flex_word, lemma_parity_keeps_low_bits};
use crate::bch_calculator::calculate_crc;
use crate::cw_address_short::is_raw_short_address;
use crate::parity::check_and_set_parity;

verus! {

/// The transmitted word of a short address 0x1..=0x1F27FF.
pub fn get_address_cw_short(address: u32) -> (r: Result<u32, &'static str>)
    ensures
        r is Ok <==> is_raw_short_address(address),
        r matches Ok(cw) ==> cw == bch_and_parity(address) && is_valid_flex_word(cw),
        r matches Err(e) ==> e == "Short address out of range",
{
    if address >= 0x1 && address <= 0x1F27FF {
        let mut codeword: u32 = 0x0;
        codeword += address;
        codeword = calculate_crc(codeword);
        let ghost with_crc = codeword;
        check_and_set_parity(&mut codeword);
        proof {
            lemma_parity_keeps_low_bits(address, with_crc, codeword);
        }
        Ok(codeword)
    } else {
        Err("Short address out of range")
    }
}

} // verus!
