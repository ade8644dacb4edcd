use vstd::prelude::*;
use crate::bch_calculator::{bch_encode, calculate_crc, is_bch_codeword};
use crate::parity::{check_and_set_parity, ones_below, parity_applied};

verus! {

/// A 21-bit information word completed with BCH check bits and parity.
pub open spec fn bch_and_parity(codeword: u32) -> u32 {
    parity_applied(bch_encode(codeword))
}

/// A transmitted FLEX word: bits 0..30 form a BCH(31,21) codeword and the
/// whole 32-bit word has an even number of ones.
pub open spec fn is_valid_flex_word(word: u32) -> bool {
    &&& is_bch_codeword(word & 0x7FFFFFFF)
    &&& ones_below(word, 32) % 2 == 0
}

/// Setting the parity bit after the check bits keeps the information bits,
/// and all 31 lower bits when bit 31 was clear.
pub proof fn lemma_parity_keeps_low_bits(codeword: u32, with_crc: u32, word: u32)
    by (bit_vector)
    requires
        with_crc & 0x1FFFFF == codeword & 0x1FFFFF,
        word == with_crc ^ 0x80000000 || word == with_crc & 0x7FFFFFFF,
    ensures
        word & 0x1FFFFF == codeword & 0x1FFFFF,
        with_crc < 0x80000000 ==> word & 0x7FFFFFFF == with_crc,
{
}

/// Adds the BCH check bits and the parity bit to the information bits.
pub fn apply_bch_and_parity(codeword: u32) -> (result: u32)
    ensures
        result == bch_and_parity(codeword),
        result & 0x1FFFFF == codeword & 0x1FFFFF,
        codeword < 0x200000 ==> is_valid_flex_word(result),
{
    let mut cw = codeword;
    cw = calculate_crc(cw);
    let ghost with_crc = cw;
    check_and_set_parity(&mut cw);
    proof {
        lemma_parity_keeps_low_bits(codeword, with_crc, cw);
    }
    cw
}

/// Check bits and parity leave the 21 information bits of any word as they
/// are.
pub proof fn lemma_bch_and_parity_keeps_info(codeword: u32)
    ensures
        bch_and_parity(codeword) & 0x1FFFFF == codeword & 0x1FFFFF,
{
    let e = bch_encode(codeword);
    crate::bch_calculator::lemma_bch_encode_keeps_info(codeword);
    lemma_parity_keeps_low_bits(codeword, e, parity_applied(e));
}

} // verus!
