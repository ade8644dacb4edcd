use vstd::prelude::*;
use crate::apply_bch_and_parity::{apply_bch_and_parity, bch_and_parity, is_valid_flex_word};
use crate::fourbit_checksum::{apply_4bit_checksum, checksum4, full_nibble_sum};

verus! {

/// A block information word's information bits completed with all three
/// checks: the 4-bit checksum, the BCH check bits and parity.
pub open spec fn all_checksums(codeword: u32) -> u32 {
    bch_and_parity(codeword | checksum4(codeword))
}

proof fn lemma_check_bits_keep_fields(codeword: u32, summed: u32, word: u32)
    by (bit_vector)
    requires
        word & 0x1FFFFF == summed & 0x1FFFFF,
        summed & 0xFFFFFFF0 == codeword & 0xFFFFFFF0,
    ensures
        word & 0x1FFFF0 == codeword & 0x1FFFF0,
        full_nibble_sum(word) == full_nibble_sum(summed),
{
}

/// Applies the 4-bit checksum, then the BCH check bits and parity.
pub fn apply_checksums(codeword: u32) -> (result: u32)
    ensures
        result == all_checksums(codeword),
        result & 0x1FFFF0 == codeword & 0x1FFFF0,
        codeword < 0x200000 ==> is_valid_flex_word(result),
        codeword < 0x200000 && codeword & 0xF == 0 ==> full_nibble_sum(result) % 16 == 15,
{
    let mut cw = codeword;
    cw = apply_4bit_checksum(cw);
    let ghost summed = cw;
    cw = apply_bch_and_parity(cw);
    proof {
        lemma_check_bits_keep_fields(codeword, summed, cw);
    }
    cw
}

/// All three checks leave the fields in bits 4..20 of any word as they are.
pub proof fn lemma_all_checksums_keeps_fields(codeword: u32)
    ensures
        all_checksums(codeword) & 0x1FFFF0 == codeword & 0x1FFFF0,
{
    let ns = crate::fourbit_checksum::nibble_sum(codeword);
    let c = checksum4(codeword);
    assert(c == (ns ^ 0xF) & 0xF);
    let summed = codeword | c;
    crate::apply_bch_and_parity::lemma_bch_and_parity_keeps_info(summed);
    let w = all_checksums(codeword);
    assert(w & 0x1FFFF0 == codeword & 0x1FFFF0) by (bit_vector)
        requires
            c == (ns ^ 0xF) & 0xF,
            summed == codeword | c,
            w & 0x1FFFFF == summed & 0x1FFFFF,
    ;
}

} // verus!
