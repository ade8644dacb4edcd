use vstd::prelude::*;

verus! {

/// Sum of the four nibbles in bits 4..19 and of bit 20.
pub open spec fn nibble_sum(codeword: u32) -> u32 {
    (((codeword >> 4u32) & 0xF) + ((codeword >> 8u32) & 0xF) + ((codeword >> 12u32) & 0xF)
        + ((codeword >> 16u32) & 0xF) + ((codeword >> 20u32) & 0x1)) as u32
}

/// The FLEX 4-bit checksum: the one's complement of the nibble sum, modulo 16.
pub open spec fn checksum4(codeword: u32) -> u32 {
    (nibble_sum(codeword) ^ 0xF) & 0xF
}

/// Sum of all five nibble groups of a word, the checksum nibble included.
pub open spec fn full_nibble_sum(codeword: u32) -> int {
    (codeword & 0xF) + nibble_sum(codeword)
}

proof fn lemma_nibble_bounds(codeword: u32)
    by (bit_vector)
    ensures
        ((codeword >> 4u32) & 0xF) <= 15,
        ((codeword >> 8u32) & 0xF) <= 15,
        ((codeword >> 12u32) & 0xF) <= 15,
        ((codeword >> 16u32) & 0xF) <= 15,
        ((codeword >> 20u32) & 0x1) <= 1,
{
}

proof fn lemma_checksum_nibble(codeword: u32, s: u32, result: u32)
    by (bit_vector)
    requires
        s == nibble_sum(codeword),
        s <= 61,
        result == codeword | ((s ^ 0xF) & 0xF),
    ensures
        result & 0xFFFFFFF0 == codeword & 0xFFFFFFF0,
        codeword < 0x200000 ==> result < 0x200000,
        codeword & 0xF == 0 ==> ((result & 0xF) + nibble_sum(result)) % 16 == 15,
{
}

/// ORs the 4-bit checksum of bits 4..20 into bits 0..3.
///
/// When bits 0..3 were clear, the nibble groups of the result (the checksum
/// included) sum to 15 modulo 16, and no bit but 0..3 changes.
pub fn apply_4bit_checksum(codeword: u32) -> (result: u32)
    ensures
        result == codeword | checksum4(codeword),
        result & 0xFFFFFFF0 == codeword & 0xFFFFFFF0,
        codeword < 0x200000 ==> result < 0x200000,
        codeword & 0xF == 0 ==> full_nibble_sum(result) % 16 == 15,
{
    proof {
        lemma_nibble_bounds(codeword);
    }
    let mut sum: u32 = 0x0;
    sum += (codeword >> 4) & 0xF;
    sum += (codeword >> 8) & 0xF;
    sum += (codeword >> 12) & 0xF;
    sum += (codeword >> 16) & 0xF;
    sum += (codeword >> 20) & 0x1;
    assert(sum == nibble_sum(codeword));
    let ghost s = sum;
    sum ^= 0xF;
    sum &= 0xF;
    let result = codeword | sum;
    proof {
        lemma_checksum_nibble(codeword, s, result);
    }
    result
}

} // verus!
