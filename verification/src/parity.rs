use vstd::prelude::*;

verus! {

/// Number of set bits among the lowest `n` bits of `codeword`.
pub open spec fn ones_below(codeword: u32, n: u32) -> nat
    decreases n,
{
    if n == 0 {
        0
    } else {
        let k = (n - 1) as u32;
        ones_below(codeword, k) + ((codeword >> k) & 1) as nat
    }
}

/// What `check_and_set_parity` leaves in its argument: bit 31 is toggled
/// when bits 0..30 hold an odd number of ones, and cleared otherwise.
pub open spec fn parity_applied(codeword: u32) -> u32 {
    if ones_below(codeword, 31) % 2 == 1 {
        codeword ^ 0x80000000
    } else {
        codeword & 0x7FFFFFFF
    }
}

proof fn lemma_masked_bit(x: u32, i: u32)
    by (bit_vector)
    requires
        i < 32,
    ensures
        ((x & (1u32 << i)) >> i) == (x >> i) & 1,
        (x >> i) & 1 <= 1,
{
}

proof fn lemma_ones_below_bound(codeword: u32, n: u32)
    requires
        n <= 32,
    ensures
        ones_below(codeword, n) <= n,
    decreases n,
{
    if n > 0 {
        let k = (n - 1) as u32;
        lemma_ones_below_bound(codeword, k);
        lemma_masked_bit(codeword, k);
    }
}

proof fn lemma_low_bit_agrees(a: u32, b: u32, k: u32)
    by (bit_vector)
    requires
        a & 0x7FFFFFFF == b & 0x7FFFFFFF,
        k < 31,
    ensures
        (a >> k) & 1 == (b >> k) & 1,
{
}

/// Two words that agree on bits 0..30 have the same number of ones there.
pub proof fn lemma_ones_below_low_bits(a: u32, b: u32, n: u32)
    requires
        a & 0x7FFFFFFF == b & 0x7FFFFFFF,
        n <= 31,
    ensures
        ones_below(a, n) == ones_below(b, n),
    decreases n,
{
    if n > 0 {
        let k = (n - 1) as u32;
        lemma_ones_below_low_bits(a, b, k);
        lemma_low_bit_agrees(a, b, k);
    }
}

fn count_ones(codeword: u32) -> (ones: u32)
    ensures
        ones == ones_below(codeword, 31),
{
    let mut ones: u32 = 0;
    let mut i: u32 = 0;
    while i < 31
        invariant
            i <= 31,
            ones == ones_below(codeword, i),
        decreases 31 - i,
    {
        let mask: u32 = 1u32 << i;
        proof {
            lemma_ones_below_bound(codeword, i);
            lemma_masked_bit(codeword, i);
        }
        let bit = (codeword & mask) >> i;
        ones += bit;
        i += 1;
    }
    ones
}

/// What toggling or clearing bit 31 does to a word.
proof fn lemma_parity_bit_update(before: u32, after: u32)
    by (bit_vector)
    requires
        after == before ^ 0x80000000 || after == before & 0x7FFFFFFF,
    ensures
        after & 0x7FFFFFFF == before & 0x7FFFFFFF,
        before < 0x80000000 ==> after & 0x7FFFFFFF == before,
        before < 0x80000000 && after == before ^ 0x80000000 ==> (after >> 31u32) & 1 == 1,
        after == before & 0x7FFFFFFF ==> (after >> 31u32) & 1 == 0,
{
}

fn set_parity(codeword: &mut u32)
    ensures
        *final(codeword) == *old(codeword) ^ 0x80000000,
{
    let parity_bit: u32 = 0x80000000;
    *codeword = *codeword ^ parity_bit;
}

fn clear_parity(codeword: &mut u32)
    ensures
        *final(codeword) == *old(codeword) & 0x7FFFFFFF,
{
    *codeword = *codeword & 0x7FFFFFFF;
}

/// Makes the number of ones in the 32-bit word even by way of bit 31.
///
/// Returns whether bits 0..30 held an odd number of ones. When bit 31 was
/// clear on entry, bits 0..30 are kept and the result has even parity.
pub fn check_and_set_parity(codeword: &mut u32) -> (odd: bool)
    ensures
        odd == (ones_below(*old(codeword), 31) % 2 == 1),
        *final(codeword) == parity_applied(*old(codeword)),
        *old(codeword) < 0x80000000 ==> *final(codeword) & 0x7FFFFFFF == *old(codeword),
        *old(codeword) < 0x80000000 ==> ones_below(*final(codeword), 32) % 2 == 0,
{
    let ghost before = *codeword;
    let ones = count_ones(*codeword);
    let odd = (ones % 2) != 0;
    if odd {
        set_parity(codeword);
    } else {
        clear_parity(codeword);
    }
    proof {
        let after = *codeword;
        lemma_parity_bit_update(before, after);
        if before < 0x80000000 {
            lemma_ones_below_low_bits(after, before, 31);
            assert(ones_below(after, 32) == ones_below(after, 31) + ((after >> 31u32) & 1) as nat);
        }
    }
    odd
}

} // verus!
