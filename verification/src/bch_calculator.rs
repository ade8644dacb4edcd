use vstd::prelude::*;

verus! {

/// Generator polynomial of the BCH(31,21) code: x^10+x^7+x^5+x^4+x^2+x+1.
pub const BCH_GENERATOR: u32 = 0x4B7;

/// The state of the check-bit computation after bits `i..21` of `crc` have been
/// reduced: every set information bit `i` is cleared by adding the generator
/// shifted to position `i`.
pub open spec fn bch_reduce(crc: u32, i: u32) -> u32
    decreases 21 - i,
{
    if i >= 21 {
        crc
    } else {
        let next = if crc & (1u32 << i) != 0 { crc ^ (0x4B7u32 << i) } else { crc };
        bch_reduce(next, (i + 1) as u32)
    }
}

/// A codeword with its BCH check bits added in bits 21..30.
pub open spec fn bch_encode(codeword: u32) -> u32 {
    codeword | bch_reduce(codeword, 0)
}

/// Carry-less (GF(2)) product of the low `n` bits of `q` with the generator.
pub open spec fn gf2_times_generator(q: u32, n: u32) -> u32
    decreases n,
{
    if n == 0 {
        0
    } else {
        let k = (n - 1) as u32;
        gf2_times_generator(q, k) ^ (if q & (1u32 << k) != 0 { 0x4B7u32 << k } else { 0 })
    }
}

/// A 31-bit word is a BCH codeword when, read as a GF(2) polynomial, it is a
/// multiple of the generator polynomial.
pub open spec fn is_bch_codeword(word: u32) -> bool {
    exists|q: u32| q < 0x200000 && word == #[trigger] gf2_times_generator(q, 21)
}

proof fn lemma_bit_below_kept(q: u32, i: u32, k: u32)
    by (bit_vector)
    requires
        k < i,
        i < 21,
    ensures
        ((q | (1u32 << i)) & (1u32 << k)) == (q & (1u32 << k)),
{
}

proof fn lemma_gf2_set_bit_above(q: u32, i: u32, n: u32)
    requires
        n <= i,
        i < 21,
    ensures
        gf2_times_generator(q | (1u32 << i), n) == gf2_times_generator(q, n),
    decreases n,
{
    if n > 0 {
        let k = (n - 1) as u32;
        lemma_gf2_set_bit_above(q, i, k);
        lemma_bit_below_kept(q, i, k);
    }
}

proof fn lemma_term_below_bit_31(a: u32, k: u32)
    by (bit_vector)
    requires
        a < 0x80000000,
        k < 21,
    ensures
        a ^ (0x4B7u32 << k) < 0x80000000,
        a ^ 0u32 == a,
{
}

proof fn lemma_gf2_bound(q: u32, n: u32)
    requires
        n <= 21,
    ensures
        gf2_times_generator(q, n) < 0x80000000,
    decreases n,
{
    if n > 0 {
        let k = (n - 1) as u32;
        lemma_gf2_bound(q, k);
        lemma_term_below_bit_31(gf2_times_generator(q, k), k);
    }
}

proof fn lemma_reduce_start(codeword: u32, q: u32)
    by (bit_vector)
    requires
        q == 0,
    ensures
        codeword & ((1u32 << 0u32) - 1) as u32 == 0,
        codeword ^ 0u32 == codeword,
        q < (1u32 << 0u32),
{
}

/// One reduction step that clears the set bit `i`: the generator shifted to
/// `i` is added, and bit `i` is recorded in the quotient.
proof fn lemma_reduce_step_set(
    codeword: u32,
    old_crc: u32,
    crc: u32,
    old_q: u32,
    q: u32,
    g_old: u32,
    i: u32,
)
    by (bit_vector)
    requires
        i < 21,
        old_crc & ((1u32 << i) - 1) as u32 == 0,
        old_crc & (1u32 << i) != 0,
        crc == old_crc ^ (0x4B7u32 << i),
        old_crc == codeword ^ g_old,
        old_q < (1u32 << i),
        q == old_q | (1u32 << i),
    ensures
        q & (1u32 << i) != 0,
        crc == codeword ^ (g_old ^ (0x4B7u32 << i)),
        crc & ((1u32 << ((i + 1) as u32)) - 1) as u32 == 0,
        q < (1u32 << ((i + 1) as u32)),
{
}

/// One reduction step over a clear bit `i`: nothing changes.
proof fn lemma_reduce_step_clear(crc: u32, q: u32, g_old: u32, i: u32)
    by (bit_vector)
    requires
        i < 21,
        crc & ((1u32 << i) - 1) as u32 == 0,
        crc & (1u32 << i) == 0,
        q < (1u32 << i),
    ensures
        q & (1u32 << i) == 0,
        g_old ^ 0u32 == g_old,
        crc & ((1u32 << ((i + 1) as u32)) - 1) as u32 == 0,
        q < (1u32 << ((i + 1) as u32)),
{
}

/// After 21 steps the low bits of the remainder are clear; for a 21-bit
/// input, the encoded word is the generator multiple.
proof fn lemma_reduce_finish(codeword: u32, crc: u32, result: u32, m: u32, q: u32)
    by (bit_vector)
    requires
        crc & ((1u32 << 21u32) - 1) as u32 == 0,
        result == codeword | crc,
        crc == codeword ^ m,
        q < (1u32 << 21u32),
    ensures
        result & 0x1FFFFF == codeword & 0x1FFFFF,
        codeword < 0x200000 ==> result == m,
        q < 0x200000,
{
}

/// Adds the BCH(31,21) check bits to the information bits of `codeword`.
///
/// The information bits are kept; for a 21-bit input the result is a
/// multiple of the generator polynomial and leaves the parity bit clear.
pub fn calculate_crc(codeword: u32) -> (result: u32)
    ensures
        result == bch_encode(codeword),
        result & 0x1FFFFF == codeword & 0x1FFFFF,
        codeword < 0x200000 ==> result < 0x80000000,
        codeword < 0x200000 ==> is_bch_codeword(result),
{
    let mut crc = codeword;
    let ghost mut q: u32 = 0;
    let mut i: u32 = 0;
    proof {
        lemma_reduce_start(codeword, q);
    }
    while i < 21
        invariant
            i <= 21,
            bch_reduce(crc, i) == bch_reduce(codeword, 0),
            crc & ((1u32 << i) - 1) as u32 == 0,
            crc == codeword ^ gf2_times_generator(q, i),
            q < (1u32 << i),
        decreases 21 - i,
    {
        let old_crc = crc;
        let ghost old_q = q;
        let ghost g_old = gf2_times_generator(old_q, i);
        if (crc & (1u32 << i)) != 0 {
            crc ^= 0x4B7u32 << i;
            proof {
                q = q | (1u32 << i);
                lemma_gf2_set_bit_above(old_q, i, i);
                lemma_reduce_step_set(codeword, old_crc, crc, old_q, q, g_old, i);
                assert(gf2_times_generator(q, (i + 1) as u32) == g_old ^ (0x4B7u32 << i));
            }
        } else {
            proof {
                lemma_reduce_step_clear(crc, q, g_old, i);
                assert(gf2_times_generator(q, (i + 1) as u32) == g_old ^ 0u32);
            }
        }
        i += 1;
    }
    let result = codeword | crc;
    proof {
        let m = gf2_times_generator(q, 21);
        lemma_reduce_finish(codeword, crc, result, m, q);
        if codeword < 0x200000 {
            lemma_gf2_bound(q, 21);
            assert(is_bch_codeword(result));
        }
    }
    result
}

/// Bit facts of one reduction step: bits below `i` stay clear and bit `i`
/// is cleared; the step is the same on `x ^ y` as on `x` and `y` apart; and
/// a word with clear information bits has bit `i` clear.
proof fn lemma_reduce_step_bits(x: u32, y: u32, i: u32)
    by (bit_vector)
    requires
        i < 21,
    ensures
        x & ((1u32 << i) - 1) as u32 == 0 && x & (1u32 << i) != 0 ==> (x ^ (0x4B7u32 << i)) & ((1u32
            << ((i + 1) as u32)) - 1) as u32 == 0,
        x & ((1u32 << i) - 1) as u32 == 0 && x & (1u32 << i) == 0 ==> x & ((1u32 << ((i + 1) as u32))
            - 1) as u32 == 0,
        ((x ^ y) & (1u32 << i) != 0) == ((x & (1u32 << i) != 0) != (y & (1u32 << i) != 0)),
        (x ^ (0x4B7u32 << i)) ^ (y ^ (0x4B7u32 << i)) == x ^ y,
        (x ^ (0x4B7u32 << i)) ^ y == (x ^ y) ^ (0x4B7u32 << i),
        x ^ (y ^ (0x4B7u32 << i)) == (x ^ y) ^ (0x4B7u32 << i),
        x & 0x1FFFFF == 0 ==> x & (1u32 << i) == 0,
        ((1u32 << 21u32) - 1) as u32 == 0x1FFFFF,
        x & ((1u32 << 0u32) - 1) as u32 == 0,
        y & 0x1FFFFF == 0 ==> (x | y) & 0x1FFFFF == x & 0x1FFFFF,
{
}

/// The reduction clears every information bit it passes over.
proof fn lemma_reduce_clears(crc: u32, i: u32)
    requires
        i <= 21,
        crc & ((1u32 << i) - 1) as u32 == 0,
    ensures
        bch_reduce(crc, i) & 0x1FFFFF == 0,
    decreases 21 - i,
{
    if i < 21 {
        lemma_reduce_step_bits(crc, crc, i);
        let next = if crc & (1u32 << i) != 0 { crc ^ (0x4B7u32 << i) } else { crc };
        lemma_reduce_clears(next, (i + 1) as u32);
    } else {
        lemma_reduce_step_bits(crc, crc, 0);
    }
}

/// The reduction is linear over XOR.
proof fn lemma_reduce_xor(x: u32, y: u32, i: u32)
    ensures
        bch_reduce(x ^ y, i) == bch_reduce(x, i) ^ bch_reduce(y, i),
    decreases 21 - i,
{
    if i < 21 {
        lemma_reduce_step_bits(x, y, i);
        let nx = if x & (1u32 << i) != 0 { x ^ (0x4B7u32 << i) } else { x };
        let ny = if y & (1u32 << i) != 0 { y ^ (0x4B7u32 << i) } else { y };
        lemma_reduce_xor(nx, ny, (i + 1) as u32);
    }
}

/// A word whose information bits are clear is left as it is.
proof fn lemma_reduce_of_check_bits(x: u32, i: u32)
    requires
        i <= 21,
        x & 0x1FFFFF == 0,
    ensures
        bch_reduce(x, i) == x,
    decreases 21 - i,
{
    if i < 21 {
        lemma_reduce_step_bits(x, x, i);
        lemma_reduce_of_check_bits(x, (i + 1) as u32);
    }
}

proof fn lemma_or_is_xor(a: u32, b: u32, ra: u32, rb: u32)
    by (bit_vector)
    requires
        a < 0x200000,
        b < 0x200000,
        ra & 0x1FFFFF == 0,
        rb & 0x1FFFFF == 0,
    ensures
        (a ^ b) | (ra ^ rb) == (a | ra) ^ (b | rb),
        a | ra == a ^ ra,
        (a | ra) & 0x1FFFFF == a,
        a ^ 0u32 == a,
        ra ^ ra == 0,
        (a ^ ra) | 0u32 == a ^ ra,
{
}

/// The check bits of a word with clear information bits are clear.
proof fn lemma_reduce_low_bits(x: u32)
    ensures
        bch_reduce(x, 0) & 0x1FFFFF == 0,
{
    lemma_reduce_step_bits(x, x, 0);
    lemma_reduce_clears(x, 0);
}

/// The encoding is linear over XOR: the check bits of the sum of two 21-bit
/// information words are the sum of their check bits.
pub proof fn lemma_bch_encode_xor(a: u32, b: u32)
    requires
        a < 0x200000,
        b < 0x200000,
    ensures
        bch_encode(a ^ b) == bch_encode(a) ^ bch_encode(b),
{
    lemma_reduce_xor(a, b, 0);
    lemma_reduce_low_bits(a);
    lemma_reduce_low_bits(b);
    lemma_or_is_xor(a, b, bch_reduce(a, 0), bch_reduce(b, 0));
}

/// Encoding a codeword again changes nothing: its check bits already make
/// it a codeword.
pub proof fn lemma_bch_encode_idempotent(c: u32)
    requires
        c < 0x200000,
    ensures
        bch_encode(bch_encode(c)) == bch_encode(c),
{
    let r = bch_reduce(c, 0);
    lemma_reduce_low_bits(c);
    lemma_or_is_xor(c, c, r, r);
    let e = bch_encode(c);
    assert(e == c ^ r);
    lemma_reduce_xor(c, r, 0);
    lemma_reduce_of_check_bits(r, 0);
    assert(bch_reduce(e, 0) == 0);
}

/// The encoding keeps the 21 information bits of any word.
pub proof fn lemma_bch_encode_keeps_info(codeword: u32)
    ensures
        bch_encode(codeword) & 0x1FFFFF == codeword & 0x1FFFFF,
{
    let r = bch_reduce(codeword, 0);
    lemma_reduce_low_bits(codeword);
    lemma_reduce_step_bits(codeword, r, 0);
}

} // verus!
