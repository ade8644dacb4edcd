use vstd::prelude::*;

verus! {

/// Bit `b` of codeword `c`, for the eight codewords of an interleaving group.
pub open spec fn input_bit(input: Seq<u32>, c: int, b: u32) -> u8 {
    ((input[c] >> b) & 1) as u8
}

/// The byte that gathers bit `b` of codewords `0..n`: bit `c` of the byte is
/// bit `b` of codeword `c`.
pub open spec fn column_byte(input: Seq<u32>, b: u32, n: nat) -> u8
    decreases n,
{
    if n == 0 {
        0
    } else {
        let k = (n - 1) as nat;
        column_byte(input, b, k) | (input_bit(input, k as int, b) << (k as u8))
    }
}

/// The 1600 bps interleaving of eight codewords into 32 bytes: byte `b`
/// carries bit `b` of each codeword, codeword `c` in bit `c`.
pub open spec fn interleaved(input: Seq<u32>) -> Seq<u8> {
    Seq::new(32, |b: int| column_byte(input, b as u32, 8))
}

proof fn lemma_or_new_bit(x: u8, y: u8, k: u8)
    by (bit_vector)
    requires
        k < 8,
        y <= 1,
        (x as u32) < (1u32 << (k as u32)),
    ensures
        x ^ (y << k) == x | (y << k),
        ((x | (y << k)) as u32) < (1u32 << ((k + 1) as u32)),
        ((x | (y << k)) >> k) & 1 == y,
        forall|c: u8| c < k ==> #[trigger] (((x | (y << k)) >> c) & 1) == (x >> c) & 1,
        forall|c: u8| k < c && c < 8 ==> #[trigger] (((x | (y << k)) >> c) & 1) == 0,
{
}

proof fn lemma_zero_byte_bits()
    by (bit_vector)
    ensures
        0u32 < (1u32 << 0u32),
        forall|c: u8| c < 8 ==> #[trigger] ((0u8 >> c) & 1) == 0,
{
}

proof fn lemma_bit_of_word(w: u32, b: u32)
    by (bit_vector)
    ensures
        ((w >> b) & 1) as u8 <= 1,
        b < 32 ==> ((w & (1u32 << b)) >> b) & 0x00000001 == (w >> b) & 1,
{
}

/// A column byte built from `n` codewords holds bit `b` of codeword `c` in
/// its bit `c`, and nothing above bit `n - 1`.
pub proof fn lemma_column_byte_bits(input: Seq<u32>, b: u32, n: nat)
    requires
        n <= 8,
    ensures
        (column_byte(input, b, n) as u32) < (1u32 << (n as u32)),
        forall|c: u8| c < n ==> #[trigger] ((column_byte(input, b, n) >> c) & 1) == input_bit(input, c as int, b),
        forall|c: u8| n <= c && c < 8 ==> #[trigger] ((column_byte(input, b, n) >> c) & 1) == 0,
    decreases n,
{
    if n == 0 {
        lemma_zero_byte_bits();
    } else {
        let k = (n - 1) as nat;
        lemma_column_byte_bits(input, b, k);
        let x = column_byte(input, b, k);
        let y = input_bit(input, k as int, b);
        let w = input[k as int];
        lemma_bit_of_word(w, b);
        lemma_or_new_bit(x, y, k as u8);
    }
}

pub(crate) fn interleave_group(input: &[u32]) -> (output: [u8; 32])
    requires
        input@.len() == 8,
    ensures
        output@ == interleaved(input@),
{
    let mut output_data: [u8; 32] = [0; 32];
    let mut bit_index: usize = 0;
    while bit_index < 32
        invariant
            input@.len() == 8,
            bit_index <= 32,
            output_data@.len() == 32,
            forall|b: int| 0 <= b < bit_index ==> output_data@[b] == column_byte(input@, b as u32, 8),
            forall|b: int| bit_index <= b < 32 ==> output_data@[b] == 0,
        decreases 32 - bit_index,
    {
        let mut codeword: usize = 0;
        while codeword < 8
            invariant
                input@.len() == 8,
                bit_index < 32,
                codeword <= 8,
                output_data@.len() == 32,
                forall|b: int| 0 <= b < bit_index ==> output_data@[b] == column_byte(input@, b as u32, 8),
                forall|b: int| bit_index < b < 32 ==> output_data@[b] == 0,
                output_data@[bit_index as int] == column_byte(input@, bit_index as u32, codeword as nat),
            decreases 8 - codeword,
        {
            let shift = bit_index as u32;
            let input_mask: u32 = 1u32 << shift;
            let masked_input = input[codeword] & input_mask;
            let backshifted_input = (masked_input >> shift) & 0x00000001;
            let read_bit: u8 = backshifted_input as u8;
            let bit_to_write: u8 = read_bit << (codeword as u8);
            proof {
                let w = input@[codeword as int];
                lemma_bit_of_word(w, shift);
                assert(read_bit == input_bit(input@, codeword as int, shift));
                lemma_column_byte_bits(input@, shift, codeword as nat);
                lemma_or_new_bit(output_data@[bit_index as int], read_bit, codeword as u8);
            }
            let updated = output_data[bit_index] ^ bit_to_write;
            output_data[bit_index] = updated;
            codeword += 1;
        }
        bit_index += 1;
    }
    assert(output_data@ =~= interleaved(input@));
    output_data
}

/// Interleaves eight codewords into 32 bytes for transmission at 1600 bps:
/// byte `b` carries bit `b` of every codeword, codeword `c` in bit `c`.
pub fn interleave_codewords_1600(input: [u32; 8]) -> (output: [u8; 32])
    ensures
        output@ == interleaved(input@),
        forall|b: int, c: int|
            0 <= b < 32 && 0 <= c < 8 ==> (#[trigger] (output@[b] >> (c as u8)) & 1) == input_bit(
                input@,
                c,
                b as u32,
            ),
{
    let output = interleave_group(input.as_slice());
    proof {
        lemma_interleaved_bits(input@);
    }
    output
}

/// Every output byte of the interleaver is the transposed column: bit `c` of
/// byte `b` is bit `b` of codeword `c`.
pub proof fn lemma_interleaved_bits(input: Seq<u32>)
    ensures
        forall|b: int, c: int|
            0 <= b < 32 && 0 <= c < 8 ==> (#[trigger] (interleaved(input)[b] >> (c as u8)) & 1)
                == input_bit(input, c, b as u32),
{
    assert forall|b: int, c: int| 0 <= b < 32 && 0 <= c < 8 implies (#[trigger] (interleaved(input)[b] >> (c as u8)) & 1) == input_bit(input, c, b as u32) by {
        lemma_column_byte_bits(input, b as u32, 8);
        let cc = c as u8;
        assert(((column_byte(input, b as u32, 8) >> cc) & 1) == input_bit(input, cc as int, b as u32));
    }
}

} // verus!
