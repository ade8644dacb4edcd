use vstd::prelude::*;
use bit_reverse::ParallelReverse;
use crate::frame::Frame;

verus! {

/// A byte with its bit order reversed: bit `i` moves to bit `7 - i`.
pub open spec fn reverse_byte(byte: u8) -> u8 {
    ((byte & 0x01) << 7u8) | ((byte & 0x02) << 5u8) | ((byte & 0x04) << 3u8) | ((byte & 0x08) << 1u8)
        | ((byte & 0x10) >> 1u8) | ((byte & 0x20) >> 3u8) | ((byte & 0x40) >> 5u8) | ((byte & 0x80)
        >> 7u8)
}

/// Bit `i` of the reversed byte is bit `7 - i` of the byte, and reversing
/// twice gives the byte back.
pub proof fn lemma_reverse_byte_bits(byte: u8)
    by (bit_vector)
    ensures
        forall|i: u8|
            i < 8 ==> #[trigger] ((reverse_byte(byte) >> i) & 1) == (byte >> ((7 - i) as u8)) & 1,
        reverse_byte(reverse_byte(byte)) == byte,
{
}

/// `bit_reverse::ParallelReverse::swap_bits` on a byte: the crate documents
/// that bit `i` becomes bit `N - i` (counting from one), that is, the bit
/// order of the byte is reversed.
#[verifier::external_body]
fn swap_bits_u8(byte: u8) -> (reversed: u8)
    ensures
        reversed == reverse_byte(byte),
{
    byte.swap_bits()
}

/// The bytes of the frames, one frame after the other.
pub open spec fn stream_bytes(frames: Seq<Frame>) -> Seq<u8>
    decreases frames.len(),
{
    if frames.len() == 0 {
        Seq::empty()
    } else {
        stream_bytes(frames.drop_last()) + frames.last().spec_bytes()
    }
}

/// The frames as sent on air: every byte with its bit order reversed, so
/// that the least significant bit goes first.
pub fn frames_hton(frames: &Vec<Frame>) -> (bytes: Vec<u8>)
    requires
        forall|i: int| 0 <= i < frames@.len() ==> (#[trigger] frames@[i]).wf(),
    ensures
        bytes@ == stream_bytes(frames@).map_values(|b: u8| reverse_byte(b)),
{
    let mut reversed_bytes: Vec<u8> = Vec::new();
    let mut k: usize = 0;
    while k < frames.len()
        invariant
            k <= frames@.len(),
            forall|i: int| 0 <= i < frames@.len() ==> (#[trigger] frames@[i]).wf(),
            reversed_bytes@ == stream_bytes(frames@.take(k as int)).map_values(
                |b: u8| reverse_byte(b),
            ),
        decreases frames@.len() - k,
    {
        let bytes = frames[k].get_bytes();
        let ghost before = reversed_bytes@;
        let mut j: usize = 0;
        while j < bytes.len()
            invariant
                j <= bytes@.len(),
                reversed_bytes@ == before + bytes@.subrange(0, j as int).map_values(
                    |b: u8| reverse_byte(b),
                ),
            decreases bytes@.len() - j,
        {
            reversed_bytes.push(swap_bits_u8(bytes[j]));
            j += 1;
            assert(reversed_bytes@ =~= before + bytes@.subrange(0, j as int).map_values(
                |b: u8| reverse_byte(b),
            ));
        }
        assert(bytes@.subrange(0, bytes@.len() as int) =~= bytes@);
        assert(frames@.take(k + 1).drop_last() =~= frames@.take(k as int));
        k += 1;
        assert(reversed_bytes@ =~= stream_bytes(frames@.take(k as int)).map_values(
            |b: u8| reverse_byte(b),
        ));
    }
    assert(frames@.take(frames@.len() as int) =~= frames@);
    reversed_bytes
}

} // verus!
