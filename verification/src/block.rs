use vstd::prelude::*;
use crate::apply_bch_and_parity::bch_and_parity;
use crate::codeword::Codeword;
use crate::codewords::biw3::{biw3_word, BIW3};
use crate::codewords::biw4::{biw4_word, BIW4};
use crate::codewords::vector_alpha::{vector_alpha_word, CWVectorAlpha};
use crate::cw_address_short::CWAddressShort;
use crate::cw_biw1::{biw1_word, BIW1};
use crate::cw_message_alpha::{unpadded_alpha_words, CWMessageAlpha};
use crate::interleaver::{interleave_group, interleaved};

verus! {

/// The characters of the sample message, "gurke".
pub open spec fn sample_text() -> Seq<u8> {
    seq![0x67u8, 0x75u8, 0x72u8, 0x6Bu8, 0x65u8]
}

/// The eight words of the sample block: BIW 1, BIW 3, BIW 4, a short address,
/// an alphanumeric vector and a three-word message.
pub open spec fn sample_block_words() -> Seq<u32> {
    seq![
        biw1_word(0, 2, 4, 0, 0),
        biw3_word(23, 5, 1999),
        biw4_word(13, 37, 0),
        bch_and_parity(0x8204),
        vector_alpha_word(5, 3),
    ] + unpadded_alpha_words(1, sample_text())
}

/// A single 1600 bps block of eight codewords.
pub struct Block {}

impl Block {
    pub fn new() -> (r: Result<Block, &'static str>)
        ensures
            r is Ok,
    {
        Ok(Block {  })
    }

    /// The interleaved sample block.
    pub fn get_bytes(&self) -> (bytes: Vec<u8>)
        ensures
            bytes@ == interleaved(sample_block_words()),
    {
        let biw1 = BIW1::new(0, 2, 4, 0, 0).unwrap();
        let address = CWAddressShort::new(0x8204).unwrap();
        let biw3 = BIW3::new(23, 5, 1999).unwrap();
        let biw4 = BIW4::new(13, 37, 0).unwrap();
        let vector_alpha = CWVectorAlpha::new(5, 3).unwrap();
        let text: [u8; 5] = [0x67, 0x75, 0x72, 0x6B, 0x65];
        assert(text@ =~= sample_text());
        let msg_alpha = CWMessageAlpha::new(1, text.as_slice()).unwrap();
        let mut block_cws: Vec<u32> = Vec::new();
        block_cws.push(biw1.get_codeword());
        block_cws.push(biw3.get_codeword());
        block_cws.push(biw4.get_codeword());
        block_cws.push(address.get_codeword());
        block_cws.push(vector_alpha.get_codeword());
        let message_cws = msg_alpha.get_codewords();
        let mut i: usize = 0;
        while i < message_cws.len()
            invariant
                i <= message_cws@.len(),
                message_cws@ == unpadded_alpha_words(1, sample_text()),
                block_cws@ == sample_block_words().subrange(0, 5 + i),
            decreases message_cws@.len() - i,
        {
            block_cws.push(message_cws[i]);
            i += 1;
            assert(block_cws@ =~= sample_block_words().subrange(0, 5 + i));
        }
        assert(block_cws@ =~= sample_block_words());
        let out = Block::interleave_codewords_1600(block_cws.as_slice());
        let mut bytes: Vec<u8> = Vec::new();
        let mut j: usize = 0;
        while j < 32
            invariant
                j <= 32,
                out@.len() == 32,
                bytes@ == out@.subrange(0, j as int),
            decreases 32 - j,
        {
            bytes.push(out[j]);
            j += 1;
            assert(bytes@ =~= out@.subrange(0, j as int));
        }
        assert(out@.subrange(0, 32) =~= out@);
        bytes
    }

    /// A block of idle bit pattern: 32 bytes of 0x55.
    pub fn get_empty_block() -> (bytes: Vec<u8>)
        ensures
            bytes@ == Seq::new(32, |i: int| 0x55u8),
    {
        let bytes = vec![0x55u8; 32];
        assert(bytes@ =~= Seq::new(32, |i: int| 0x55u8));
        bytes
    }

    /// Interleaves a group of exactly eight codewords into 32 bytes.
    pub fn interleave_codewords_1600(input: &[u32]) -> (output: [u8; 32])
        requires
            input@.len() == 8,
        ensures
            output@ == interleaved(input@),
    {
        interleave_group(input)
    }
}

} // verus!
