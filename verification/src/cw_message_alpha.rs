use vstd::prelude::*;
use crate::apply_bch_and_parity::{bch_and_parity, is_valid_flex_word};
use crate::codeword::Codeword;
use crate::codewords::cw_message_alpha::{
    alpha_header_word,
    alpha_signature,
    content_words_of,
    lemma_sum_7bit_bound,
    sum_7bit,
};
use crate::cw_message_alpha_content::CWMessageAlphaContent;
use crate::cw_message_alpha_header::CWMessageAlphaHeader;
use crate::cw_message_alpha_signature::{signature_info, CWMessageAlphaSignature};

verus! {

/// Longest message that fits in one fragment.
pub const MAX_UNFRAGMENTED_CHARS: usize = 251;

/// The words of an unpadded alphanumeric message: header, signature with the
/// first two characters, then each whole group of three characters.
pub open spec fn unpadded_alpha_words(message_number: u32, chars: Seq<u8>) -> Seq<u32> {
    seq![
        alpha_header_word(message_number),
        bch_and_parity(signature_info(alpha_signature(chars), chars[0], chars[1])),
    ] + content_words_of(chars)
}

/// An unpadded alphanumeric message of at most 251 characters; characters
/// after the last whole group of three only count in the signature.
pub struct CWMessageAlpha {
    header: CWMessageAlphaHeader,
    signature: CWMessageAlphaSignature,
    content: Vec<CWMessageAlphaContent>,
}

impl CWMessageAlpha {
    /// The words of the message, in transmission order.
    pub closed spec fn words(&self) -> Seq<u32> {
        seq![self.header.spec_codeword(), self.signature.spec_codeword()]
            + self.content@.map_values(|c: CWMessageAlphaContent| c.spec_codeword())
    }

    /// Refuses messages longer than 251 characters (they would need
    /// fragmentation).
    pub fn new(message_number: u32, chars: &[u8]) -> (r: Result<CWMessageAlpha, &'static str>)
        requires
            chars@.len() > MAX_UNFRAGMENTED_CHARS || (chars@.len() >= 2 && message_number <= 63),
        ensures
            r matches Err(e) ==> e == "Fragmented messages not implemented.",
            r is Ok <==> chars@.len() <= MAX_UNFRAGMENTED_CHARS,
            r matches Ok(m) ==> m.words() == unpadded_alpha_words(message_number, chars@),
    {
        if chars.len() > 251 {
            return Err("Fragmented messages not implemented.");
        }
        proof {
            lemma_sum_7bit_bound(chars@);
        }
        let first: [u8; 2] = [chars[0], chars[1]];
        let signature = CWMessageAlphaSignature::new(
            CWMessageAlpha::calculate_signature(chars),
            first.as_slice(),
        ).unwrap();
        let mut content: Vec<CWMessageAlphaContent> = Vec::new();
        let len = chars.len();
        let n = (len - 2) / 3;
        let mut i: usize = 0;
        while i < n
            invariant
                len == chars@.len(),
                len >= 2,
                len <= 251,
                n == (len - 2) / 3,
                i <= n,
                content@.len() == i,
                forall|j: int|
                    0 <= j < i ==> (#[trigger] content@[j]).spec_codeword() == content_words_of(
                        chars@,
                    )[j],
            decreases n - i,
        {
            assert(4 + i * 3 < len) by (nonlinear_arith)
                requires
                    i < n,
                    n == (len - 2) / 3,
                    len >= 2,
            ;
            let k: usize = 2 + i * 3;
            let trio: [u8; 3] = [chars[k], chars[k + 1], chars[k + 2]];
            content.push(CWMessageAlphaContent::new(trio.as_slice()).unwrap());
            i += 1;
        }
        let header = CWMessageAlphaHeader::new(
            CWMessageAlpha::calculate_fragment_check(),
            3,
            message_number,
            0,
            0,
        ).unwrap();
        let m = CWMessageAlpha { header: header, signature: signature, content: content };
        assert(m.words() =~= unpadded_alpha_words(message_number, chars@));
        Ok(m)
    }

    /// The one's complement of the 7-bit character sum, modulo 128.
    pub fn calculate_signature(chars: &[u8]) -> (sig: u32)
        requires
            sum_7bit(chars@) <= u32::MAX,
        ensures
            sig == alpha_signature(chars@),
    {
        crate::codewords::cw_message_alpha::CWMessageAlpha::calculate_signature(chars)
    }

    /// The header of an unpadded message carries no fragment check.
    pub fn calculate_fragment_check() -> (check: u32)
        ensures
            check == 0,
    {
        0x0
    }

    /// The words of the message, in transmission order.
    pub fn get_codewords(&self) -> (cws: Vec<u32>)
        ensures
            cws@ == self.words(),
            forall|i: int| 0 <= i < cws@.len() ==> is_valid_flex_word(#[trigger] cws@[i]),
    {
        let mut cws: Vec<u32> = Vec::new();
        cws.push(self.header.get_codeword());
        cws.push(self.signature.get_codeword());
        let mut i: usize = 0;
        while i < self.content.len()
            invariant
                i <= self.content@.len(),
                cws@ == self.words().subrange(0, 2 + i),
                forall|j: int| 0 <= j < cws@.len() ==> is_valid_flex_word(#[trigger] cws@[j]),
            decreases self.content@.len() - i,
        {
            let w = self.content[i].get_codeword();
            cws.push(w);
            i += 1;
            assert(cws@ =~= self.words().subrange(0, 2 + i));
        }
        assert(cws@ =~= self.words());
        cws
    }
}

} // verus!
