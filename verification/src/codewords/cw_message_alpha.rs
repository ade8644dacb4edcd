use vstd::prelude::*;
use crate::apply_bch_and_parity::{apply_bch_and_parity, bch_and_parity, is_valid_flex_word};
use crate::codeword::Codeword;
use crate::cw_message_alpha_content::{three_chars_word, CWMessageAlphaContent};
use crate::cw_message_alpha_header::{header_info, CWMessageAlphaHeader};
use crate::cw_message_alpha_signature::{signature_info, CWMessageAlphaSignature};

verus! {

/// End-of-text character used to pad a message to whole content words.
pub const ETX: u8 = 0x3;

/// Sum of the 7-bit values of the characters.
pub open spec fn sum_7bit(chars: Seq<u8>) -> nat
    decreases chars.len(),
{
    if chars.len() == 0 {
        0
    } else {
        sum_7bit(chars.drop_last()) + (chars.last() & 0x7F) as nat
    }
}

/// The message signature: the one's complement of the 7-bit character sum,
/// modulo 128.
pub open spec fn alpha_signature(chars: Seq<u8>) -> u32 {
    (127 - sum_7bit(chars) % 128) as u32
}

/// Number of ETX characters that bring a length to 2 modulo 3.
pub open spec fn fill_count(len: nat) -> nat {
    ((5 - len % 3) % 3) as nat
}

/// The characters padded with ETX up to a length of 2 modulo 3: two for the
/// signature word and three for each content word.
pub open spec fn filled_chars(chars: Seq<u8>) -> Seq<u8> {
    chars + Seq::new(fill_count(chars.len()), |i: int| ETX)
}

/// The content words of a character sequence: its whole groups of three
/// characters after the first two.
pub open spec fn content_words_of(chars: Seq<u8>) -> Seq<u32> {
    Seq::new(
        ((chars.len() - 2) / 3) as nat,
        |i: int| three_chars_word(chars[2 + 3 * i], chars[3 + 3 * i], chars[4 + 3 * i]),
    )
}

/// Header word of a single-fragment alphanumeric message (fragment number 3).
pub open spec fn alpha_header_word(message_number: u32) -> u32 {
    bch_and_parity(header_info(0, 3, message_number, 0, 0))
}

/// The message words before the fragment check: header, signature with the
/// first two characters, then the content words of the padded characters.
pub open spec fn raw_alpha_words(message_number: u32, chars: Seq<u8>) -> Seq<u32> {
    let f = filled_chars(chars);
    seq![
        alpha_header_word(message_number),
        bch_and_parity(signature_info(alpha_signature(chars), f[0], f[1])),
    ] + content_words_of(f)
}

/// Sum of the bit groups 0..7, 8..15 and 16..20 of a word.
pub open spec fn bitgroup_sum(codeword: u32) -> nat {
    ((codeword & 0xFF) + ((codeword >> 8u32) & 0xFF) + ((codeword >> 16u32) & 0x1F)) as nat
}

/// Sum of the bit groups of all words.
pub open spec fn bitgroup_total(codewords: Seq<u32>) -> nat
    decreases codewords.len(),
{
    if codewords.len() == 0 {
        0
    } else {
        bitgroup_total(codewords.drop_last()) + bitgroup_sum(codewords.last())
    }
}

/// The 10-bit fragment check: one's complement of the bit group total.
pub open spec fn fragment_check_of(codewords: Seq<u32>) -> u32 {
    (1023 - bitgroup_total(codewords) % 1024) as u32
}

/// The message words with the fragment check in bits 0..9 of the header,
/// whose check bits are then recomputed.
pub open spec fn with_fragment_check(raw: Seq<u32>) -> Seq<u32> {
    raw.update(0, bch_and_parity((raw[0] | fragment_check_of(raw)) & 0x1FFFFF))
}

/// The transmitted words of an alphanumeric message.
pub open spec fn alpha_words(message_number: u32, chars: Seq<u8>) -> Seq<u32> {
    with_fragment_check(raw_alpha_words(message_number, chars))
}

/// Bounds on the 7-bit value of a character, on the bit groups of a word and
/// on the information bits of a word.
proof fn lemma_group_bounds(c: u8, w: u32)
    by (bit_vector)
    ensures
        c & 0x7F <= 127,
        (w & 0xFF) + ((w >> 8u32) & 0xFF) + ((w >> 16u32) & 0x1F) <= 541,
        w & 0x1FFFFF < 0x200000,
{
}

/// The low bits of a one's complement.
proof fn lemma_complement_low_bits(total: u32)
    by (bit_vector)
    ensures
        (total ^ 0xFFFFFFFF) & 0x7F == 127 - total % 128,
        (total ^ 0xFFFFFFFF) & 0x3FF == 1023 - total % 1024,
{
}

pub proof fn lemma_sum_7bit_bound(chars: Seq<u8>)
    ensures
        sum_7bit(chars) <= 127 * chars.len(),
    decreases chars.len(),
{
    if chars.len() > 0 {
        lemma_sum_7bit_bound(chars.drop_last());
        lemma_group_bounds(chars.last(), 0);
    }
}

pub proof fn lemma_bitgroup_total_bound(codewords: Seq<u32>)
    ensures
        bitgroup_total(codewords) <= 541 * codewords.len(),
    decreases codewords.len(),
{
    if codewords.len() > 0 {
        lemma_bitgroup_total_bound(codewords.drop_last());
        lemma_group_bounds(0, codewords.last());
    }
}

/// An alphanumeric message: header, signature and content words.
pub struct CWMessageAlpha {
    header: CWMessageAlphaHeader,
    signature: CWMessageAlphaSignature,
    content: Vec<CWMessageAlphaContent>,
}

impl CWMessageAlpha {
    /// The message words before the fragment check.
    pub closed spec fn raw_codewords(&self) -> Seq<u32> {
        seq![self.header.spec_codeword(), self.signature.spec_codeword()]
            + self.content@.map_values(|c: CWMessageAlphaContent| c.spec_codeword())
    }

    /// Encodes the characters as a single-fragment message, padded with ETX.
    pub fn new(message_number: u32, chars: &[u8]) -> (r: Result<CWMessageAlpha, &'static str>)
        requires
            message_number <= 63,
            sum_7bit(chars@) <= u32::MAX,
        ensures
            r matches Ok(m) && m.raw_codewords() == raw_alpha_words(message_number, chars@),
    {
        let header = CWMessageAlphaHeader::new(0, 3, message_number, 0, 0).unwrap();
        let mut chars_filled = vstd::slice::slice_to_vec(chars);
        CWMessageAlpha::fill_up_chars(&mut chars_filled);
        let ghost f = chars_filled@;
        let first: [u8; 2] = [chars_filled[0], chars_filled[1]];
        let signature = CWMessageAlphaSignature::new(
            CWMessageAlpha::calculate_signature(chars),
            first.as_slice(),
        ).unwrap();
        let mut content: Vec<CWMessageAlphaContent> = Vec::new();
        let n = (chars_filled.len() - 2) / 3;
        let mut i: usize = 0;
        while i < n
            invariant
                chars_filled@ == f,
                f.len() >= 2,
                n == (f.len() - 2) / 3,
                i <= n,
                content@.len() == i,
                forall|j: int|
                    0 <= j < i ==> (#[trigger] content@[j]).spec_codeword() == content_words_of(
                        f,
                    )[j],
            decreases n - i,
        {
            assert(4 + i * 3 < f.len()) by (nonlinear_arith)
                requires
                    i < n,
                    n == (f.len() - 2) / 3,
                    f.len() >= 2,
            ;
            let len = chars_filled.len();
            assert(len == f.len());
            let k: usize = 2 + i * 3;
            let trio: [u8; 3] = [chars_filled[k], chars_filled[k + 1], chars_filled[k + 2]];
            let word = CWMessageAlphaContent::new(trio.as_slice()).unwrap();
            content.push(word);
            i += 1;
        }
        let m = CWMessageAlpha { header: header, signature: signature, content: content };
        assert(m.raw_codewords() =~= raw_alpha_words(message_number, chars@));
        Ok(m)
    }

    /// Pads with ETX until the length is 2 modulo 3.
    pub fn fill_up_chars(chars: &mut Vec<u8>)
        ensures
            final(chars)@ == filled_chars(old(chars)@),
            final(chars)@.len() % 3 == 2,
    {
        let ghost start = chars@;
        while chars.len() % 3 != 2
            invariant
                chars@.len() >= start.len(),
                chars@ == filled_chars(start).subrange(0, chars@.len() as int),
                chars@.len() <= filled_chars(start).len(),
            decreases (5 - chars@.len() % 3) % 3,
        {
            chars.push(ETX);
        }
        assert(chars@ =~= filled_chars(start));
    }

    /// The one's complement of the 7-bit character sum, modulo 128.
    pub fn calculate_signature(chars: &[u8]) -> (sig: u32)
        requires
            sum_7bit(chars@) <= u32::MAX,
        ensures
            sig == alpha_signature(chars@),
    {
        let mut sum: u32 = 0;
        let mut i: usize = 0;
        while i < chars.len()
            invariant
                i <= chars@.len(),
                sum == sum_7bit(chars@.subrange(0, i as int)),
                sum_7bit(chars@) <= u32::MAX,
            decreases chars@.len() - i,
        {
            proof {
                assert(chars@.subrange(0, (i + 1) as int).drop_last() =~= chars@.subrange(0, i as int));
                lemma_sum_7bit_prefix(chars@, (i + 1) as nat);
            }
            sum += chars[i] as u32 & 0x7F;
            i += 1;
        }
        assert(chars@.subrange(0, chars@.len() as int) =~= chars@);
        let total = sum;
        sum ^= 0xFFFFFFFF;
        proof {
            lemma_complement_low_bits(total);
        }
        sum & 0x7F
    }

    /// The 10-bit fragment check over the given words.
    pub fn calculate_fragment_check(codewords: &Vec<u32>) -> (check: u32)
        requires
            bitgroup_total(codewords@) <= u32::MAX,
        ensures
            check == fragment_check_of(codewords@),
    {
        let mut fragment_check: u32 = 0x00;
        let mut i: usize = 0;
        while i < codewords.len()
            invariant
                i <= codewords@.len(),
                fragment_check == bitgroup_total(codewords@.subrange(0, i as int)),
                bitgroup_total(codewords@) <= u32::MAX,
            decreases codewords@.len() - i,
        {
            proof {
                assert(codewords@.subrange(0, (i + 1) as int).drop_last() =~= codewords@.subrange(
                    0,
                    i as int,
                ));
                lemma_bitgroup_total_prefix(codewords@, (i + 1) as nat);
            }
            fragment_check += CWMessageAlpha::get_bitgroup_sum(codewords[i]);
            i += 1;
        }
        assert(codewords@.subrange(0, codewords@.len() as int) =~= codewords@);
        let total = fragment_check;
        fragment_check ^= 0xFFFFFFFF;
        proof {
            lemma_complement_low_bits(total);
        }
        fragment_check & 0x3FF
    }

    /// Sum of the bit groups 0..7, 8..15 and 16..20 of a word.
    pub fn get_bitgroup_sum(codeword: u32) -> (sum: u32)
        ensures
            sum == bitgroup_sum(codeword),
            sum <= 541,
    {
        proof {
            lemma_group_bounds(0, codeword);
        }
        let mut sum: u32 = 0x0;
        sum += codeword & 0xFF;
        sum += (codeword >> 8) & 0xFF;
        sum += (codeword >> 16) & 0x1F;
        sum
    }

    /// The transmitted words: the fragment check goes into the header.
    pub fn get_codewords(&self) -> (cws: Vec<u32>)
        requires
            bitgroup_total(self.raw_codewords()) <= u32::MAX,
        ensures
            cws@ == with_fragment_check(self.raw_codewords()),
            forall|i: int| 0 <= i < cws@.len() ==> is_valid_flex_word(#[trigger] cws@[i]),
    {
        let mut cws: Vec<u32> = Vec::new();
        cws.push(self.header.get_codeword());
        cws.push(self.signature.get_codeword());
        let mut i: usize = 0;
        while i < self.content.len()
            invariant
                i <= self.content@.len(),
                cws@ == self.raw_codewords().subrange(0, 2 + i),
                forall|j: int| 0 <= j < cws@.len() ==> is_valid_flex_word(#[trigger] cws@[j]),
            decreases self.content@.len() - i,
        {
            let w = self.content[i].get_codeword();
            cws.push(w);
            i += 1;
            assert(cws@ =~= self.raw_codewords().subrange(0, 2 + i));
        }
        assert(cws@ =~= self.raw_codewords());
        let fragment_check = CWMessageAlpha::calculate_fragment_check(&cws);
        let header = cws[0] | fragment_check;
        let first = apply_bch_and_parity(header & 0x1FFFFF);
        proof {
            lemma_group_bounds(0, header);
        }
        cws.set(0, first);
        cws
    }
}

proof fn lemma_sum_7bit_prefix(chars: Seq<u8>, n: nat)
    requires
        n <= chars.len(),
    ensures
        sum_7bit(chars.subrange(0, n as int)) <= sum_7bit(chars),
    decreases chars.len(),
{
    if n < chars.len() {
        assert(chars.drop_last().subrange(0, n as int) =~= chars.subrange(0, n as int));
        lemma_sum_7bit_prefix(chars.drop_last(), n);
    } else {
        assert(chars.subrange(0, n as int) =~= chars);
    }
}

proof fn lemma_bitgroup_total_prefix(codewords: Seq<u32>, n: nat)
    requires
        n <= codewords.len(),
    ensures
        bitgroup_total(codewords.subrange(0, n as int)) <= bitgroup_total(codewords),
    decreases codewords.len(),
{
    if n < codewords.len() {
        assert(codewords.drop_last().subrange(0, n as int) =~= codewords.subrange(0, n as int));
        lemma_bitgroup_total_prefix(codewords.drop_last(), n);
    } else {
        assert(codewords.subrange(0, n as int) =~= codewords);
    }
}

} // verus!
