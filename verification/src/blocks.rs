use vstd::prelude::*;
use crate::codeword::Codeword;
use crate::apply_bch_and_parity::bch_and_parity;
use crate::codewords::address_short::is_short_capcode;
use crate::cw_address_short::{is_raw_short_address, CWAddressShort};
use crate::codewords::biw2::{biw2_word, BIW2};
use crate::codewords::biw3::{biw3_word, BIW3};
use crate::codewords::biw4::{biw4_word, BIW4};
use crate::codewords::cw_message_alpha::{
    alpha_words,
    lemma_bitgroup_total_bound,
    lemma_sum_7bit_bound,
    raw_alpha_words,
    CWMessageAlpha,
};
use crate::codewords::vector_alpha::{vector_alpha_word, CWVectorAlpha};
use crate::cw_biw1::{biw1_word, BIW1};
use crate::interleaver::{interleave_group, interleaved};
use crate::message::{
    content_codeword_count,
    lemma_content_count_matches_encoding,
    message_bytes,
    Message,
};

verus! {

/// Codewords in the eleven blocks of a 1600 bps frame.
pub const CODEWORDS_PER_FRAME_1600: usize = 88;

/// Number of blocks in a 1600 bps frame.
pub const BLOCKS_PER_FRAME_1600: usize = 11;

/// The block information words: BIW 1, and BIW 2 to 4 when the time is sent.
/// Addresses start right after them; vectors start after the addresses.
pub open spec fn biw_words(amount_addresses: nat, send_time: bool) -> Seq<u32> {
    let start_addresses: nat = if send_time { 3 } else { 0 };
    let start_vectors: nat = 1 + start_addresses + amount_addresses;
    let biw1 = biw1_word(0, start_addresses as u32, start_vectors as u32, 0, 0);
    if send_time {
        seq![biw1, biw2_word(0, 0x1), biw3_word(23, 5, 1999), biw4_word(13, 37, 0)]
    } else {
        seq![biw1]
    }
}

/// One short address word per message, carrying its CAPCODE.
pub open spec fn addr_words(msgs: Seq<Message>) -> Seq<u32> {
    Seq::new(msgs.len(), |i: int| bch_and_parity(msgs[i].capcode))
}

/// The content words of one message (message number 0).
pub open spec fn content_of(msg: Message) -> Seq<u32> {
    alpha_words(0, message_bytes(&msg))
}

/// The content words of all messages, one after the other.
pub open spec fn all_content(msgs: Seq<Message>) -> Seq<u32>
    decreases msgs.len(),
{
    if msgs.len() == 0 {
        Seq::empty()
    } else {
        all_content(msgs.drop_last()) + content_of(msgs.last())
    }
}

/// Number of content words counted for the messages.
pub open spec fn count_total(msgs: Seq<Message>) -> nat
    decreases msgs.len(),
{
    if msgs.len() == 0 {
        0
    } else {
        count_total(msgs.drop_last()) + content_codeword_count(message_bytes(&msgs.last()).len())
    }
}

/// One vector word per message, pointing at its content words; `start` is
/// the word where the content of the first message begins.
pub open spec fn vector_words(msgs: Seq<Message>, start: int) -> Seq<u32> {
    Seq::new(
        msgs.len(),
        |i: int|
            vector_alpha_word(
                (start + count_total(msgs.take(i))) as u32,
                content_codeword_count(message_bytes(&msgs[i]).len()) as u32,
            ),
    )
}

/// Every message has a text of two bytes or more, at most 85 content words,
/// and content that starts within words 3..=87 of the frame.
pub open spec fn vectors_fit(msgs: Seq<Message>, start: int) -> bool {
    forall|i: int|
        0 <= i < msgs.len() ==> {
            &&& message_bytes(&#[trigger] msgs[i]).len() >= 2
            &&& content_codeword_count(message_bytes(&msgs[i]).len()) <= 85
            &&& 3 <= start + count_total(msgs.take(i)) <= 87
        }
}

/// The words padded to 88 with alternating all-ones and all-zeros words, the
/// pattern continuing from the position where padding begins.
pub open spec fn filled_block_words(cws: Seq<u32>) -> Seq<u32> {
    if cws.len() >= 88 {
        cws
    } else {
        cws + Seq::new(
            (88 - cws.len()) as nat,
            |i: int| if (cws.len() + i) % 2 == 0 { 0xFFFFFFFFu32 } else { 0u32 },
        )
    }
}

/// The interleaved bytes of the first `k` groups of eight words.
pub open spec fn interleaved_blocks(cws: Seq<u32>, k: nat) -> Seq<u8>
    decreases k,
{
    if k == 0 {
        Seq::empty()
    } else {
        let j = (k - 1) as nat;
        interleaved_blocks(cws, j) + interleaved(cws.subrange(8 * j as int, (8 * j + 8) as int))
    }
}

/// All codewords of a frame's blocks before padding: BIWs, addresses,
/// vectors, then message content.
pub open spec fn block_words(msgs: Seq<Message>, send_time: bool) -> Seq<u32> {
    let biw = biw_words(msgs.len(), send_time);
    biw + addr_words(msgs) + vector_words(msgs, (biw.len() + 2 * msgs.len()) as int) + all_content(msgs)
}

/// The eleven interleaved blocks of a frame.
pub open spec fn blocks_bytes(msgs: Seq<Message>, send_time: bool) -> Seq<u8> {
    interleaved_blocks(filled_block_words(block_words(msgs, send_time)), 11)
}

/// What `Blocks::get_bytes` needs of its messages: short-address CAPCODEs
/// and content that fits the vectors of the frame.
pub open spec fn blocks_encodable(msgs: Seq<Message>, send_time: bool) -> bool {
    &&& forall|i: int| 0 <= i < msgs.len() ==> is_short_capcode(#[trigger] msgs[i].capcode)
    &&& vectors_fit(msgs, (biw_words(msgs.len(), send_time).len() + 2 * msgs.len()) as int)
    &&& msgs.len() <= 88
}

pub proof fn lemma_interleaved_blocks_len(cws: Seq<u32>, k: nat)
    ensures
        interleaved_blocks(cws, k).len() == 32 * k,
    decreases k,
{
    if k > 0 {
        lemma_interleaved_blocks_len(cws, (k - 1) as nat);
    }
}

/// The content words of messages with texts of two bytes or more are as
/// many as counted.
pub proof fn lemma_all_content_len(msgs: Seq<Message>)
    requires
        forall|i: int| 0 <= i < msgs.len() ==> message_bytes(&#[trigger] msgs[i]).len() >= 2,
    ensures
        all_content(msgs).len() == count_total(msgs),
    decreases msgs.len(),
{
    if msgs.len() > 0 {
        let init = msgs.drop_last();
        assert forall|i: int| 0 <= i < init.len() implies message_bytes(&#[trigger] init[i]).len()
            >= 2 by {
            assert(init[i] == msgs[i]);
        }
        lemma_all_content_len(init);
        lemma_content_count_matches_encoding(0, message_bytes(&msgs.last()));
    }
}

/// BIW 1 points the pagers at the first vector word: its vector field
/// (bits 10..15) holds 1 + 3 (when the time is sent) + the number of address
/// words, modulo 64.
pub proof fn lemma_biw1_vector_start(amount_addresses: nat, send_time: bool)
    requires
        amount_addresses <= 0xFFFF_FFF0,
    ensures
        (biw_words(amount_addresses, send_time)[0] >> 10u32) & 0x3F == (1 + (if send_time {
            3int
        } else {
            0int
        }) + amount_addresses) % 64,
        biw_words(amount_addresses, send_time).len() == if send_time { 4int } else { 1int },
{
    let sa: u32 = if send_time { 3 } else { 0 };
    let sv: u32 = (1 + sa + amount_addresses) as u32;
    let info = crate::cw_biw1::biw1_info(0, sa, sv, 0, 0);
    let w = biw_words(amount_addresses, send_time)[0];
    assert(w == crate::apply_checksums::all_checksums(info));
    crate::apply_checksums::lemma_all_checksums_keeps_fields(info);
    assert((w >> 10u32) & 0x3F == sv % 64) by (bit_vector)
        requires
            info == ((0u32 & 0xF) << 4u32) | ((sa & 0x3) << 8u32) | ((sv & 0x3F) << 10u32) | ((0u32
                & 0x3) << 16u32) | ((0u32 & 0x7) << 18u32),
            w & 0x1FFFF0 == info & 0x1FFFF0,
    ;
}

/// Address word `i` carries the CAPCODE of message `i` in its information
/// bits.
pub proof fn lemma_addr_words_carry_capcodes(msgs: Seq<Message>)
    requires
        forall|i: int| 0 <= i < msgs.len() ==> is_raw_short_address(#[trigger] msgs[i].capcode),
    ensures
        addr_words(msgs).len() == msgs.len(),
        forall|i: int|
            0 <= i < msgs.len() ==> #[trigger] addr_words(msgs)[i] & 0x1FFFFF == msgs[i].capcode,
{
    assert forall|i: int| 0 <= i < msgs.len() implies #[trigger] addr_words(msgs)[i] & 0x1FFFFF
        == msgs[i].capcode by {
        let c = msgs[i].capcode;
        crate::apply_bch_and_parity::lemma_bch_and_parity_keeps_info(c);
        assert(c & 0x1FFFFF == c) by (bit_vector)
            requires
                c <= 0x1F27FF,
        ;
    }
}

/// The content words of the first `j` messages come first in the content
/// words of all messages.
proof fn lemma_all_content_prefix(msgs: Seq<Message>, j: int)
    requires
        0 <= j <= msgs.len(),
    ensures
        all_content(msgs.take(j)).len() <= all_content(msgs).len(),
        all_content(msgs).subrange(0, all_content(msgs.take(j)).len() as int) == all_content(
            msgs.take(j),
        ),
    decreases msgs.len(),
{
    if j == msgs.len() {
        assert(msgs.take(j) =~= msgs);
        assert(all_content(msgs).subrange(0, all_content(msgs).len() as int) =~= all_content(msgs));
    } else {
        let init = msgs.drop_last();
        assert(msgs.take(j) =~= init.take(j));
        lemma_all_content_prefix(init, j);
        let a = all_content(init);
        let p = all_content(init.take(j));
        assert((a + content_of(msgs.last())).subrange(0, p.len() as int) =~= a.subrange(
            0,
            p.len() as int,
        ));
    }
}

/// The information bits of an alphanumeric vector word give back its start
/// and length.
proof fn lemma_vector_fields(message_start: u32, message_words: u32)
    requires
        message_start <= 127,
        message_words <= 127,
    ensures
        (vector_alpha_word(message_start, message_words) >> 7u32) & 0x7F == message_start,
        (vector_alpha_word(message_start, message_words) >> 14u32) & 0x7F == message_words,
{
    let info = crate::codewords::vector_alpha::vector_alpha_info(message_start, message_words);
    let w = vector_alpha_word(message_start, message_words);
    crate::apply_checksums::lemma_all_checksums_keeps_fields(info);
    let (a, b) = (message_start, message_words);
    assert((w >> 7u32) & 0x7F == a && (w >> 14u32) & 0x7F == b) by (bit_vector)
        requires
            a <= 127 && b <= 127,
            info == (0x5u32 << 4u32) | (a << 7u32) | (b << 14u32),
            w & 0x1FFFF0 == info & 0x1FFFF0,
    ;
}

/// Vector word `i` points at exactly the words of message `i`.
proof fn lemma_vector_points_at_message(msgs: Seq<Message>, start: int, i: int)
    requires
        vectors_fit(msgs, start),
        0 <= i < msgs.len(),
    ensures
        ({
            let w = vector_words(msgs, start)[i];
            let s = ((w >> 7u32) & 0x7F) - start;
            let n = (w >> 14u32) & 0x7F;
            &&& 0 <= s
            &&& s + n <= all_content(msgs).len()
            &&& all_content(msgs).subrange(s, s + n) == alpha_words(0, message_bytes(&msgs[i]))
        }),
{
    let len = message_bytes(&msgs[i]).len();
    let ms = start + count_total(msgs.take(i));
    let mw = content_codeword_count(len);
    assert(message_bytes(&msgs[i]).len() >= 2);
    let w = vector_words(msgs, start)[i];
    assert(w == vector_alpha_word(ms as u32, mw as u32));
    lemma_vector_fields(ms as u32, mw as u32);
    let before = msgs.take(i);
    let upto = msgs.take(i + 1);
    assert forall|k: int| 0 <= k < before.len() implies message_bytes(&#[trigger] before[k]).len()
        >= 2 by {
        assert(before[k] == msgs[k]);
        assert(message_bytes(&msgs[k]).len() >= 2);
    }
    lemma_all_content_len(before);
    lemma_content_count_matches_encoding(0, message_bytes(&msgs[i]));
    assert(upto.drop_last() =~= before);
    assert(upto.last() == msgs[i]);
    let b = all_content(before);
    let u = all_content(upto);
    assert(u == b + content_of(msgs[i]));
    lemma_all_content_prefix(msgs, i + 1);
    let c = count_total(before) as int;
    assert(u.subrange(c, c + mw) =~= content_of(msgs[i]));
    assert(all_content(msgs).subrange(c, c + mw) =~= u.subrange(c, c + mw));
}

/// Vector word `i` points at exactly the words of message `i`: its start
/// field, counted from `start` (the word where the content begins), and its
/// length field select, in the content words of all messages, the
/// alphanumeric words of message `i`.
pub proof fn lemma_vector_points_at_content(msgs: Seq<Message>, start: int)
    requires
        vectors_fit(msgs, start),
    ensures
        vector_words(msgs, start).len() == msgs.len(),
        forall|i: int|
            0 <= i < msgs.len() ==> {
                let w = #[trigger] vector_words(msgs, start)[i];
                let s = ((w >> 7u32) & 0x7F) - start;
                let n = (w >> 14u32) & 0x7F;
                &&& 0 <= s
                &&& s + n <= all_content(msgs).len()
                &&& all_content(msgs).subrange(s, s + n) == alpha_words(0, message_bytes(&msgs[i]))
            },
{
    assert forall|i: int| 0 <= i < msgs.len() implies {
        let w = #[trigger] vector_words(msgs, start)[i];
        let s = ((w >> 7u32) & 0x7F) - start;
        let n = (w >> 14u32) & 0x7F;
        &&& 0 <= s
        &&& s + n <= all_content(msgs).len()
        &&& all_content(msgs).subrange(s, s + n) == alpha_words(0, message_bytes(&msgs[i]))
    } by {
        lemma_vector_points_at_message(msgs, start, i);
    }
}

/// Block `i` of the bytes is the interleaving of words `8 * i .. 8 * i + 8`.
pub proof fn lemma_interleaved_blocks_group(cws: Seq<u32>, k: nat, i: int)
    requires
        0 <= i < k,
    ensures
        interleaved_blocks(cws, k).len() == 32 * k,
        interleaved_blocks(cws, k).subrange(32 * i, 32 * i + 32) == interleaved(
            cws.subrange(8 * i, 8 * i + 8),
        ),
    decreases k,
{
    let j = (k - 1) as nat;
    lemma_interleaved_blocks_len(cws, k);
    lemma_interleaved_blocks_len(cws, j);
    let head = interleaved_blocks(cws, j);
    let tail = interleaved(cws.subrange(8 * j as int, (8 * j + 8) as int));
    if i == j {
        assert((head + tail).subrange(32 * i, 32 * i + 32) =~= tail);
    } else {
        lemma_interleaved_blocks_group(cws, j, i);
        assert((head + tail).subrange(32 * i, 32 * i + 32) =~= head.subrange(32 * i, 32 * i + 32));
    }
}

/// In the bytes of a frame's blocks, bit `c` of byte `b` of block `i` is bit
/// `b` of word `8 * i + c` of the padded block words.
pub proof fn lemma_blocks_bytes_bits(msgs: Seq<Message>, send_time: bool)
    ensures
        blocks_bytes(msgs, send_time).len() == 352,
        forall|i: int, b: int, c: int|
            0 <= i < 11 && 0 <= b < 32 && 0 <= c < 8 ==> (#[trigger] (blocks_bytes(msgs, send_time)[32
                * i + b] >> (c as u8)) & 1) == ((filled_block_words(block_words(msgs, send_time))[8
                * i + c] >> (b as u32)) & 1) as u8,
{
    let words = filled_block_words(block_words(msgs, send_time));
    lemma_interleaved_blocks_len(words, 11);
    assert forall|i: int, b: int, c: int|
        0 <= i < 11 && 0 <= b < 32 && 0 <= c < 8 implies (#[trigger] (blocks_bytes(msgs, send_time)[32
        * i + b] >> (c as u8)) & 1) == ((words[8 * i + c] >> (b as u32)) & 1) as u8 by {
        lemma_interleaved_blocks_group(words, 11, i);
        let group = words.subrange(8 * i, 8 * i + 8);
        crate::interleaver::lemma_interleaved_bits(group);
        assert(blocks_bytes(msgs, send_time)[32 * i + b] == interleaved(group)[b]);
        assert(((interleaved(group)[b] >> (c as u8)) & 1) == crate::interleaver::input_bit(
            group,
            c,
            b as u32,
        ));
    }
}

/// The block words split into BIWs, addresses, vectors and content.
proof fn lemma_block_words_parts(msgs: Seq<Message>, send_time: bool)
    ensures
        ({
            let bw = block_words(msgs, send_time);
            let n = msgs.len() as int;
            let b = biw_words(msgs.len(), send_time).len() as int;
            &&& bw.len() == b + 2 * n + all_content(msgs).len()
            &&& bw.subrange(0, b) == biw_words(msgs.len(), send_time)
            &&& bw.subrange(b, b + n) == addr_words(msgs)
            &&& bw.subrange(b + n, b + 2 * n) == vector_words(msgs, b + 2 * n)
            &&& bw.subrange(b + 2 * n, bw.len() as int) == all_content(msgs)
        }),
{
    let n = msgs.len() as int;
    let biw = biw_words(msgs.len(), send_time);
    let b = biw.len() as int;
    let addr = addr_words(msgs);
    let vec = vector_words(msgs, b + 2 * n);
    let content = all_content(msgs);
    let bw = block_words(msgs, send_time);
    assert(bw == biw + addr + vec + content);
    assert(bw.subrange(0, b) =~= biw);
    assert(bw.subrange(b, b + n) =~= addr);
    assert(bw.subrange(b + n, b + 2 * n) =~= vec);
    assert(bw.subrange(b + 2 * n, bw.len() as int) =~= content);
}

/// In frame 0, BIWs 2, 3 and 4 follow BIW 1: word types 0, 1 and 2.
proof fn lemma_time_biws(amount_addresses: nat)
    ensures
        (biw_words(amount_addresses, true)[1] >> 4u32) & 0x7 == 0,
        (biw_words(amount_addresses, true)[2] >> 4u32) & 0x7 == 1,
        (biw_words(amount_addresses, true)[3] >> 4u32) & 0x7 == 2,
{
    crate::codewords::biw2::lemma_biw2_fields(0, 0x1);
    crate::codewords::biw3::lemma_biw3_fields(23, 5, 1999);
    crate::codewords::biw4::lemma_biw4_fields(13, 37, 0);
}

/// Messages that fit the vectors of a frame are at most 43.
proof fn lemma_encodable_count(msgs: Seq<Message>, send_time: bool)
    requires
        blocks_encodable(msgs, send_time),
    ensures
        msgs.len() <= 43,
{
    if msgs.len() > 0 {
        let start = (biw_words(msgs.len(), send_time).len() + 2 * msgs.len()) as int;
        assert(vectors_fit(msgs, start));
        assert(msgs.take(0) =~= Seq::<Message>::empty());
        assert(message_bytes(&msgs[0]).len() >= 2);
        assert(start + count_total(msgs.take(0)) <= 87);
    }
}

/// BIW 1 points at the first vector word, just after the BIWs and the
/// address words; in frame 0, BIWs 2, 3 and 4 (word types 0, 1 and 2)
/// follow BIW 1.
pub proof fn lemma_block_words_biws(msgs: Seq<Message>, send_time: bool)
    requires
        blocks_encodable(msgs, send_time),
    ensures
        ({
            let bw = block_words(msgs, send_time);
            let b = biw_words(msgs.len(), send_time).len() as int;
            &&& b == if send_time { 4int } else { 1int }
            &&& (bw[0] >> 10u32) & 0x3F == b + msgs.len()
            &&& send_time ==> (bw[1] >> 4u32) & 0x7 == 0 && (bw[2] >> 4u32) & 0x7 == 1 && (bw[3]
                >> 4u32) & 0x7 == 2
        }),
{
    let n = msgs.len();
    let biw = biw_words(n, send_time);
    let b = biw.len() as int;
    let bw = block_words(msgs, send_time);
    lemma_encodable_count(msgs, send_time);
    lemma_block_words_parts(msgs, send_time);
    lemma_biw1_vector_start(n, send_time);
    assert(bw[0] == bw.subrange(0, b)[0]);
    if send_time {
        lemma_time_biws(n);
        assert(bw[1] == bw.subrange(0, b)[1]);
        assert(bw[2] == bw.subrange(0, b)[2]);
        assert(bw[3] == bw.subrange(0, b)[3]);
    }
}

/// Address word `i` carries the CAPCODE of message `i`, and vector word `i`
/// points at exactly the alphanumeric words of message `i`, which come after
/// all vector words.
pub proof fn lemma_block_words_messages(msgs: Seq<Message>, send_time: bool)
    requires
        blocks_encodable(msgs, send_time),
    ensures
        ({
            let bw = block_words(msgs, send_time);
            let n = msgs.len() as int;
            let b = biw_words(msgs.len(), send_time).len() as int;
            &&& forall|i: int|
                0 <= i < n ==> #[trigger] bw.subrange(b, b + n)[i] & 0x1FFFFF == msgs[i].capcode
            &&& forall|i: int|
                0 <= i < n ==> {
                    let w = #[trigger] bw.subrange(b + n, b + 2 * n)[i];
                    let s = (w >> 7u32) & 0x7F;
                    let l = (w >> 14u32) & 0x7F;
                    &&& b + 2 * n <= s
                    &&& s + l <= bw.len()
                    &&& bw.subrange(s as int, s + l) == alpha_words(0, message_bytes(&msgs[i]))
                }
        }),
{
    let n = msgs.len() as int;
    let b = biw_words(msgs.len(), send_time).len() as int;
    let start = b + 2 * n;
    let content = all_content(msgs);
    let bw = block_words(msgs, send_time);
    lemma_block_words_parts(msgs, send_time);
    assert forall|i: int| 0 <= i < n implies is_raw_short_address(#[trigger] msgs[i].capcode) by {
        assert(is_short_capcode(msgs[i].capcode));
    }
    lemma_addr_words_carry_capcodes(msgs);
    lemma_vector_points_at_content(msgs, start);
    assert forall|i: int| 0 <= i < n implies {
        let w = #[trigger] bw.subrange(b + n, b + 2 * n)[i];
        let s = (w >> 7u32) & 0x7F;
        let l = (w >> 14u32) & 0x7F;
        &&& b + 2 * n <= s
        &&& s + l <= bw.len()
        &&& bw.subrange(s as int, s + l) == alpha_words(0, message_bytes(&msgs[i]))
    } by {
        let w = vector_words(msgs, start)[i];
        let s = (w >> 7u32) & 0x7F;
        let l = (w >> 14u32) & 0x7F;
        let off = s - start;
        assert(content.subrange(off, off + l) == alpha_words(0, message_bytes(&msgs[i])));
        assert(bw.subrange(s as int, s + l) =~= bw.subrange(start, bw.len() as int).subrange(
            off,
            off + l,
        ));
        assert(bw.subrange(s as int, s + l) =~= content.subrange(off, off + l));
    }
}

/// Padding keeps the block words in front and brings them to 88.
pub proof fn lemma_filled_keeps_words(cws: Seq<u32>)
    requires
        cws.len() <= 88,
    ensures
        filled_block_words(cws).len() == 88,
        filled_block_words(cws).subrange(0, cws.len() as int) == cws,
{
    assert(filled_block_words(cws).subrange(0, cws.len() as int) =~= cws);
}

fn append_words(dst: &mut Vec<u32>, src: &Vec<u32>)
    ensures
        final(dst)@ == old(dst)@ + src@,
{
    let mut i: usize = 0;
    while i < src.len()
        invariant
            i <= src@.len(),
            dst@ == old(dst)@ + src@.subrange(0, i as int),
        decreases src@.len() - i,
    {
        dst.push(src[i]);
        i += 1;
        assert(dst@ =~= old(dst)@ + src@.subrange(0, i as int));
    }
    assert(src@.subrange(0, src@.len() as int) =~= src@);
}

/// The eleven blocks of a 1600 bps frame.
pub struct Blocks {}

impl Blocks {
    /// Builds the codewords of a frame's blocks, pads them to 88 and
    /// interleaves them into eleven blocks of 32 bytes.
    pub fn get_bytes(msgs: &Vec<Message>, send_time: bool) -> (bytes: Vec<u8>)
        requires
            blocks_encodable(msgs@, send_time),
        ensures
            bytes@ == blocks_bytes(msgs@, send_time),
            bytes@.len() == 352,
            forall|i: int, b: int, c: int|
                0 <= i < 11 && 0 <= b < 32 && 0 <= c < 8 ==> (#[trigger] (bytes@[32 * i + b] >> (
                c as u8)) & 1) == ((filled_block_words(block_words(msgs@, send_time))[8 * i + c] >> (
                b as u32)) & 1) as u8,
    {
        proof {
            lemma_blocks_bytes_bits(msgs@, send_time);
        }
        let amount_address_cws = Blocks::count_address_cws(msgs);
        let biw_cws = Blocks::get_biw_cws(amount_address_cws, send_time);
        let addr_cws = Blocks::get_addr_cws(msgs);
        let (vector_cws, content_cws) = Blocks::get_vector_and_content_cws(
            msgs,
            biw_cws.len(),
            addr_cws.len(),
        );
        let mut cws: Vec<u32> = Vec::new();
        append_words(&mut cws, &biw_cws);
        append_words(&mut cws, &addr_cws);
        append_words(&mut cws, &vector_cws);
        append_words(&mut cws, &content_cws);
        assert(cws@ =~= block_words(msgs@, send_time));
        cws = Blocks::fill_up_block_1600(&cws);
        let ghost words = cws@;
        let mut bytes: Vec<u8> = Vec::new();
        let mut i: usize = 0;
        while i < 11
            invariant
                cws@ == words,
                words.len() >= 88,
                i <= 11,
                bytes@ == interleaved_blocks(words, i as nat),
            decreases 11 - i,
        {
            let group = vstd::slice::slice_subrange(cws.as_slice(), i * 8, (i + 1) * 8);
            let block = Blocks::interleave_codewords_1600(group);
            let mut j: usize = 0;
            let ghost before = bytes@;
            while j < 32
                invariant
                    j <= 32,
                    block@.len() == 32,
                    bytes@ == before + block@.subrange(0, j as int),
                decreases 32 - j,
            {
                bytes.push(block[j]);
                j += 1;
                assert(bytes@ =~= before + block@.subrange(0, j as int));
            }
            assert(block@.subrange(0, 32) =~= block@);
            i += 1;
        }
        proof {
            lemma_interleaved_blocks_len(words, 11);
        }
        bytes
    }

    /// Only short addresses are supported: one address word per message.
    pub fn count_address_cws(msgs: &Vec<Message>) -> (n: usize)
        ensures
            n == msgs@.len(),
    {
        msgs.len()
    }

    /// BIW 1, followed by BIW 2 to 4 when the time is sent.
    pub fn get_biw_cws(amount_addresses: usize, send_time: bool) -> (cws: Vec<u32>)
        requires
            amount_addresses <= usize::MAX - 4,
        ensures
            cws@ == biw_words(amount_addresses as nat, send_time),
            amount_addresses <= 0xFFFF_FFF0 ==> (cws@[0] >> 10u32) & 0x3F == (1 + (if send_time {
                3int
            } else {
                0int
            }) + amount_addresses) % 64,
    {
        proof {
            if amount_addresses <= 0xFFFF_FFF0 {
                lemma_biw1_vector_start(amount_addresses as nat, send_time);
            }
        }
        let mut startword_addresses: usize = 0;
        if send_time {
            startword_addresses = 3;
        }
        let startword_vectors = 1 + startword_addresses + amount_addresses;
        let biw1 = BIW1::new(0, startword_addresses as u32, startword_vectors as u32, 0, 0).unwrap();
        let mut biw_cws: Vec<u32> = Vec::new();
        biw_cws.push(biw1.get_codeword());
        if send_time {
            let biw2 = BIW2::new(0, 0x1).unwrap();
            let biw3 = BIW3::new(23, 5, 1999).unwrap();
            let biw4 = BIW4::new(13, 37, 0).unwrap();
            biw_cws.push(biw2.get_codeword());
            biw_cws.push(biw3.get_codeword());
            biw_cws.push(biw4.get_codeword());
        }
        assert(biw_cws@ =~= biw_words(amount_addresses as nat, send_time));
        biw_cws
    }

    /// The short address word of each message.
    pub fn get_addr_cws(msgs: &Vec<Message>) -> (cws: Vec<u32>)
        requires
            forall|i: int| 0 <= i < msgs@.len() ==> is_raw_short_address(#[trigger] msgs@[i].capcode),
        ensures
            cws@ == addr_words(msgs@),
            forall|i: int| 0 <= i < msgs@.len() ==> #[trigger] cws@[i] & 0x1FFFFF == msgs@[i].capcode,
    {
        proof {
            lemma_addr_words_carry_capcodes(msgs@);
        }
        let mut addr_cws: Vec<u32> = Vec::new();
        let mut i: usize = 0;
        while i < msgs.len()
            invariant
                i <= msgs@.len(),
                forall|k: int| 0 <= k < msgs@.len() ==> is_raw_short_address(#[trigger] msgs@[k].capcode),
                addr_cws@ == addr_words(msgs@).subrange(0, i as int),
            decreases msgs@.len() - i,
        {
            let address = CWAddressShort::new(msgs[i].capcode).unwrap();
            addr_cws.push(address.get_codeword());
            i += 1;
            assert(addr_cws@ =~= addr_words(msgs@).subrange(0, i as int));
        }
        assert(addr_cws@ =~= addr_words(msgs@));
        addr_cws
    }

    /// The vector word and the content words of each message; the content of
    /// the first message starts after the BIWs, addresses and vectors.
    pub fn get_vector_and_content_cws(
        msgs: &Vec<Message>,
        biw_cws_size: usize,
        addr_cws_size: usize,
    ) -> (r: (Vec<u32>, Vec<u32>))
        requires
            biw_cws_size + 2 * addr_cws_size <= usize::MAX,
            vectors_fit(msgs@, biw_cws_size + 2 * addr_cws_size),
        ensures
            r.0@ == vector_words(msgs@, biw_cws_size + 2 * addr_cws_size),
            r.1@ == all_content(msgs@),
            r.0@.len() == msgs@.len(),
            forall|i: int|
                0 <= i < msgs@.len() ==> {
                    let s = ((#[trigger] r.0@[i] >> 7u32) & 0x7F) - (biw_cws_size + 2 * addr_cws_size);
                    let n = (r.0@[i] >> 14u32) & 0x7F;
                    &&& 0 <= s
                    &&& s + n <= r.1@.len()
                    &&& r.1@.subrange(s, s + n) == alpha_words(0, message_bytes(&msgs@[i]))
                },
    {
        proof {
            lemma_vector_points_at_content(msgs@, biw_cws_size + 2 * addr_cws_size);
        }
        let biw_addr_vector_cws_size = biw_cws_size + 2 * addr_cws_size;
        let ghost start = biw_addr_vector_cws_size as int;
        let mut vector_cws: Vec<u32> = Vec::new();
        let mut content_cws: Vec<u32> = Vec::new();
        let mut i: usize = 0;
        while i < msgs.len()
            invariant
                i <= msgs@.len(),
                start == biw_addr_vector_cws_size,
                vectors_fit(msgs@, start),
                vector_cws@ == vector_words(msgs@, start).subrange(0, i as int),
                content_cws@ == all_content(msgs@.take(i as int)),
                content_cws@.len() == count_total(msgs@.take(i as int)),
            decreases msgs@.len() - i,
        {
            let msg = &msgs[i];
            assert(msgs@.take(i + 1).drop_last() =~= msgs@.take(i as int));
            assert(msgs@.take(i + 1).last() == msgs@[i as int]);
            let content_start = biw_addr_vector_cws_size + content_cws.len();
            let content_words = msg.get_num_of_content_codewords() as u32;
            let vector = CWVectorAlpha::new(content_start as u32, content_words).unwrap();
            vector_cws.push(vector.get_codeword());
            let bytes = msg.data.as_str().as_bytes();
            let ghost len = message_bytes(msg).len();
            proof {
                assert(len <= 251) by (nonlinear_arith)
                    requires
                        len >= 2,
                        content_codeword_count(len) <= 85,
                        content_codeword_count(len) == (2 + (len - 2) / 3 + if (len - 2) % 3
                            > 0 {
                            1int
                        } else {
                            0int
                        }) as nat,
                ;
                lemma_sum_7bit_bound(bytes@);
                lemma_content_count_matches_encoding(0, bytes@);
            }
            let content = CWMessageAlpha::new(0, bytes).unwrap();
            proof {
                lemma_bitgroup_total_bound(raw_alpha_words(0, bytes@));
            }
            let words = content.get_codewords();
            append_words(&mut content_cws, &words);
            i += 1;
            assert(vector_cws@ =~= vector_words(msgs@, start).subrange(0, i as int));
        }
        assert(vector_cws@ =~= vector_words(msgs@, start));
        assert(msgs@.take(msgs@.len() as int) =~= msgs@);
        (vector_cws, content_cws)
    }

    /// Pads to 88 words with alternating all-ones and all-zeros words.
    pub fn fill_up_block_1600(cws: &Vec<u32>) -> (filled: Vec<u32>)
        ensures
            filled@ == filled_block_words(cws@),
            filled@.len() >= 88,
    {
        let mut filled_cws: Vec<u32> = Vec::new();
        append_words(&mut filled_cws, cws);
        while filled_cws.len() < 88
            invariant
                filled_cws@.len() >= cws@.len(),
                filled_cws@.len() < 88 ==> filled_cws@ == filled_block_words(cws@).subrange(
                    0,
                    filled_cws@.len() as int,
                ),
                filled_cws@.len() >= 88 ==> filled_cws@ == filled_block_words(cws@),
            decreases 88 - filled_cws@.len(),
        {
            if filled_cws.len() % 2 == 0 {
                filled_cws.push(0xFFFFFFFF);
            } else {
                filled_cws.push(0x0);
            }
            assert(filled_cws@ =~= filled_block_words(cws@).subrange(0, filled_cws@.len() as int));
        }
        filled_cws
    }

    /// Interleaves a group of exactly eight codewords into 32 bytes.
    pub fn interleave_codewords_1600(input: &[u32]) -> (output: [u8; 32])
        requires
            input@.len() == 8,
        ensures
            output@ == interleaved(input@),
    {
        interleave_group(input)
    }
}

} // verus!
