use vstd::prelude::*;
use crate::blocks::{
    all_content,
    biw_words,
    blocks_bytes,
    blocks_encodable,
    count_total,
    vectors_fit,
    Blocks,
};
use crate::codeword::Codeword;
use crate::codewords::address_short::is_short_capcode;
use crate::cw_fiw::{fiw_word, FIW};
use crate::message::{
    content_codeword_count,
    is_encodable,
    message_bytes,
    message_codeword_count,
    Message,
};

verus! {

/// Bit sync 1.
pub const PATTERN_BS1: u32 = 0x55555555;

/// Sync word A1: 1600 bps, 2-level FSK.
pub const PATTERN_A1: u32 = 0x9C9ACF1E;

/// Frame sync B.
pub const PATTERN_B: u16 = 0xAAAA;

/// Bit sync 2 (four bits).
pub const PATTERN_BS2: u8 = 0x05;

/// Sync word C.
pub const PATTERN_C: u16 = 0x21B7;

/// A frame holds fewer codewords than this.
pub const MAX_CODEWORDS_PER_BLOCK_1600: usize = 88;

/// The bytes of a 32-bit value, least significant first.
pub open spec fn le_bytes32(value: u32) -> Seq<u8> {
    seq![
        (value & 0xFF) as u8,
        ((value >> 8u32) & 0xFF) as u8,
        ((value >> 16u32) & 0xFF) as u8,
        ((value >> 24u32) & 0xFF) as u8,
    ]
}

/// The bytes of a 16-bit value, least significant first.
pub open spec fn le_bytes16(value: u16) -> Seq<u8> {
    seq![(value & 0xFF) as u8, ((value >> 8u16) & 0xFF) as u8]
}

/// Sync 1: bit sync, A1, B and the complement of A1, least significant byte
/// first.
pub open spec fn sync1_bytes() -> Seq<u8> {
    le_bytes32(PATTERN_BS1) + le_bytes32(PATTERN_A1) + le_bytes16(PATTERN_B) + le_bytes32(
        PATTERN_A1 ^ 0xFFFFFFFF,
    )
}

/// Sync 2 as a 40-bit value: BS2 in bits 0..3, C in 4..19, the complement of
/// BS2 in 20..23 and the complement of C in 24..39.
pub open spec fn sync2_value() -> u64 {
    ((PATTERN_BS2 & 0xF) as u64) | ((PATTERN_C as u64) << 4u64) | ((((PATTERN_BS2 ^ 0xF) & 0xF)
        as u64) << 20u64) | (((PATTERN_C ^ 0xFFFF) as u64) << 24u64)
}

/// Sync 2: its 40-bit value in five bytes, least significant first.
pub open spec fn sync2_bytes() -> Seq<u8> {
    let v = sync2_value();
    seq![
        (v & 0xFF) as u8,
        ((v >> 8u64) & 0xFF) as u8,
        ((v >> 16u64) & 0xFF) as u8,
        ((v >> 24u64) & 0xFF) as u8,
        ((v >> 32u64) & 0xFF) as u8,
    ]
}

/// The frame header: sync 1, the frame information word, sync 2.
pub open spec fn header_bytes(fiw_codeword: u32) -> Seq<u8> {
    sync1_bytes() + le_bytes32(fiw_codeword) + sync2_bytes()
}

/// The codewords counted for the block information words: BIW 1, and BIW 2
/// to 4 in frame 0, which carries the time.
pub open spec fn biw_count(send_time: bool) -> nat {
    if send_time { 4 } else { 1 }
}

/// All the words the messages take: address, vector and content each.
pub open spec fn msg_total(msgs: Seq<Message>) -> nat
    decreases msgs.len(),
{
    if msgs.len() == 0 {
        0
    } else {
        msg_total(msgs.drop_last()) + message_codeword_count(&msgs.last())
    }
}

/// Everything a frame sends: header and eleven interleaved blocks.
pub open spec fn frame_bytes(cycle_number: u32, frame_number: u32, msgs: Seq<Message>) -> Seq<u8> {
    header_bytes(fiw_word(cycle_number, frame_number, 0, 0)) + blocks_bytes(msgs, frame_number == 0)
}

/// One FLEX frame at 1600 bps and the messages it carries.
pub struct Frame {
    fiw: FIW,
    num_cws: usize,
    send_time: bool,
    msgs: Vec<Message>,
}

impl Frame {
    /// The cycle (0..14) and frame (0..127) number of the frame.
    pub closed spec fn cycle_and_frame(&self) -> (u32, u32) {
        self.fiw.cycle_and_frame()
    }

    /// The messages, in the order they were added.
    pub closed spec fn messages(&self) -> Seq<Message> {
        self.msgs@
    }

    /// The codewords the frame uses: its BIWs and all message words.
    pub closed spec fn codeword_count(&self) -> nat {
        self.num_cws as nat
    }

    /// What a frame keeps: its codeword count stays below 88 and matches its
    /// messages, which all can be encoded, and frame 0 carries the time.
    pub closed spec fn wf(&self) -> bool {
        &&& self.send_time == (self.fiw.cycle_and_frame().1 == 0)
        &&& self.fiw.flags() == 0
        &&& self.fiw.spec_codeword() == fiw_word(
            self.fiw.cycle_and_frame().0,
            self.fiw.cycle_and_frame().1,
            0,
            0,
        )
        &&& self.num_cws == biw_count(self.send_time) + msg_total(self.msgs@)
        &&& self.num_cws < MAX_CODEWORDS_PER_BLOCK_1600
        &&& forall|i: int| 0 <= i < self.msgs@.len() ==> is_encodable(&#[trigger] self.msgs@[i])
    }

    /// What a well-formed frame keeps: its codeword count is that of its BIWs
    /// and messages and stays below 88, and every message can be encoded.
    pub proof fn lemma_wf_counts(&self)
        requires
            self.wf(),
        ensures
            self.codeword_count() == biw_count(self.cycle_and_frame().1 == 0) + msg_total(
                self.messages(),
            ),
            self.codeword_count() < MAX_CODEWORDS_PER_BLOCK_1600,
            forall|i: int|
                0 <= i < self.messages().len() ==> is_encodable(&#[trigger] self.messages()[i]),
    {
    }

    /// The bytes this frame sends.
    pub open spec fn spec_bytes(&self) -> Seq<u8> {
        frame_bytes(self.cycle_and_frame().0, self.cycle_and_frame().1, self.messages())
    }

    /// An empty frame; frame 0 of a cycle also carries the time (BIW 2 to 4).
    pub fn new(cycle_number: u32, frame_number: u32) -> (r: Result<Frame, &'static str>)
        requires
            cycle_number <= 14,
            frame_number <= 127,
        ensures
            r matches Ok(f) && f.wf() && f.cycle_and_frame() == (cycle_number, frame_number)
                && f.messages() == Seq::<Message>::empty() && f.codeword_count() == biw_count(
                frame_number == 0,
            ),
    {
        let fiw = FIW::new(cycle_number, frame_number, 0, 0x00).unwrap();
        let mut num_cws: usize = 1;
        let mut send_time = false;
        if frame_number == 0 {
            send_time = true;
            num_cws += 3;
        }
        Ok(Frame { fiw: fiw, num_cws: num_cws, send_time, msgs: Vec::new() })
    }

    /// The cycle and frame being sent at a time of the hour: 15 cycles of four
    /// minutes, each of 128 frames of 1.875 seconds.
    pub fn calculate_cycle_and_frame(minute: u32, second: u32) -> (r: (u32, u32))
        requires
            minute < 60,
            second < 60,
        ensures
            r.0 == minute / 4,
            r.1 == ((minute % 4) * 60 + second) * 8 / 15,
            r.0 <= 14,
            r.1 <= 127,
    {
        let cycle_number = minute / 4;
        let elapsed = (minute % 4) * 60 + second;
        let frame_number = elapsed * 8 / 15;
        (cycle_number, frame_number)
    }

    /// Codewords still free in the frame.
    pub fn space_left(&self) -> (n: usize)
        requires
            self.wf(),
        ensures
            n == MAX_CODEWORDS_PER_BLOCK_1600 - self.codeword_count(),
    {
        MAX_CODEWORDS_PER_BLOCK_1600 - self.num_cws
    }

    /// Sync 1: bit sync, A1, B and the complement of A1, each least
    /// significant byte first.
    pub fn get_sync1() -> (sync1: Vec<u8>)
        ensures
            sync1@ == sync1_bytes(),
    {
        let mut sync1: Vec<u8> = Vec::new();
        append_bytes(&mut sync1, Frame::u32_to_4_u8(PATTERN_BS1).as_slice());
        append_bytes(&mut sync1, Frame::u32_to_4_u8(PATTERN_A1).as_slice());
        append_bytes(&mut sync1, Frame::u16_to_2_u8(PATTERN_B).as_slice());
        append_bytes(&mut sync1, Frame::u32_to_4_u8(PATTERN_A1 ^ 0xFFFFFFFF).as_slice());
        assert(sync1@ =~= sync1_bytes());
        sync1
    }

    /// Sync 2: BS2, C, the complement of BS2 and the complement of C packed
    /// into 40 bits, least significant byte first.
    pub fn get_sync2() -> (sync2: Vec<u8>)
        ensures
            sync2@ == sync2_bytes(),
    {
        let mut sync2: Vec<u8> = Vec::new();
        let mut tmp: u32 = 0x0;
        tmp |= (PATTERN_BS2 & 0xF) as u32;
        tmp |= (PATTERN_C as u32) << 4;
        tmp |= (((PATTERN_BS2 ^ 0xF) & 0xF) as u32) << 20;
        tmp |= ((PATTERN_C ^ 0xFFFF) as u32) << 24;
        append_bytes(&mut sync2, Frame::u32_to_4_u8(tmp).as_slice());
        sync2.push(((PATTERN_C ^ 0xFFFF) >> 8) as u8);
        proof {
            lemma_sync2_bytes(tmp, sync2@);
        }
        sync2
    }

    /// Sync 1, the frame information word and sync 2.
    pub fn get_header(&self) -> (header: Vec<u8>)
        requires
            self.wf(),
        ensures
            header@ == header_bytes(fiw_word(self.cycle_and_frame().0, self.cycle_and_frame().1, 0, 0)),
    {
        let mut header: Vec<u8> = Vec::new();
        let sync1 = Frame::get_sync1();
        append_bytes(&mut header, sync1.as_slice());
        append_bytes(&mut header, Frame::u32_to_4_u8(self.fiw.get_codeword()).as_slice());
        let sync2 = Frame::get_sync2();
        append_bytes(&mut header, sync2.as_slice());
        assert(header@ =~= header_bytes(
            fiw_word(self.cycle_and_frame().0, self.cycle_and_frame().1, 0, 0),
        ));
        header
    }

    /// The header followed by the eleven interleaved blocks.
    pub fn get_bytes(&self) -> (bytes: Vec<u8>)
        requires
            self.wf(),
        ensures
            bytes@ == self.spec_bytes(),
            bytes@ == frame_bytes(self.cycle_and_frame().0, self.cycle_and_frame().1, self.messages()),
            bytes@.len() == 375,
    {
        let mut bytes: Vec<u8> = Vec::new();
        let header = self.get_header();
        append_bytes(&mut bytes, header.as_slice());
        proof {
            self.lemma_wf_blocks_encodable();
        }
        let blocks = Blocks::get_bytes(&self.msgs, self.send_time);
        append_bytes(&mut bytes, blocks.as_slice());
        bytes
    }

    /// Adds the message when the frame keeps fewer than 88 codewords with it;
    /// returns the new codeword count.
    pub fn add_message(&mut self, msg: Message) -> (r: Result<usize, &'static str>)
        requires
            old(self).wf(),
            is_encodable(&msg),
        ensures
            final(self).wf(),
            final(self).cycle_and_frame() == old(self).cycle_and_frame(),
            old(self).codeword_count() + message_codeword_count(&msg) < 88 ==> {
                &&& r == Ok::<usize, &'static str>(
                    (old(self).codeword_count() + message_codeword_count(&msg)) as usize,
                )
                &&& final(self).messages() == old(self).messages().push(msg)
                &&& final(self).codeword_count() == old(self).codeword_count()
                    + message_codeword_count(&msg)
            },
            old(self).codeword_count() + message_codeword_count(&msg) >= 88 ==> {
                &&& r == Err::<usize, &'static str>("could not add message to frame")
                &&& final(self).messages() == old(self).messages()
                &&& final(self).codeword_count() == old(self).codeword_count()
            },
    {
        let size_new_msg = msg.get_num_of_message_codewords().unwrap();
        let sum = size_new_msg + self.num_cws;
        if sum < MAX_CODEWORDS_PER_BLOCK_1600 {
            let ghost before = self.msgs@;
            self.msgs.push(msg);
            self.num_cws = sum;
            assert(self.msgs@.drop_last() =~= before);
            return Ok(sum);
        }
        Err("could not add message to frame")
    }

    /// The four bytes of a 32-bit value, least significant first.
    pub fn u32_to_4_u8(var: u32) -> (array: [u8; 4])
        ensures
            array@ == le_bytes32(var),
    {
        let mut array: [u8; 4] = [0; 4];
        array[0] = (var & 0xFF) as u8;
        array[1] = (var >> 8 & 0xFF) as u8;
        array[2] = (var >> 16 & 0xFF) as u8;
        array[3] = (var >> 24 & 0xFF) as u8;
        assert(array@ =~= le_bytes32(var));
        array
    }

    /// The two bytes of a 16-bit value, least significant first.
    pub fn u16_to_2_u8(var: u16) -> (array: [u8; 2])
        ensures
            array@ == le_bytes16(var),
    {
        let mut array: [u8; 2] = [0; 2];
        array[0] = (var & 0xFF) as u8;
        array[1] = (var >> 8 & 0xFF) as u8;
        assert(array@ =~= le_bytes16(var));
        array
    }
}

fn append_bytes(dst: &mut Vec<u8>, src: &[u8])
    ensures
        final(dst)@ == old(dst)@ + src@,
{
    let mut i: usize = 0;
    while i < src.len()
        invariant
            i <= src@.len(),
            dst@ == old(dst)@ + src@.subrange(0, i as int),
        decreases src@.len() - i,
    {
        dst.push(src[i]);
        i += 1;
        assert(dst@ =~= old(dst)@ + src@.subrange(0, i as int));
    }
    assert(src@.subrange(0, src@.len() as int) =~= src@);
}

proof fn lemma_msg_total(msgs: Seq<Message>)
    ensures
        msg_total(msgs) == 2 * msgs.len() + count_total(msgs),
    decreases msgs.len(),
{
    if msgs.len() > 0 {
        lemma_msg_total(msgs.drop_last());
    }
}

proof fn lemma_count_total_prefix(msgs: Seq<Message>, i: int)
    requires
        0 <= i < msgs.len(),
    ensures
        count_total(msgs.take(i)) + content_codeword_count(message_bytes(&msgs[i]).len())
            <= count_total(msgs),
    decreases msgs.len(),
{
    let init = msgs.drop_last();
    if i == msgs.len() - 1 {
        assert(msgs.take(i) =~= init);
    } else {
        assert(msgs.take(i) =~= init.take(i));
        assert(init[i] == msgs[i]);
        lemma_count_total_prefix(init, i);
    }
}

impl Frame {
    /// A well-formed frame's messages fit the vectors and blocks of a frame.
    proof fn lemma_wf_blocks_encodable(&self)
        requires
            self.wf(),
        ensures
            blocks_encodable(self.msgs@, self.send_time),
    {
        let msgs = self.msgs@;
        let n = msgs.len();
        let base = biw_count(self.send_time);
        lemma_msg_total(msgs);
        assert(biw_words(n, self.send_time).len() == base);
        assert forall|i: int| 0 <= i < n implies is_short_capcode(#[trigger] msgs[i].capcode) by {
            assert(is_encodable(&msgs[i]));
        }
        assert forall|i: int| 0 <= i < n implies {
            &&& message_bytes(&#[trigger] msgs[i]).len() >= 2
            &&& content_codeword_count(message_bytes(&msgs[i]).len()) <= 85
            &&& 3 <= (base + 2 * n) + count_total(msgs.take(i)) <= 87
        } by {
            assert(is_encodable(&msgs[i]));
            lemma_count_total_prefix(msgs, i);
        }
        assert(vectors_fit(msgs, (base + 2 * n) as int));
    }
}

proof fn lemma_sync2_bytes(tmp: u32, bytes: Seq<u8>)
    requires
        tmp == ((((0u32 | ((PATTERN_BS2 & 0xF) as u32)) | ((PATTERN_C as u32) << 4u32)) | ((((PATTERN_BS2
            ^ 0xF) & 0xF) as u32) << 20u32)) | (((PATTERN_C ^ 0xFFFF) as u32) << 24u32)),
        bytes == le_bytes32(tmp).push(((PATTERN_C ^ 0xFFFF) >> 8u16) as u8),
    ensures
        bytes == sync2_bytes(),
{
    let v = sync2_value();
    assert((tmp & 0xFF) as u8 == (v & 0xFF) as u8 && ((tmp >> 8u32) & 0xFF) as u8 == ((v >> 8u64)
        & 0xFF) as u8 && ((tmp >> 16u32) & 0xFF) as u8 == ((v >> 16u64) & 0xFF) as u8 && ((tmp
        >> 24u32) & 0xFF) as u8 == ((v >> 24u64) & 0xFF) as u8 && ((0x21B7u16 ^ 0xFFFF) >> 8u16)
        as u8 == ((v >> 32u64) & 0xFF) as u8) by (bit_vector)
        requires
            tmp == ((((0u32 | ((0x05u8 & 0xF) as u32)) | ((0x21B7u16 as u32) << 4u32)) | ((((0x05u8
                ^ 0xF) & 0xF) as u32) << 20u32)) | (((0x21B7u16 ^ 0xFFFF) as u32) << 24u32)),
            v == ((0x05u8 & 0xF) as u64) | ((0x21B7u16 as u64) << 4u64) | ((((0x05u8 ^ 0xF) & 0xF)
                as u64) << 20u64) | (((0x21B7u16 ^ 0xFFFF) as u64) << 24u64),
    ;
    assert(bytes =~= sync2_bytes());
}

} // verus!
