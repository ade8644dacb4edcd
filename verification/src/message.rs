use vstd::prelude::*;
use vstd::utf8::encode_utf8;
use crate::codewords::address_short::is_short_capcode;
use crate::codewords::cw_message_alpha::{alpha_words, fill_count, filled_chars};

verus! {

/// Kind of message content.
#[derive(Debug, Clone, Copy)]
pub enum MessageType {
    AlphaNum,
}

/// Kind of address a CAPCODE needs.
#[derive(Debug, PartialEq, Eq, Structural)]
pub enum CapcodeType {
    ShortAddress,
    Invalid,
}

/// A page to send: the frame it goes in, its kind, the pager's CAPCODE and
/// the text.
#[derive(Debug)]
pub struct Message {
    pub frame: u32,
    pub msgtype: MessageType,
    pub capcode: u32,
    pub data: String,
}

/// The bytes of the text, as UTF-8.
pub open spec fn message_bytes(msg: &Message) -> Seq<u8> {
    encode_utf8(msg.data@)
}

/// Frame numbers a message may name.
pub open spec fn is_message_frame(frame: u32) -> bool {
    frame <= 128
}

/// Number of alphanumeric message words for a text of `len` bytes (at least
/// two): header and signature, then one word per started group of three
/// characters after the first two.
pub open spec fn content_codeword_count(len: nat) -> nat {
    (2 + (len - 2) / 3 + if (len - 2) % 3 > 0 { 1int } else { 0int }) as nat
}

/// All the words a message takes in a frame: address, vector and content.
pub open spec fn message_codeword_count(msg: &Message) -> nat {
    2 + content_codeword_count(message_bytes(msg).len())
}

/// A message that a frame can carry: a short-address CAPCODE and a text of
/// at least two bytes.
pub open spec fn is_encodable(msg: &Message) -> bool {
    is_short_capcode(msg.capcode) && message_bytes(msg).len() >= 2
}

/// The number of words counted for a text is the number of words its
/// alphanumeric encoding takes.
pub proof fn lemma_content_count_matches_encoding(message_number: u32, chars: Seq<u8>)
    requires
        chars.len() >= 2,
    ensures
        alpha_words(message_number, chars).len() == content_codeword_count(chars.len()),
{
    let len = chars.len();
    let f = filled_chars(chars);
    assert(f.len() == len + fill_count(len));
    let r = len % 3;
    assert((len + fill_count(len) - 2) / 3 == (len - 2) / 3 + if (len - 2) % 3 > 0 { 1int } else { 0int })
        by (nonlinear_arith)
        requires
            len >= 2,
            fill_count(len) == ((5 - len % 3) % 3) as nat,
    ;
}

impl Clone for Message {
    fn clone(&self) -> (copy: Self)
        ensures
            copy == *self,
    {
        Message {
            frame: self.frame,
            msgtype: self.msgtype,
            capcode: self.capcode,
            data: self.data.clone(),
        }
    }
}

impl Message {
    /// Accepts short-address CAPCODEs and frame numbers up to 128.
    pub fn new(frame: u32, msgtype: MessageType, capcode: u32, data: String) -> (r: Result<
        Message,
        &'static str,
    >)
        ensures
            r is Ok <==> (is_short_capcode(capcode) && is_message_frame(frame)),
            !is_short_capcode(capcode) ==> r == Err::<Message, &'static str>("Invalid CAPCODE"),
            is_short_capcode(capcode) && !is_message_frame(frame) ==> r == Err::<
                Message,
                &'static str,
            >("Invalid Frame number"),
            r matches Ok(m) ==> m.frame == frame && m.msgtype == msgtype && m.capcode == capcode
                && m.data == data,
    {
        if Message::get_capcode_type(capcode) == CapcodeType::Invalid {
            return Err("Invalid CAPCODE");
        }
        if frame > 128 {
            return Err("Invalid Frame number");
        }
        Ok(Message { frame: frame, msgtype: msgtype, capcode: capcode, data: data })
    }

    /// Address, vector and content words of the message; refuses CAPCODEs
    /// that need other than a short address.
    pub fn get_num_of_message_codewords(&self) -> (r: Result<usize, &'static str>)
        requires
            is_short_capcode(self.capcode) ==> message_bytes(self).len() >= 2,
        ensures
            r is Ok <==> is_short_capcode(self.capcode),
            r matches Err(e) ==> e == "Invalid CAPCODE given",
            r matches Ok(n) ==> n == message_codeword_count(self) && n <= usize::MAX / 2,
    {
        let mut size: usize = 0;
        match Message::get_capcode_type(self.capcode) {
            CapcodeType::ShortAddress => size += 2,
            CapcodeType::Invalid => return Err("Invalid CAPCODE given"),
        }
        match self.msgtype {
            MessageType::AlphaNum => size += self.get_num_of_content_codewords(),
        }
        Ok(size)
    }

    /// Header and signature word plus one word per started group of three
    /// characters after the first two.
    pub fn get_num_of_content_codewords(&self) -> (n: usize)
        requires
            message_bytes(self).len() >= 2,
        ensures
            n == content_codeword_count(message_bytes(self).len()),
            n <= usize::MAX / 2 - 2,
    {
        let len = self.data.as_str().as_bytes().len();
        assert(len == message_bytes(self).len());
        assert((len - 2) / 3 + 3 <= usize::MAX / 2 - 2) by (nonlinear_arith)
            requires
                2 <= len <= usize::MAX,
                usize::MAX >= 0xFFFF_FFFF,
        ;
        let mut size: usize = 0;
        size += 2;
        size += (len - 2) / 3;
        if (len - 2) % 3 > 0 {
            size += 1;
        }
        size
    }

    /// Whether a frame can carry the message: a short-address CAPCODE and a
    /// text of at least two bytes.
    pub fn can_be_encoded(&self) -> (ok: bool)
        ensures
            ok == is_encodable(self),
    {
        let len = self.data.as_str().as_bytes().len();
        Message::get_capcode_type(self.capcode) == CapcodeType::ShortAddress && len >= 2
    }

    /// Short addresses serve CAPCODEs 0x0001..=0x1EA7FF.
    pub fn get_capcode_type(capcode: u32) -> (t: CapcodeType)
        ensures
            t == (if is_short_capcode(capcode) {
                CapcodeType::ShortAddress
            } else {
                CapcodeType::Invalid
            }),
    {
        if capcode >= 0x0001 && capcode <= 0x1EA7FF {
            return CapcodeType::ShortAddress;
        }
        CapcodeType::Invalid
    }
}

} // verus!
