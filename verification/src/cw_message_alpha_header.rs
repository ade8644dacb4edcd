use vstd::prelude::*;
use crate::apply_bch_and_parity::{apply_bch_and_parity, bch_and_parity, is_valid_flex_word};
use crate::codeword::Codeword;

verus! {

/// Information bits of an alphanumeric message header: continued flag in
/// bit 10, fragment number in 11..12, message number in 13..18, retrieval
/// flag in 19 and mail drop flag in 20. Bits 0..9 are left for the fragment
/// check.
pub open spec fn header_info(
    message_continued_flag: u32,
    fragment_number: u32,
    message_number: u32,
    retrieval_flag: u32,
    mail_drop_flag: u32,
) -> u32 {
    (message_continued_flag << 10u32) | (fragment_number << 11u32) | (message_number << 13u32) | (
    retrieval_flag << 19u32) | (mail_drop_flag << 20u32)
}

/// The field values an alphanumeric message header accepts.
pub open spec fn header_in_range(
    message_continued_flag: u32,
    fragment_number: u32,
    message_number: u32,
    retrieval_flag: u32,
    mail_drop_flag: u32,
) -> bool {
    message_continued_flag <= 1 && fragment_number <= 3 && message_number <= 63 && retrieval_flag
        <= 1 && mail_drop_flag <= 1
}

/// Alphanumeric message header word.
pub struct CWMessageAlphaHeader {
    message_continued_flag: u32,
    fragment_number: u32,
    message_number: u32,
    retrieval_flag: u32,
    mail_drop_flag: u32,
}

impl CWMessageAlphaHeader {
    #[verifier::type_invariant]
    spec fn in_range(&self) -> bool {
        header_in_range(
            self.message_continued_flag,
            self.fragment_number,
            self.message_number,
            self.retrieval_flag,
            self.mail_drop_flag,
        )
    }

    /// Accepts one-bit flags, a fragment number up to 3 and a message number
    /// up to 63.
    pub fn new(
        message_continued_flag: u32,
        fragment_number: u32,
        message_number: u32,
        retrieval_flag: u32,
        mail_drop_flag: u32,
    ) -> (r: Result<CWMessageAlphaHeader, &'static str>)
        ensures
            r matches Err(e) ==> e == "Alphanumeric Message Header: Invalid Parameter.",
            r is Ok <==> header_in_range(
                message_continued_flag,
                fragment_number,
                message_number,
                retrieval_flag,
                mail_drop_flag,
            ),
            r matches Ok(h) ==> h.spec_codeword() == bch_and_parity(
                header_info(
                    message_continued_flag,
                    fragment_number,
                    message_number,
                    retrieval_flag,
                    mail_drop_flag,
                ),
            ),
    {
        if message_continued_flag <= 1 && fragment_number <= 3 && message_number <= 63
            && retrieval_flag <= 1 && mail_drop_flag <= 1 {
            Ok(
                CWMessageAlphaHeader {
                    message_continued_flag: message_continued_flag,
                    fragment_number: fragment_number,
                    message_number: message_number,
                    retrieval_flag: retrieval_flag,
                    mail_drop_flag: mail_drop_flag,
                },
            )
        } else {
            Err("Alphanumeric Message Header: Invalid Parameter.")
        }
    }
}

impl Codeword for CWMessageAlphaHeader {
    closed spec fn spec_codeword(&self) -> u32 {
        bch_and_parity(
            header_info(
                self.message_continued_flag,
                self.fragment_number,
                self.message_number,
                self.retrieval_flag,
                self.mail_drop_flag,
            ),
        )
    }

    fn get_codeword(&self) -> (cw: u32)
        ensures
            is_valid_flex_word(cw),
    {
        proof {
            use_type_invariant(self);
        }
        let mut cw: u32 = 0x0;
        cw |= self.message_continued_flag << 10;
        cw |= self.fragment_number << 11;
        cw |= self.message_number << 13;
        cw |= self.retrieval_flag << 19;
        cw |= self.mail_drop_flag << 20;
        proof {
            let (a, b, c, d, e) = (
                self.message_continued_flag,
                self.fragment_number,
                self.message_number,
                self.retrieval_flag,
                self.mail_drop_flag,
            );
            assert(cw == header_info(a, b, c, d, e) && cw < 0x200000 && cw & 0x3FF == 0)
                by (bit_vector)
                requires
                    a <= 1 && b <= 3 && c <= 63 && d <= 1 && e <= 1,
                    cw == ((((0u32 | (a << 10u32)) | (b << 11u32)) | (c << 13u32)) | (d << 19u32))
                        | (e << 20u32),
            ;
        }
        cw = apply_bch_and_parity(cw);
        cw
    }
}

} // verus!
