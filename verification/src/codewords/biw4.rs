use vstd::prelude::*;
use crate::apply_bch_and_parity::{apply_bch_and_parity, is_valid_flex_word};
use crate::apply_checksums::all_checksums;
use crate::codeword::Codeword;
use crate::fourbit_checksum::apply_4bit_checksum;

verus! {

/// The seconds field: the number of whole 7.5-second steps, in three bits.
pub open spec fn biw4_seconds(second: u32) -> u32 {
    (((2 * second) / 15) % 8) as u32
}

/// Information bits of block information word 4 (word type 2): hour in bits
/// 7..11, minute in bits 12..17 and the seconds field in bits 18..20.
pub open spec fn biw4_info(hour: u32, minute: u32, seconds_field: u32) -> u32 {
    (0x2u32 << 4u32) | (hour << 7u32) | (minute << 12u32) | (seconds_field << 18u32)
}

/// Transmitted block information word 4 for a time of day.
pub open spec fn biw4_word(hour: u32, minute: u32, second: u32) -> u32 {
    all_checksums(biw4_info(hour, minute, biw4_seconds(second)))
}

/// Block information word 4: the time of day.
pub struct BIW4 {
    hour: u32,
    minute: u32,
    second: u32,
}

impl BIW4 {
    #[verifier::type_invariant]
    spec fn in_range(&self) -> bool {
        self.hour <= 23 && self.minute <= 59 && self.second <= 7
    }

    /// Accepts hours 0..=23 and minutes 0..=59; the seconds are counted in
    /// steps of 7.5 seconds.
    pub fn new(hour: u32, minute: u32, second: u32) -> (r: Result<BIW4, &'static str>)
        ensures
            r matches Err(e) ==> e == "BIW3: Invalid time given",
            r is Ok <==> (hour <= 23 && minute <= 59),
            r matches Ok(b) ==> b.spec_codeword() == biw4_word(hour, minute, second),
    {
        if !(BIW4::check_minute(minute) && BIW4::check_hour(hour)) {
            Err("BIW3: Invalid time given")
        } else {
            let steps = ((second as u64) * 2) / 15;
            let field = (steps % 8) as u32;
            let biw4 = BIW4 { hour: hour, minute: minute, second: field };
            Ok(biw4)
        }
    }

    fn check_minute(minute: u32) -> (ok: bool)
        ensures
            ok == (minute <= 59),
    {
        minute <= 59
    }

    fn check_hour(hour: u32) -> (ok: bool)
        ensures
            ok == (hour <= 23),
    {
        hour <= 23
    }
}

impl Codeword for BIW4 {
    closed spec fn spec_codeword(&self) -> u32 {
        all_checksums(biw4_info(self.hour, self.minute, self.second))
    }

    fn get_codeword(&self) -> (cw: u32)
        ensures
            is_valid_flex_word(cw),
    {
        proof {
            use_type_invariant(self);
        }
        let mut cw: u32 = 0x0;
        cw |= 0x2 << 4;
        cw |= self.hour << 7;
        cw |= self.minute << 12;
        cw |= self.second << 18;
        let info = cw;
        proof {
            let (h, m, s) = (self.hour, self.minute, self.second);
            assert(info == biw4_info(h, m, s) && info < 0x200000 && info & 0xF == 0) by (bit_vector)
                requires
                    h <= 23 && m <= 59 && s <= 7,
                    info == (((0u32 | (0x2u32 << 4u32)) | (h << 7u32)) | (m << 12u32)) | (s << 18u32),
            ;
        }
        cw = apply_4bit_checksum(cw);
        cw = apply_bch_and_parity(cw);
        cw
    }
}

/// Block information word 4 is of word type 2 and carries the hour in bits
/// 7..11, the minute in bits 12..17 and the 7.5-second steps in bits 18..20.
pub proof fn lemma_biw4_fields(hour: u32, minute: u32, second: u32)
    requires
        hour <= 23,
        minute <= 59,
    ensures
        (biw4_word(hour, minute, second) >> 4u32) & 0x7 == 2,
        (biw4_word(hour, minute, second) >> 7u32) & 0x1F == hour,
        (biw4_word(hour, minute, second) >> 12u32) & 0x3F == minute,
        (biw4_word(hour, minute, second) >> 18u32) & 0x7 == ((2 * second) / 15) % 8,
{
    let s = biw4_seconds(second);
    let info = biw4_info(hour, minute, s);
    let w = biw4_word(hour, minute, second);
    crate::apply_checksums::lemma_all_checksums_keeps_fields(info);
    assert((w >> 4u32) & 0x7 == 2 && (w >> 7u32) & 0x1F == hour && (w >> 12u32) & 0x3F == minute
        && (w >> 18u32) & 0x7 == s) by (bit_vector)
        requires
            hour <= 23 && minute <= 59 && s <= 7,
            info == (0x2u32 << 4u32) | (hour << 7u32) | (minute << 12u32) | (s << 18u32),
            w & 0x1FFFF0 == info & 0x1FFFF0,
    ;
}

} // verus!
