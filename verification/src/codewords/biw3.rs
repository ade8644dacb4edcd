use vstd::prelude::*;
use crate::apply_bch_and_parity::{apply_bch_and_parity, is_valid_flex_word};
use crate::apply_checksums::all_checksums;
use crate::codeword::Codeword;
use crate::fourbit_checksum::apply_4bit_checksum;

verus! {

/// First year that block information word 3 can express.
pub const BIW3_FIRST_YEAR: u32 = 1994;

/// Information bits of block information word 3 (word type 1): years since
/// 1994 in bits 7..11, day in bits 12..16 and month in bits 17..20.
pub open spec fn biw3_info(day: u32, month: u32, year_offset: u32) -> u32 {
    (0x1u32 << 4u32) | (year_offset << 7u32) | (day << 12u32) | (month << 17u32)
}

/// Transmitted block information word 3 for a calendar date.
pub open spec fn biw3_word(day: u32, month: u32, year: u32) -> u32 {
    all_checksums(biw3_info(day, month, (year - BIW3_FIRST_YEAR) as u32))
}

/// A date that block information word 3 can carry.
pub open spec fn is_biw3_date(day: u32, month: u32, year: u32) -> bool {
    1 <= day <= 31 && 1 <= month <= 12 && 1994 <= year <= 2025
}

/// Block information word 3: the date.
pub struct BIW3 {
    year: u32,
    month: u32,
    day: u32,
}

impl BIW3 {
    #[verifier::type_invariant]
    spec fn in_range(&self) -> bool {
        self.year <= 31 && 1 <= self.month <= 12 && 1 <= self.day <= 31
    }

    /// Accepts days 1..=31, months 1..=12 and years 1994..=2025.
    pub fn new(day: u32, month: u32, year: u32) -> (r: Result<BIW3, &'static str>)
        ensures
            r matches Err(e) ==> e == "BIW3: Invalid date given",
            r is Ok <==> is_biw3_date(day, month, year),
            r matches Ok(b) ==> b.spec_codeword() == biw3_word(day, month, year),
    {
        if !(BIW3::check_day(day) && BIW3::check_month(month) && BIW3::check_year(year)) {
            Err("BIW3: Invalid date given")
        } else {
            let biw3 = BIW3 { year: year - 1994, month: month, day: day };
            Ok(biw3)
        }
    }

    fn check_day(day: u32) -> (ok: bool)
        ensures
            ok == (1 <= day <= 31),
    {
        day >= 1 && day <= 31
    }

    fn check_month(month: u32) -> (ok: bool)
        ensures
            ok == (1 <= month <= 12),
    {
        month >= 1 && month <= 12
    }

    fn check_year(year: u32) -> (ok: bool)
        ensures
            ok == (1994 <= year <= 2025),
    {
        year >= 1994 && year <= 2025
    }
}

impl Codeword for BIW3 {
    closed spec fn spec_codeword(&self) -> u32 {
        all_checksums(biw3_info(self.day, self.month, self.year))
    }

    fn get_codeword(&self) -> (cw: u32)
        ensures
            is_valid_flex_word(cw),
    {
        proof {
            use_type_invariant(self);
        }
        let mut cw: u32 = 0x0;
        cw |= 0x1 << 4;
        cw |= self.year << 7;
        cw |= self.day << 12;
        cw |= self.month << 17;
        let info = cw;
        proof {
            let (y, d, m) = (self.year, self.day, self.month);
            assert(info == biw3_info(d, m, y) && info < 0x200000 && info & 0xF == 0) by (bit_vector)
                requires
                    y <= 31 && d <= 31 && m <= 12,
                    info == (((0u32 | (0x1u32 << 4u32)) | (y << 7u32)) | (d << 12u32)) | (m << 17u32),
            ;
        }
        cw = apply_4bit_checksum(cw);
        cw = apply_bch_and_parity(cw);
        cw
    }
}

/// Block information word 3 is of word type 1 and carries the years since
/// 1994 in bits 7..11, the day in bits 12..16 and the month in bits 17..20.
pub proof fn lemma_biw3_fields(day: u32, month: u32, year: u32)
    requires
        is_biw3_date(day, month, year),
    ensures
        (biw3_word(day, month, year) >> 4u32) & 0x7 == 1,
        (biw3_word(day, month, year) >> 7u32) & 0x1F == year - 1994,
        (biw3_word(day, month, year) >> 12u32) & 0x1F == day,
        (biw3_word(day, month, year) >> 17u32) & 0xF == month,
{
    let y = (year - BIW3_FIRST_YEAR) as u32;
    let info = biw3_info(day, month, y);
    let w = biw3_word(day, month, year);
    crate::apply_checksums::lemma_all_checksums_keeps_fields(info);
    assert((w >> 4u32) & 0x7 == 1 && (w >> 7u32) & 0x1F == y && (w >> 12u32) & 0x1F == day && (w
        >> 17u32) & 0xF == month) by (bit_vector)
        requires
            y <= 31 && day <= 31 && month <= 12,
            info == (0x1u32 << 4u32) | (y << 7u32) | (day << 12u32) | (month << 17u32),
            w & 0x1FFFF0 == info & 0x1FFFF0,
    ;
}

} // verus!
