use vstd::prelude::*;
use crate::apply_bch_and_parity::is_valid_flex_word;
use crate::apply_checksums::{all_checksums, apply_checksums};
use crate::codewords::biw3::biw3_info;

verus! {

/// A date as this word accepts it: the year is a 5-bit count.
pub open spec fn is_short_date(day: u32, month: u32, year: u32) -> bool {
    1 <= day <= 31 && 1 <= month <= 12 && year <= 0x1F
}

/// Block information word 3 with the year given as a 5-bit count,
/// computed once, at construction.
pub struct BIW3 {
    pub codeword: u32,
}

impl BIW3 {
    /// Accepts days 1..=31, months 1..=12 and year counts 0..=31.
    pub fn new(day: u32, month: u32, year: u32) -> (r: Result<BIW3, &'static str>)
        ensures
            r matches Err(e) ==> e == "BIW3: Invalid date given",
            r is Ok <==> is_short_date(day, month, year),
            r matches Ok(b) ==> b.codeword == all_checksums(biw3_info(day, month, year))
                && is_valid_flex_word(b.codeword),
    {
        if !(BIW3::check_day(day) && BIW3::check_month(month) && BIW3::check_year(year)) {
            Err("BIW3: Invalid date given")
        } else {
            let y = (year & 0x1F) << 7;
            let d = (day & 0x1F) << 12;
            let m = (month & 0xF) << 17;
            assert(y < 0x1000 && d < 0x20000 && m < 0x200000 && 0x1u32 << 4u32 == 0x10) by (bit_vector)
                requires
                    y == (year & 0x1F) << 7u32,
                    d == (day & 0x1F) << 12u32,
                    m == (month & 0xF) << 17u32,
            ;
            let mut cw: u32 = 0x0;
            cw += 0x1 << 4;
            cw += y;
            cw += d;
            cw += m;
            assert(cw == biw3_info(day, month, year) && cw < 0x200000) by (bit_vector)
                requires
                    1 <= day <= 31 && 1 <= month <= 12 && year <= 0x1F,
                    y == (year & 0x1F) << 7u32,
                    d == (day & 0x1F) << 12u32,
                    m == (month & 0xF) << 17u32,
                    cw == 0x10u32 + y + d + m,
            ;
            cw = apply_checksums(cw);
            let biw3 = BIW3 { codeword: cw };
            Ok(biw3)
        }
    }

    fn check_day(day: u32) -> (ok: bool)
        ensures
            ok == (1 <= day <= 31),
    {
        day >= 1 && day <= 31
    }

    fn check_month(month: u32) -> (ok: bool)
        ensures
            ok == (1 <= month <= 12),
    {
        month >= 1 && month <= 12
    }

    fn check_year(year: u32) -> (ok: bool)
        ensures
            ok == (year <= 0x1F),
    {
        year <= 0x1F
    }
}

} // verus!
