use vstd::prelude::*;
use crate::apply_bch_and_parity::is_valid_flex_word;
use crate::apply_checksums::{all_checksums, apply_checksums};
use crate::cw_biw1::biw1_info;

verus! {

/// Block information word 1 computed once, at construction.
pub struct BIW1 {
    pub codeword: u32,
}

impl BIW1 {
    /// Builds the word from its fields, each cut to its width.
    pub fn new(
        priority_addr: u32,
        end_of_block: u32,
        vector_field_start: u32,
        carry_on: u32,
        frame_id_collapse_mark: u32,
    ) -> (r: Result<BIW1, &'static str>)
        ensures
            r matches Ok(biw1) && biw1.codeword == all_checksums(
                biw1_info(
                    priority_addr,
                    end_of_block,
                    vector_field_start,
                    carry_on,
                    frame_id_collapse_mark,
                ),
            ) && is_valid_flex_word(biw1.codeword),
    {
        let mut cw: u32 = 0x0;
        let a = (priority_addr & 0xF) << 4;
        let b = (end_of_block & 0x3) << 8;
        let c = (vector_field_start & 0x3F) << 10;
        let d = (carry_on & 0x3) << 16;
        let e = (frame_id_collapse_mark & 0x7) << 18;
        assert(a < 0x100 && b < 0x400 && c < 0x10000 && d < 0x40000 && e < 0x200000) by (bit_vector)
            requires
                a == (priority_addr & 0xF) << 4u32,
                b == (end_of_block & 0x3) << 8u32,
                c == (vector_field_start & 0x3F) << 10u32,
                d == (carry_on & 0x3) << 16u32,
                e == (frame_id_collapse_mark & 0x7) << 18u32,
        ;
        cw += a;
        cw += b;
        cw += c;
        cw += d;
        cw += e;
        assert(cw == biw1_info(priority_addr, end_of_block, vector_field_start, carry_on, frame_id_collapse_mark)
            && cw < 0x200000) by (bit_vector)
            requires
                a == (priority_addr & 0xF) << 4u32,
                b == (end_of_block & 0x3) << 8u32,
                c == (vector_field_start & 0x3F) << 10u32,
                d == (carry_on & 0x3) << 16u32,
                e == (frame_id_collapse_mark & 0x7) << 18u32,
                cw == a + b + c + d + e,
        ;
        cw = apply_checksums(cw);
        let biw1 = BIW1 { codeword: cw };
        Ok(biw1)
    }
}

} // verus!
