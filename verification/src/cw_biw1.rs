use vstd::prelude::*;
use crate::apply_bch_and_parity::{apply_bch_and_parity, bch_and_parity, is_valid_flex_word};
use crate::codeword::Codeword;
use crate::fourbit_checksum::{apply_4bit_checksum, checksum4};

verus! {

/// Information bits of block information word 1: priority addresses in bits
/// 4..7, end of block in 8..9, vector field start in 10..15, carry-on in
/// 16..17 and frame-ID collapse mark in 18..20.
pub open spec fn biw1_info(
    priority_addr: u32,
    end_of_block: u32,
    vector_field_start: u32,
    carry_on: u32,
    frame_id_collapse_mark: u32,
) -> u32 {
    ((priority_addr & 0xF) << 4u32) | ((end_of_block & 0x3) << 8u32) | ((vector_field_start & 0x3F)
        << 10u32) | ((carry_on & 0x3) << 16u32) | ((frame_id_collapse_mark & 0x7) << 18u32)
}

/// Transmitted word of block information word 1.
pub open spec fn biw1_word(
    priority_addr: u32,
    end_of_block: u32,
    vector_field_start: u32,
    carry_on: u32,
    frame_id_collapse_mark: u32,
) -> u32 {
    let info = biw1_info(priority_addr, end_of_block, vector_field_start, carry_on, frame_id_collapse_mark);
    bch_and_parity(info | checksum4(info))
}

/// Block information word 1: where addresses and vectors start in the block.
pub struct BIW1 {
    priority_addr: u32,
    end_of_block: u32,
    vector_field_start: u32,
    carry_on: u32,
    frame_id_collapse_mark: u32,
}

impl BIW1 {
    #[verifier::type_invariant]
    spec fn fields_fit(&self) -> bool {
        &&& self.priority_addr <= 0xF
        &&& self.end_of_block <= 0x3
        &&& self.vector_field_start <= 0x3F
        &&& self.carry_on <= 0x3
        &&& self.frame_id_collapse_mark <= 0x7
    }

    /// Builds the word; every field is cut to its width.
    pub fn new(
        priority_addr: u32,
        end_of_block: u32,
        vector_field_start: u32,
        carry_on: u32,
        frame_id_collapse_mark: u32,
    ) -> (r: Result<BIW1, &'static str>)
        ensures
            r matches Ok(biw1) && biw1.spec_codeword() == biw1_word(
                priority_addr,
                end_of_block,
                vector_field_start,
                carry_on,
                frame_id_collapse_mark,
            ),
    {
        let (a, b, c, d, e) = (
            priority_addr,
            end_of_block,
            vector_field_start,
            carry_on,
            frame_id_collapse_mark,
        );
        assert((a & 0xF) <= 0xF && (b & 0x3) <= 0x3 && (c & 0x3F) <= 0x3F && (d & 0x3) <= 0x3 && (e
            & 0x7) <= 0x7 && biw1_info(a, b, c, d, e) == biw1_info(a & 0xF, b & 0x3, c & 0x3F, d
            & 0x3, e & 0x7)) by (bit_vector);
        let biw1 = BIW1 {
            priority_addr: priority_addr & 0xF,
            end_of_block: end_of_block & 0x3,
            vector_field_start: vector_field_start & 0x3F,
            carry_on: carry_on & 0x3,
            frame_id_collapse_mark: frame_id_collapse_mark & 0x7,
        };
        Ok(biw1)
    }
}

impl Codeword for BIW1 {
    closed spec fn spec_codeword(&self) -> u32 {
        biw1_word(
            self.priority_addr,
            self.end_of_block,
            self.vector_field_start,
            self.carry_on,
            self.frame_id_collapse_mark,
        )
    }

    fn get_codeword(&self) -> (cw: u32)
        ensures
            is_valid_flex_word(cw),
    {
        proof {
            use_type_invariant(self);
        }
        let mut cw: u32 = 0x0;
        cw |= self.priority_addr << 4;
        cw |= self.end_of_block << 8;
        cw |= self.vector_field_start << 10;
        cw |= self.carry_on << 16;
        cw |= self.frame_id_collapse_mark << 18;
        proof {
            let (a, b, c, d, e) = (
                self.priority_addr,
                self.end_of_block,
                self.vector_field_start,
                self.carry_on,
                self.frame_id_collapse_mark,
            );
            assert(cw == biw1_info(a, b, c, d, e) && cw < 0x200000 && cw & 0xF == 0) by (bit_vector)
                requires
                    a <= 0xF && b <= 0x3 && c <= 0x3F && d <= 0x3 && e <= 0x7,
                    cw == ((((0u32 | (a << 4u32)) | (b << 8u32)) | (c << 10u32)) | (d << 16u32)) | (e << 18u32),
            ;
        }
        let info = cw;
        cw = apply_4bit_checksum(cw);
        cw = apply_bch_and_parity(cw);
        cw
    }
}

} // verus!
