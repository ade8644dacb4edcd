use vstd::prelude::*;
use crate::apply_bch_and_parity::{apply_bch_and_parity, is_valid_flex_word};
use crate::apply_checksums::all_checksums;
use crate::codeword::Codeword;
use crate::fourbit_checksum::apply_4bit_checksum;

verus! {

/// Information bits of the frame information word: cycle number in bits
/// 4..7, frame number in 8..14, repeat paging in 16 and the low traffic
/// flags from bit 17 on.
pub open spec fn fiw_info(
    cycle_number: u32,
    frame_number: u32,
    repeat_paging: u32,
    low_traffic_flags: u32,
) -> u32 {
    (cycle_number << 4u32) | (frame_number << 8u32) | (repeat_paging << 16u32) | (low_traffic_flags
        << 17u32)
}

/// Transmitted frame information word.
pub open spec fn fiw_word(
    cycle_number: u32,
    frame_number: u32,
    repeat_paging: u32,
    low_traffic_flags: u32,
) -> u32 {
    all_checksums(fiw_info(cycle_number, frame_number, repeat_paging, low_traffic_flags))
}

/// The frame information word announces the cycle number in bits 4..7, the
/// frame number in bits 8..14 and the repeat paging flag in bit 16, for
/// every cycle, frame and flag that `FIW::new` accepts.
pub proof fn lemma_fiw_fields(
    cycle_number: u32,
    frame_number: u32,
    repeat_paging: u32,
    low_traffic_flags: u32,
)
    requires
        cycle_number <= 14,
        frame_number <= 127,
        repeat_paging <= 1,
    ensures
        (fiw_word(cycle_number, frame_number, repeat_paging, low_traffic_flags) >> 4u32) & 0xF
            == cycle_number,
        (fiw_word(cycle_number, frame_number, repeat_paging, low_traffic_flags) >> 8u32) & 0x7F
            == frame_number,
        (fiw_word(cycle_number, frame_number, repeat_paging, low_traffic_flags) >> 16u32) & 0x1
            == repeat_paging,
{
    let info = fiw_info(cycle_number, frame_number, repeat_paging, low_traffic_flags);
    let w = fiw_word(cycle_number, frame_number, repeat_paging, low_traffic_flags);
    crate::apply_checksums::lemma_all_checksums_keeps_fields(info);
    let (a, b, c, d) = (cycle_number, frame_number, repeat_paging, low_traffic_flags);
    assert((w >> 4u32) & 0xF == a && (w >> 8u32) & 0x7F == b && (w >> 16u32) & 0x1 == c)
        by (bit_vector)
        requires
            a <= 14 && b <= 127 && c <= 1,
            info == (a << 4u32) | (b << 8u32) | (c << 16u32) | (d << 17u32),
            w & 0x1FFFF0 == info & 0x1FFFF0,
    ;
}

/// Frame information word: cycle and frame number of the frame it heads.
pub struct FIW {
    cycle_number: u32,
    frame_number: u32,
    repeat_paging: u32,
    low_traffic_flags: u32,
}

impl FIW {
    #[verifier::type_invariant]
    spec fn in_range(&self) -> bool {
        &&& self.cycle_number <= 14
        &&& self.frame_number <= 127
        &&& self.repeat_paging <= 1
    }

    /// The cycle (0..14) and frame (0..127) numbers this word announces.
    pub closed spec fn cycle_and_frame(&self) -> (u32, u32) {
        (self.cycle_number, self.frame_number)
    }

    /// The low traffic flags this word carries.
    pub closed spec fn flags(&self) -> u32 {
        self.low_traffic_flags
    }

    /// Accepts cycle numbers up to 14, frame numbers up to 127 and a repeat
    /// paging flag of 0 or 1.
    pub fn new(
        cycle_number: u32,
        frame_number: u32,
        repeat_paging: u32,
        low_traffic_flags: u32,
    ) -> (r: Result<FIW, &'static str>)
        ensures
            r matches Err(e) ==> e == "Frame Information Word: Parameter out of range.",
            r is Ok <==> (cycle_number <= 14 && frame_number <= 127 && repeat_paging <= 1),
            r matches Ok(fiw) ==> fiw.spec_codeword() == fiw_word(
                cycle_number,
                frame_number,
                repeat_paging,
                low_traffic_flags,
            ) && fiw.cycle_and_frame() == (cycle_number, frame_number) && fiw.flags()
                == low_traffic_flags,
    {
        if cycle_number <= 14 && frame_number <= 127 && repeat_paging <= 1 {
            Ok(
                FIW {
                    cycle_number: cycle_number,
                    frame_number: frame_number,
                    repeat_paging: repeat_paging,
                    low_traffic_flags: low_traffic_flags,
                },
            )
        } else {
            Err("Frame Information Word: Parameter out of range.")
        }
    }
}

impl Codeword for FIW {
    closed spec fn spec_codeword(&self) -> u32 {
        fiw_word(self.cycle_number, self.frame_number, self.repeat_paging, self.low_traffic_flags)
    }

    /// The word is a valid FLEX word whenever the low traffic flags fit in
    /// their four bits.
    fn get_codeword(&self) -> (cw: u32)
        ensures
            self.flags() <= 0xF ==> is_valid_flex_word(cw),
            (cw >> 4u32) & 0xF == self.cycle_and_frame().0,
            (cw >> 8u32) & 0x7F == self.cycle_and_frame().1,
    {
        proof {
            use_type_invariant(self);
            lemma_fiw_fields(
                self.cycle_number,
                self.frame_number,
                self.repeat_paging,
                self.low_traffic_flags,
            );
        }
        let mut cw: u32 = 0x0;
        cw |= self.cycle_number << 4;
        cw |= self.frame_number << 8;
        cw |= self.repeat_paging << 16;
        cw |= self.low_traffic_flags << 17;
        let info = cw;
        proof {
            let (a, b, c, d) = (
                self.cycle_number,
                self.frame_number,
                self.repeat_paging,
                self.low_traffic_flags,
            );
            assert(info == fiw_info(a, b, c, d) && info & 0xF == 0 && (d <= 0xF ==> info < 0x200000))
                by (bit_vector)
                requires
                    a <= 14 && b <= 127 && c <= 1,
                    info == (((0u32 | (a << 4u32)) | (b << 8u32)) | (c << 16u32)) | (d << 17u32),
            ;
        }
        cw = apply_4bit_checksum(cw);
        cw = apply_bch_and_parity(cw);
        cw
    }
}

} // verus!
