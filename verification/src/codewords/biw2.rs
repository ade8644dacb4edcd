use vstd::prelude::*;
use crate::apply_bch_and_parity::{apply_bch_and_parity, is_valid_flex_word};
use crate::apply_checksums::all_checksums;
use crate::codeword::Codeword;
use crate::fourbit_checksum::apply_4bit_checksum;

verus! {

/// Information bits of block information word 2 (word type 0): local ID in
/// bits 7..15 and time zone in bits 16..20.
pub open spec fn biw2_info(local_id: u32, time_zone: u32) -> u32 {
    (local_id << 7u32) | (time_zone << 16u32)
}

/// Transmitted block information word 2.
pub open spec fn biw2_word(local_id: u32, time_zone: u32) -> u32 {
    all_checksums(biw2_info(local_id, time_zone))
}

/// Block information word 2: local ID and time zone of the system.
pub struct BIW2 {
    local_id: u32,
    time_zone: u32,
}

impl BIW2 {
    #[verifier::type_invariant]
    spec fn in_range(&self) -> bool {
        self.local_id <= 0x1FF && self.time_zone <= 0x1F
    }

    /// Accepts a 9-bit local ID and a 5-bit time zone.
    pub fn new(local_id: u32, time_zone: u32) -> (r: Result<BIW2, &'static str>)
        ensures
            r matches Err(e) ==> e == "BIW2: Invalid local ID or time zone given",
            r is Ok <==> (local_id <= 0x1FF && time_zone <= 0x1F),
            r matches Ok(b) ==> b.spec_codeword() == biw2_word(local_id, time_zone),
    {
        if local_id <= 0x1FF && time_zone <= 0x1F {
            Ok(BIW2 { local_id: local_id, time_zone: time_zone })
        } else {
            Err("BIW2: Invalid local ID or time zone given")
        }
    }
}

impl Codeword for BIW2 {
    closed spec fn spec_codeword(&self) -> u32 {
        biw2_word(self.local_id, self.time_zone)
    }

    fn get_codeword(&self) -> (cw: u32)
        ensures
            is_valid_flex_word(cw),
    {
        proof {
            use_type_invariant(self);
        }
        let mut cw: u32 = 0x0;
        cw |= self.local_id << 7;
        cw |= self.time_zone << 16;
        let info = cw;
        proof {
            let (a, b) = (self.local_id, self.time_zone);
            assert(info == biw2_info(a, b) && info < 0x200000 && info & 0xF == 0) by (bit_vector)
                requires
                    a <= 0x1FF && b <= 0x1F,
                    info == (0u32 | (a << 7u32)) | (b << 16u32),
            ;
        }
        cw = apply_4bit_checksum(cw);
        cw = apply_bch_and_parity(cw);
        cw
    }
}

/// Block information word 2 is of word type 0 and carries the local ID in
/// bits 7..15 and the time zone in bits 16..20.
pub proof fn lemma_biw2_fields(local_id: u32, time_zone: u32)
    requires
        local_id <= 0x1FF,
        time_zone <= 0x1F,
    ensures
        (biw2_word(local_id, time_zone) >> 4u32) & 0x7 == 0,
        (biw2_word(local_id, time_zone) >> 7u32) & 0x1FF == local_id,
        (biw2_word(local_id, time_zone) >> 16u32) & 0x1F == time_zone,
{
    let info = biw2_info(local_id, time_zone);
    let w = biw2_word(local_id, time_zone);
    crate::apply_checksums::lemma_all_checksums_keeps_fields(info);
    let (a, b) = (local_id, time_zone);
    assert((w >> 4u32) & 0x7 == 0 && (w >> 7u32) & 0x1FF == a && (w >> 16u32) & 0x1F == b)
        by (bit_vector)
        requires
            a <= 0x1FF && b <= 0x1F,
            info == (a << 7u32) | (b << 16u32),
            w & 0x1FFFF0 == info & 0x1FFFF0,
    ;
}

} // verus!
