use flexencoder::codeword::Codeword;
use flexencoder::codeword_biw1;
use flexencoder::codeword_biw3;
use flexencoder::codewords::address_short::CWAddressShort;
use flexencoder::codewords::biw2::BIW2;
use flexencoder::codewords::biw3::BIW3;
use flexencoder::codewords::biw4::BIW4;
use flexencoder::codewords::vector_alpha::CWVectorAlpha;
use flexencoder::cw_address_short;
use flexencoder::cw_biw1::BIW1;
use flexencoder::cw_fiw::FIW;
use flexencoder::get_address_cw_short::get_address_cw_short;

#[test]
fn cw_biw1_test_codeword_biw1() {
    let biw1 = BIW1::new(10, 2, 60, 1, 6).unwrap();
    assert_eq!(biw1.get_codeword() & 0x1FFFF0, 0x19F2A0);
}

#[test]
fn codeword_biw1_test_codeword_biw1() {
    let biw1 = codeword_biw1::BIW1::new(10, 2, 60, 1, 6).unwrap();
    assert_eq!(biw1.codeword & 0x1FFFFF, 0x19F2AA);
}

#[test]
fn test_biw1_fields_are_cut_to_width() {
    let wide = BIW1::new(0x1A, 0x6, 0x7C, 0x5, 0xE).unwrap();
    let narrow = BIW1::new(0xA, 0x2, 0x3C, 0x1, 0x6).unwrap();
    assert_eq!(wide.get_codeword(), narrow.get_codeword());
}

#[test]
fn codeword_biw3_test_codeword_biw3() {
    let biw3 = codeword_biw3::BIW3::new(31, 12, 5).unwrap();
    assert_eq!(biw3.codeword & 0x1FFFFF, 0x19F29B);
}

#[test]
fn codeword_biw3_test_codeword_biw3_invalid_day() {
    assert_eq!(codeword_biw3::BIW3::new(32, 12, 5).is_err(), true);
}

#[test]
fn codeword_biw3_test_codeword_biw3_invalid_month() {
    assert_eq!(codeword_biw3::BIW3::new(31, 13, 5).is_err(), true);
}

#[test]
fn codeword_biw3_test_codeword_biw3_invalid_day_0() {
    assert_eq!(codeword_biw3::BIW3::new(0, 12, 5).is_err(), true);
}

#[test]
fn codeword_biw3_test_codeword_biw3_invalid_month_0() {
    assert_eq!(codeword_biw3::BIW3::new(31, 0, 5).is_err(), true);
}

#[test]
fn test_codeword_biw3_short_year_too_large() {
    assert_eq!(codeword_biw3::BIW3::new(1, 1, 32).is_err(), true);
}

#[test]
fn biw3_test_codeword_biw3() {
    let biw3 = BIW3::new(31, 12, 1999).unwrap();
    assert_eq!(biw3.get_codeword() & 0x1FFFF0, 0x19F290);
}

#[test]
fn biw3_test_codeword_biw3_invalid_day() {
    assert_eq!(BIW3::new(32, 12, 1999).is_err(), true);
}

#[test]
fn biw3_test_codeword_biw3_invalid_month() {
    assert_eq!(BIW3::new(31, 13, 1999).is_err(), true);
}

#[test]
fn biw3_test_codeword_biw3_invalid_day_0() {
    assert_eq!(BIW3::new(0, 12, 1999).is_err(), true);
}

#[test]
fn biw3_test_codeword_biw3_invalid_month_0() {
    assert_eq!(BIW3::new(31, 0, 1999).is_err(), true);
}

#[test]
fn test_codeword_biw3_invalid_year_low() {
    assert_eq!(BIW3::new(1, 1, 1993).is_err(), true);
}

#[test]
fn test_codeword_biw3_invalid_year_high() {
    assert_eq!(BIW3::new(1, 1, 2026).is_err(), true);
}

#[test]
fn test_codeword_biw3_matches_short_year_form() {
    // The year counts from 1994 in both forms of the word.
    let long_form = BIW3::new(31, 12, 1999).unwrap();
    let short_form = codeword_biw3::BIW3::new(31, 12, 5).unwrap();
    assert_eq!(long_form.get_codeword(), short_form.codeword);
}

#[test]
fn test_codeword_biw4_1() {
    let biw4 = BIW4::new(23, 59, 59).unwrap();
    assert_eq!(biw4.get_codeword() & 0x1FFFF0, 0x1FBBA0);
}

#[test]
fn test_codeword_biw4_2() {
    let biw4 = BIW4::new(23, 59, 31).unwrap();
    assert_eq!(biw4.get_codeword() & 0x1FFFF0, 0x13BBA0);
}

#[test]
fn test_codeword_biw4_3() {
    let biw4 = BIW4::new(0, 0, 0).unwrap();
    assert_eq!(biw4.get_codeword() & 0x1FFFF0, 0x000020);
}

#[test]
fn test_codeword_biw4_invalid_hour() {
    assert_eq!(BIW4::new(24, 59, 59).is_err(), true);
}

#[test]
fn test_codeword_biw4_invalid_minute() {
    assert_eq!(BIW4::new(23, 60, 59).is_err(), true);
}

#[test]
fn test_codeword_biw4_seconds_in_steps_of_7_5() {
    let at_15 = BIW4::new(0, 0, 15).unwrap();
    let at_14 = BIW4::new(0, 0, 14).unwrap();
    assert_eq!(at_15.get_codeword() & 0x1C0000, 2 << 18);
    assert_eq!(at_14.get_codeword() & 0x1C0000, 1 << 18);
}

#[test]
fn test_codeword_biw2_fields() {
    let biw2 = BIW2::new(0, 0x1).unwrap();
    assert_eq!(biw2.get_codeword() & 0x1FFFF0, 0x010000);
    assert_eq!(BIW2::new(0x200, 0).is_err(), true);
    assert_eq!(BIW2::new(0, 0x20).is_err(), true);
}

#[test]
fn test_cw_address_short_get_codeword_when_first_capcode() {
    let cw_address_short = CWAddressShort::new(0x0001).unwrap();
    assert_eq!(cw_address_short.get_codeword() & 0x1FFFFF, 0x008001)
}

#[test]
fn test_cw_address_short_get_codeword_when_typical_with_crc() {
    let cw_address_short = CWAddressShort::new(0x0204).unwrap();
    assert_eq!(cw_address_short.get_codeword(), 0xBF008204)
}

#[test]
fn test_cw_address_short_get_codeword_when_highest_capcode_with_crc() {
    let cw_address_short = CWAddressShort::new(0x1EA7FF).unwrap();
    assert_eq!(cw_address_short.get_codeword(), 0x13DF27FF)
}

#[test]
fn test_cw_address_short_get_codeword_when_zero_capcode() {
    assert_eq!(CWAddressShort::new(0x0).is_err(), true);
}

#[test]
fn test_cw_address_short_get_codeword_when_invalid_capcode() {
    assert_eq!(CWAddressShort::new(0x1EA800).is_err(), true);
}

#[test]
fn cw_address_short_test_get_address_cw_short_lowest() {
    let cw_address_short = cw_address_short::CWAddressShort::new(0x1).unwrap();
    assert_eq!(cw_address_short.get_codeword(), 0x96E00001)
}

#[test]
fn cw_address_short_test_get_address_cw_short_highest() {
    let cw_address_short = cw_address_short::CWAddressShort::new(0x1F27FF).unwrap();
    assert_eq!(cw_address_short.get_codeword(), 0x13DF27FF)
}

#[test]
fn cw_address_short_test_get_address_cw_short_zero() {
    assert_eq!(cw_address_short::CWAddressShort::new(0x0).is_err(), true);
}

#[test]
fn cw_address_short_test_get_address_cw_short_toohigh() {
    assert_eq!(cw_address_short::CWAddressShort::new(0x1F2800).is_err(), true);
}

#[test]
fn get_address_cw_short_test_get_address_cw_short_lowest() {
    assert_eq!(get_address_cw_short(0x1).unwrap(), 0x96E00001)
}

#[test]
fn get_address_cw_short_test_get_address_cw_short_highest() {
    assert_eq!(get_address_cw_short(0x1F27FF).unwrap(), 0x13DF27FF)
}

#[test]
fn get_address_cw_short_test_get_address_cw_short_zero() {
    assert_eq!(get_address_cw_short(0x0).unwrap_err(), "Short address out of range")
}

#[test]
fn get_address_cw_short_test_get_address_cw_short_toohigh() {
    assert_eq!(get_address_cw_short(0x1F2800).unwrap_err(), "Short address out of range")
}

#[test]
fn test_cw_vector_alphanum_lowest() {
    let cw_vector_alphanum = CWVectorAlpha::new(3, 1).unwrap();
    assert_eq!(cw_vector_alphanum.get_codeword() & 0x1FFFF0, 0x0041D0)
}

#[test]
fn test_cw_vector_alphanum_highest() {
    let cw_vector_alphanum = CWVectorAlpha::new(87, 85).unwrap();
    assert_eq!(cw_vector_alphanum.get_codeword() & 0x1FFFF0, 0x156BD0)
}

#[test]
fn test_cw_vector_alphanum_crc() {
    let cw_vector_alphanum = CWVectorAlpha::new(3, 49).unwrap();
    assert_eq!(cw_vector_alphanum.get_codeword(), 0xD98C41D1)
}

#[test]
fn test_cw_vector_alphanum_out_of_range_1() {
    assert_eq!(CWVectorAlpha::new(0, 1).is_err(), true);
}

#[test]
fn test_cw_vector_alphanum_out_of_range_2() {
    assert_eq!(CWVectorAlpha::new(88, 1).is_err(), true);
}

#[test]
fn test_cw_vector_alphanum_out_of_range_3() {
    assert_eq!(CWVectorAlpha::new(3, 0).is_err(), true);
}

#[test]
fn test_cw_vector_alphanum_out_of_range_4() {
    assert_eq!(CWVectorAlpha::new(3, 86).is_err(), true);
}

#[test]
fn test_codeword_fiw() {
    let fiw = FIW::new(3, 60, 0, 8).unwrap();
    assert_eq!(fiw.get_codeword() & 0x1FFFF0, 0x103C30);
}

#[test]
fn test_codeword_fiw_out_of_range_cycle() {
    assert_eq!(FIW::new(15, 60, 0, 8).is_err(), true);
}

#[test]
fn test_codeword_fiw_out_of_range_frame() {
    assert_eq!(FIW::new(14, 128, 0, 8).is_err(), true);
}

#[test]
fn test_codeword_fiw_out_of_range_repeat() {
    assert_eq!(FIW::new(14, 60, 2, 8).is_err(), true);
}

#[test]
fn test_codeword_fiw_test_crc() {
    let fiw = FIW::new(3, 107, 0, 0).unwrap();
    assert_eq!(fiw.get_codeword(), 0xE4A06B3B);
}

#[test]
fn test_codeword_fiw_checksum_and_parity() {
    let cw = FIW::new(14, 127, 1, 0).unwrap().get_codeword();
    assert_eq!(cw.count_ones() % 2, 0);
    let mut sum = 0;
    for shift in [0, 4, 8, 12, 16] {
        sum += (cw >> shift) & 0xF;
    }
    sum += (cw >> 20) & 1;
    assert_eq!(sum % 16, 15);
}
