use flexencoder::apply_bch_and_parity::apply_bch_and_parity;
use flexencoder::apply_checksums::apply_checksums;
use flexencoder::bch_calculator::calculate_crc;
use flexencoder::fourbit_checksum::apply_4bit_checksum;
use flexencoder::parity::check_and_set_parity;

#[test]
fn test_calculate_crc_all_zeroes() {
    let test_codeword: u32 = 0;
    let expected_crc = 0;
    let result = calculate_crc(test_codeword);
    assert_eq!(result, expected_crc);
}

#[test]
fn test_calculate_crc_all_ones() {
    let test_codeword: u32 = 0x001FFFFF;
    let expected_crc = 0x7FFFFFFF;
    let result = calculate_crc(test_codeword);
    assert_eq!(result, expected_crc);
}

#[test]
fn test_calculate_crc_1() {
    let test_codeword: u32 = 0x1D40CD;
    let expected_crc: u32 = 0x1EDD40CD;
    let result = calculate_crc(test_codeword);
    assert_eq!(result, expected_crc);
}

#[test]
fn test_calculate_crc_2() {
    let test_codeword: u32 = 0x87523;
    let expected_crc: u32 = 0x38C87523;
    let result = calculate_crc(test_codeword);
    assert_eq!(result, expected_crc);
}

#[test]
fn test_calculate_crc_keeps_high_bits() {
    // Bits above the information bits are kept and merged with the check bits.
    let result = calculate_crc(0x80000000);
    assert_eq!(result & 0x80000000, 0x80000000);
    assert_eq!(result & 0x1FFFFF, 0);
}

#[test]
fn test_calculate_4bit_checksum_all_zeroes() {
    let test_codeword: u32 = 0x00000000;
    let expected_crc: u32 = 0x0000000F;
    let result = apply_4bit_checksum(test_codeword);
    assert_eq!(result, expected_crc);
}

#[test]
fn test_calculate_4bit_checksum_all_ones() {
    let test_codeword: u32 = 0x001FFFF0;
    let expected_crc: u32 = 0x001FFFF2;
    let result = apply_4bit_checksum(test_codeword);
    assert_eq!(result, expected_crc);
}

#[test]
fn test_calculate_4bit_checksum() {
    let test_codeword: u32 = 0x00139C50;
    let expected_crc: u32 = 0x00139C51;
    let result = apply_4bit_checksum(test_codeword);
    assert_eq!(result, expected_crc);
}

#[test]
fn test_4bit_checksum_nibbles_sum_to_fifteen() {
    let result = apply_4bit_checksum(0x00139C50);
    let mut sum = result & 0xF;
    for shift in [4, 8, 12, 16] {
        sum += (result >> shift) & 0xF;
    }
    sum += (result >> 20) & 0x1;
    assert_eq!(sum % 16, 15);
}

#[test]
fn test_parity_all_zeroes() {
    let mut test_data: u32 = 0x0;
    let result: bool = check_and_set_parity(&mut test_data);
    assert_eq!(result, false);
    assert_eq!(test_data, test_data);
}

#[test]
fn test_parity_all_ones() {
    let mut test_data: u32 = 0x7FFFFFFF;
    let result: bool = check_and_set_parity(&mut test_data);
    assert_eq!(result, true);
    assert_eq!(test_data, 0xFFFFFFFF);
}

#[test]
fn test_parity_even() {
    let mut test_data: u32 = 0x00000003;
    let result: bool = check_and_set_parity(&mut test_data);
    assert_eq!(result, false);
    assert_eq!(test_data, test_data);
}

#[test]
fn test_parity_illegal_paritybit() {
    let mut test_data: u32 = 0x80000003;
    let result: bool = check_and_set_parity(&mut test_data);
    assert_eq!(result, false);
    assert_eq!(test_data, 0x00000003);
}

#[test]
fn test_parity_odd_with_parity_bit_set_toggles_it() {
    let mut test_data: u32 = 0x80000001;
    let result = check_and_set_parity(&mut test_data);
    assert_eq!(result, true);
    assert_eq!(test_data, 0x00000001);
}

#[test]
fn test_apply_bch_and_parity_even_weight() {
    for info in [0x1u32, 0x8204, 0x1D40CD, 0x1FFFFF] {
        let cw = apply_bch_and_parity(info);
        assert_eq!(cw & 0x1FFFFF, info);
        assert_eq!(cw.count_ones() % 2, 0);
    }
}

#[test]
fn test_apply_checksums_biw_word() {
    let cw = apply_checksums(0x19F2A0);
    assert_eq!(cw & 0x1FFFF0, 0x19F2A0);
    assert_eq!(cw & 0xF, 0xA);
    assert_eq!(cw.count_ones() % 2, 0);
}

#[test]
fn test_calculate_crc_is_linear() {
    let a: u32 = 0x1D40CD;
    let b: u32 = 0x87523;
    assert_eq!(calculate_crc(a ^ b), calculate_crc(a) ^ calculate_crc(b));
    assert_eq!(calculate_crc(a) ^ calculate_crc(b), 0x1EDD40CD ^ 0x38C87523);
}

#[test]
fn test_calculate_crc_again_changes_nothing() {
    for w in [0x1D40CDu32, 0x87523, 0x1FFFFF, 0x1] {
        let once = calculate_crc(w);
        assert_eq!(calculate_crc(once), once);
    }
}
