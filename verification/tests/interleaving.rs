use flexencoder::block::Block;
use flexencoder::blocks::Blocks;
use flexencoder::interleaver::interleave_codewords_1600;

fn all_as_expected() -> [u8; 32] {
    [0x00, 0xff, 0x00, 0xff, 0x00, 0xff, 0x00, 0xff, 0x00, 0xff, 0x00, 0xff, 0x00, 0xff, 0x00,
     0xff, 0x00, 0xff, 0x00, 0xff, 0x00, 0xff, 0x00, 0xff, 0x00, 0xff, 0x00, 0xff, 0x00, 0xff,
     0x00, 0xff]
}

#[test]
fn interleaver_test_interleave_codewords_1600_all_zeroes() {
    let test_data: [u32; 8] = [0; 8];
    let result = interleave_codewords_1600(test_data);
    assert_eq!(result, [0; 32]);
}

#[test]
fn interleaver_test_interleave_codewords_1600_all_ones() {
    let test_data: [u32; 8] = [<u32>::max_value(); 8];
    let result = interleave_codewords_1600(test_data);
    assert_eq!(result, [<u8>::max_value(); 32]);
}

#[test]
fn interleaver_test_interleave_codewords_1600_single_one() {
    let test_data: [u32; 8] = [0x00000200, 0, 0, 0, 0, 0, 0, 0];
    let result = interleave_codewords_1600(test_data);
    let mut test_helper: [u8; 32] = [0; 32];
    test_helper[9] = 0x01;
    assert_eq!(result, test_helper);
}

#[test]
fn interleaver_test_interleave_codewords_1600_all_as() {
    let test_data: [u32; 8] = [0xaaaaaaaa; 8];
    let result = interleave_codewords_1600(test_data);
    assert_eq!(result, all_as_expected());
}

#[test]
fn test_interleave_codeword_goes_to_its_bit() {
    let test_data: [u32; 8] = [0, 0, 0, 0x80000001, 0, 0, 0, 0];
    let result = interleave_codewords_1600(test_data);
    let mut expected: [u8; 32] = [0; 32];
    expected[0] = 0x08;
    expected[31] = 0x08;
    assert_eq!(result, expected);
}

#[test]
fn block_test_interleave_codewords_1600_all_zeroes() {
    let test_data: [u32; 8] = [0; 8];
    let result = Block::interleave_codewords_1600(&test_data);
    assert_eq!(result, [0; 32]);
}

#[test]
fn block_test_interleave_codewords_1600_all_ones() {
    let test_data: [u32; 8] = [<u32>::max_value(); 8];
    let result = Block::interleave_codewords_1600(&test_data);
    assert_eq!(result, [<u8>::max_value(); 32]);
}

#[test]
fn block_test_interleave_codewords_1600_single_one() {
    let test_data: [u32; 8] = [0x00000200, 0, 0, 0, 0, 0, 0, 0];
    let result = Block::interleave_codewords_1600(&test_data);
    let mut test_helper: [u8; 32] = [0; 32];
    test_helper[9] = 0x01;
    assert_eq!(result, test_helper);
}

#[test]
fn block_test_interleave_codewords_1600_all_as() {
    let test_data: [u32; 8] = [0xaaaaaaaa; 8];
    let result = Block::interleave_codewords_1600(&test_data);
    assert_eq!(result, all_as_expected());
}

#[test]
fn blocks_test_interleave_codewords_1600_all_zeroes() {
    let test_data: [u32; 8] = [0; 8];
    let result = Blocks::interleave_codewords_1600(&test_data);
    assert_eq!(result, [0; 32]);
}

#[test]
fn blocks_test_interleave_codewords_1600_all_ones() {
    let test_data: [u32; 8] = [<u32>::max_value(); 8];
    let result = Blocks::interleave_codewords_1600(&test_data);
    assert_eq!(result, [<u8>::max_value(); 32]);
}

#[test]
fn blocks_test_interleave_codewords_1600_single_one() {
    let test_data: [u32; 8] = [0x00000200, 0, 0, 0, 0, 0, 0, 0];
    let result = Blocks::interleave_codewords_1600(&test_data);
    let mut test_helper: [u8; 32] = [0; 32];
    test_helper[9] = 0x01;
    assert_eq!(result, test_helper);
}

#[test]
fn blocks_test_interleave_codewords_1600_all_as() {
    let test_data: [u32; 8] = [0xaaaaaaaa; 8];
    let result = Blocks::interleave_codewords_1600(&test_data);
    assert_eq!(result, all_as_expected());
}

#[test]
fn test_block() {
    assert_eq!(Block::new().is_err(), false);
}

#[test]
fn test_get_empty_block() {
    assert_eq!(Block::get_empty_block(), [0x55; 32]);
}

#[test]
fn test_block_get_bytes_is_one_block() {
    let block = Block::new().unwrap();
    assert_eq!(block.get_bytes().len(), 32);
}
