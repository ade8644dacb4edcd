use flexencoder::header_builder::{
    get_header_sync1_vector, get_header_sync2_vector, FlexHeaderSync1, FlexHeaderSync2,
    FLEX_A1, FLEX_B, FLEX_BS1, FLEX_BS2, FLEX_C,
};

#[test]
fn test_get_header_sync1_vector() {
    let flex_header_sync1 = FlexHeaderSync1 {
        bs1: FLEX_BS1,
        a: FLEX_A1,
        b: FLEX_B,
    };

    let result = get_header_sync1_vector(flex_header_sync1);

    assert_eq!(
        result,
        vec![0xAA, 0xAA, 0xAA, 0xAA, 0x9C, 0x9A, 0xCF, 0x1E, 0x55, 0x55, 0x63, 0x65, 0x30, 0xE1]
    );
}

#[test]
fn test_get_header_sync2_vector() {
    let flex_header_sync2 = FlexHeaderSync2 { bs2: FLEX_BS2, c: FLEX_C };
    let result = get_header_sync2_vector(flex_header_sync2);
    assert_eq!(result, vec![0x57, 0xB1, 0x2A, 0x84, 0xED]);
}

#[test]
fn test_get_header_sync1_vector_most_significant_byte_first() {
    let header = FlexHeaderSync1 { bs1: 0x01020304, a: 0x0A0B0C0D, b: 0x0E0F };
    assert_eq!(
        get_header_sync1_vector(header),
        vec![0x01, 0x02, 0x03, 0x04, 0x0A, 0x0B, 0x0C, 0x0D, 0x0E, 0x0F, 0xF5, 0xF4, 0xF3, 0xF2]
    );
}

#[test]
fn test_get_header_sync2_vector_nibbles() {
    let header = FlexHeaderSync2 { bs2: 0x0, c: 0x1234 };
    assert_eq!(get_header_sync2_vector(header), vec![0x01, 0x23, 0x4F, 0xED, 0xCB]);
}
