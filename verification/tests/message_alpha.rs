use flexencoder::codeword::Codeword;
use flexencoder::codewords::cw_message_alpha::CWMessageAlpha;
use flexencoder::cw_message_alpha;
use flexencoder::cw_message_alpha_chars::CWMessageAlphaChars;
use flexencoder::cw_message_alpha_content::CWMessageAlphaContent;
use flexencoder::cw_message_alpha_header::CWMessageAlphaHeader;
use flexencoder::cw_message_alpha_signature::CWMessageAlphaSignature;

#[test]
fn cw_message_alpha_test_message_alpha_calculate_signature_1() {
    let chars: [u8; 1] = [0x7F];
    let msg_signature = CWMessageAlpha::calculate_signature(&chars);
    assert_eq!(msg_signature, 0x0);
    let msg_signature = cw_message_alpha::CWMessageAlpha::calculate_signature(&chars);
    assert_eq!(msg_signature, 0x0);
}

#[test]
fn cw_message_alpha_test_message_alpha_calculate_signature_3() {
    let chars: [u8; 3] = [0x7F; 3];
    let msg_signature = CWMessageAlpha::calculate_signature(&chars);
    assert_eq!(msg_signature, 0x2);
    let msg_signature = cw_message_alpha::CWMessageAlpha::calculate_signature(&chars);
    assert_eq!(msg_signature, 0x2);
}

#[test]
fn test_fill_up_chars_1() {
    let mut chars = vec![0x00];
    CWMessageAlpha::fill_up_chars(&mut chars);
    assert_eq!(chars.len(), 2);
}

#[test]
fn test_fill_up_chars_3() {
    let mut chars = vec![0x00, 0x01, 0x03];
    CWMessageAlpha::fill_up_chars(&mut chars);
    assert_eq!(chars.len(), 5);
}

#[test]
fn test_fill_up_chars_pads_with_etx() {
    let mut chars = vec![0x41, 0x42, 0x43];
    CWMessageAlpha::fill_up_chars(&mut chars);
    assert_eq!(chars, vec![0x41, 0x42, 0x43, 0x03, 0x03]);
    let mut exact = vec![0x41, 0x42];
    CWMessageAlpha::fill_up_chars(&mut exact);
    assert_eq!(exact, vec![0x41, 0x42]);
}

#[test]
fn cw_message_alpha_test_message_alpha_get_codewords() {
    let text_vec = Vec::from("Gurkensalat");
    let msg_alpha = CWMessageAlpha::new(23, &text_vec).unwrap();
    assert_eq!(msg_alpha.get_codewords()[0] & 0x1FFA00, 0x02F800);
    assert_eq!(msg_alpha.get_codewords()[0] & 0x3FF, 0x14F);
    assert_eq!(msg_alpha.get_codewords()[1] & 0x1FFF80, 0x1D6380); // Gu
    assert_eq!(msg_alpha.get_codewords()[2] & 0x1FFFFF, 0x1975F2); // rke
    assert_eq!(msg_alpha.get_codewords()[3] & 0x1FFFFF, 0x1879EE); // nsa
    assert_eq!(msg_alpha.get_codewords()[4] & 0x1FFFFF, 0x1D30EC); // lat

    let old_alpha = cw_message_alpha::CWMessageAlpha::new(23, &text_vec).unwrap();
    assert_eq!(old_alpha.get_codewords()[0] & 0x1FFA00, 0x02F800);
    assert_eq!(old_alpha.get_codewords()[1] & 0x1FFF80, 0x1D6380); // Gu
    assert_eq!(old_alpha.get_codewords()[2] & 0x1FFFFF, 0x1975F2); // rke
    assert_eq!(old_alpha.get_codewords()[3] & 0x1FFFFF, 0x1879EE); // nsa
    assert_eq!(old_alpha.get_codewords()[4] & 0x1FFFFF, 0x1D30EC); // lat
}

#[test]
fn test_message_alpha_get_codewords_fillup() {
    let text_vec = Vec::from("Gurken");
    let msg_alpha = CWMessageAlpha::new(23, &text_vec).unwrap();
    assert_eq!(msg_alpha.get_codewords()[1] & 0x1FFF80, 0x1D6380); // Gu
    assert_eq!(msg_alpha.get_codewords()[2] & 0x1FFFFF, 0x1975F2); // rke
    assert_eq!(msg_alpha.get_codewords()[3] & 0x1FFFFF, 0x00C1EE); // nETXETX
}

#[test]
fn test_message_alpha_unpadded_drops_partial_group() {
    let text_vec = Vec::from("Gurken");
    let old_alpha = cw_message_alpha::CWMessageAlpha::new(23, &text_vec).unwrap();
    assert_eq!(old_alpha.get_codewords().len(), 3);
    assert_eq!(cw_message_alpha::CWMessageAlpha::calculate_fragment_check(), 0);
}

#[test]
fn test_message_alpha_unpadded_too_long() {
    let text_vec = vec![0x41u8; 252];
    assert_eq!(cw_message_alpha::CWMessageAlpha::new(1, &text_vec).is_err(), true);
    let text_vec = vec![0x41u8; 251];
    assert_eq!(cw_message_alpha::CWMessageAlpha::new(1, &text_vec).is_err(), false);
}

#[test]
fn test_get_bitgroup_sum() {
    assert_eq!(CWMessageAlpha::get_bitgroup_sum(0x1FFFFF), 0x21D);
}

#[test]
fn test_calculate_fragment_check_1() {
    let codewords = vec![0x1FFFFF];
    assert_eq!(CWMessageAlpha::calculate_fragment_check(&codewords), 0x1E2);
}

#[test]
fn test_calculate_fragment_check_2() {
    let codewords = vec![0x1FFFFF, 0x1FFFFF];
    assert_eq!(CWMessageAlpha::calculate_fragment_check(&codewords), 0x3C5);
}

#[test]
fn test_message_alpha_words_are_valid() {
    let text_vec = Vec::from("Hello, pager!");
    let words = CWMessageAlpha::new(5, &text_vec).unwrap().get_codewords();
    assert_eq!(words.len(), 2 + 4);
    for w in words {
        assert_eq!(w.count_ones() % 2, 0);
    }
}

#[test]
fn test_message_alpha_chars() {
    let msg_chars = CWMessageAlphaChars::new([0x42, 0x23, 0x05]).unwrap();
    assert_eq!(msg_chars.get_codeword() & 0x1FFFFF, 0x151C2);
}

#[test]
fn test_message_alpha_content() {
    let chars = vec![0x42, 0x23, 0x05];
    let msg_chars = CWMessageAlphaContent::new(&chars).unwrap();
    assert_eq!(msg_chars.get_codeword() & 0x1FFFFF, 0x151C2);
}

#[test]
fn test_message_alpha_content_too_few_chars() {
    let chars = vec![0x42, 0x23];
    assert_eq!(CWMessageAlphaContent::new(&chars).is_err(), true);
}

#[test]
fn test_message_alpha_content_too_many_chars() {
    let chars = vec![0x42, 0x23, 0x05, 0x10];
    assert_eq!(CWMessageAlphaContent::new(&chars).is_err(), true);
}

#[test]
fn test_message_alpha_header_1() {
    let msg_header = CWMessageAlphaHeader::new(0, 3, 63, 1, 0).unwrap();
    assert_eq!(msg_header.get_codeword() & 0x1FFA00, 0x0FF800);
}

#[test]
fn test_message_alpha_header_2() {
    let msg_header = CWMessageAlphaHeader::new(0, 3, 23, 0, 0).unwrap();
    assert_eq!(msg_header.get_codeword() & 0x1FFA00, 0x2F800);
}

#[test]
fn test_message_alpha_header_out_of_range() {
    assert_eq!(CWMessageAlphaHeader::new(2, 0, 0, 0, 0).is_err(), true);
    assert_eq!(CWMessageAlphaHeader::new(0, 4, 0, 0, 0).is_err(), true);
    assert_eq!(CWMessageAlphaHeader::new(0, 0, 64, 0, 0).is_err(), true);
    assert_eq!(CWMessageAlphaHeader::new(0, 0, 0, 2, 0).is_err(), true);
    assert_eq!(CWMessageAlphaHeader::new(0, 0, 0, 0, 2).is_err(), true);
}

#[test]
fn test_message_alpha_signature() {
    let chars = vec![0x42, 0x23];
    let msg_signature = CWMessageAlphaSignature::new(0x7F, &chars).unwrap();
    assert_eq!(msg_signature.get_codeword() & 0x1FFFFF, 0x8E17F);
}

#[test]
fn test_message_alpha_signature_invalid() {
    let chars = vec![0x42, 0x23];
    assert_eq!(CWMessageAlphaSignature::new(0x800, &chars).is_err(), true);
}

#[test]
fn test_message_alpha_signature_too_few_chars() {
    let chars = vec![0x42];
    assert_eq!(CWMessageAlphaSignature::new(0x7FF, &chars).is_err(), true);
}

#[test]
fn test_message_alpha_signature_too_many_chars() {
    let chars = vec![0x42, 0x23, 0x05];
    assert_eq!(CWMessageAlphaSignature::new(0x7FF, &chars).is_err(), true);
}
