use flexencoder::message::{CapcodeType, Message, MessageType};

#[test]
fn test_message_when_typical() {
    let msg = Message::new(0, MessageType::AlphaNum, 0x0001, String::from("test"));
    assert_eq!(msg.is_err(), false);
}

#[test]
fn test_message_when_invalid_capcode() {
    let msg = Message::new(0, MessageType::AlphaNum, 0x0000, String::from("test"));
    assert_eq!(msg.is_err(), true);
}

#[test]
fn test_message_when_invalid_frame() {
    let msg = Message::new(129, MessageType::AlphaNum, 0x0001, String::from("test"));
    assert_eq!(msg.unwrap_err(), "Invalid Frame number");
    let msg = Message::new(128, MessageType::AlphaNum, 0x0001, String::from("test"));
    assert_eq!(msg.is_err(), false);
    let msg = Message::new(129, MessageType::AlphaNum, 0x0000, String::from("test"));
    assert_eq!(msg.unwrap_err(), "Invalid CAPCODE");
}

#[test]
fn test_message_get_capcode_type_when_short_address() {
    assert_eq!(Message::get_capcode_type(0x8001), CapcodeType::ShortAddress);
}

#[test]
fn test_message_get_capcode_type_when_zero_address() {
    assert_eq!(Message::get_capcode_type(0x0), CapcodeType::Invalid);
}

#[test]
fn test_message_get_capcode_type_when_invalid_address() {
    assert_eq!(Message::get_capcode_type(0x1EB000), CapcodeType::Invalid);
}

#[test]
fn test_message_get_num_of_content_codewords_when_five_character() {
    let msg = Message::new(0, MessageType::AlphaNum, 0x8001, String::from("abcde")).unwrap();
    assert_eq!(msg.get_num_of_content_codewords(), 3);
}

#[test]
fn test_message_get_num_of_message_codewords_when_two_character() {
    let msg = Message::new(0, MessageType::AlphaNum, 0x8001, String::from("ab")).unwrap();
    assert_eq!(msg.get_num_of_message_codewords().unwrap(), 4);
}

#[test]
fn test_message_get_num_of_message_codewords_when_four_character() {
    let msg = Message::new(0, MessageType::AlphaNum, 0x8001, String::from("abcd")).unwrap();
    assert_eq!(msg.get_num_of_message_codewords().unwrap(), 5);
}

#[test]
fn test_message_counts_utf8_bytes() {
    // "ä" takes two bytes in UTF-8.
    let msg = Message::new(0, MessageType::AlphaNum, 0x8001, String::from("äbc")).unwrap();
    assert_eq!(msg.get_num_of_content_codewords(), 3);
}

#[test]
fn test_message_get_num_of_message_codewords_invalid_capcode() {
    let msg = Message {
        frame: 0,
        msgtype: MessageType::AlphaNum,
        capcode: 0,
        data: String::from("abcd"),
    };
    assert_eq!(msg.get_num_of_message_codewords().is_err(), true);
}
