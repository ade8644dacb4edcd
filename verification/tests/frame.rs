use flexencoder::blocks::Blocks;
use flexencoder::encoder::frames_hton;
use flexencoder::frame::Frame;
use flexencoder::message::{Message, MessageType};

fn test_message() -> Message {
    Message::new(1, MessageType::AlphaNum, 0x8001, String::from("test")).unwrap()
}

#[test]
fn test_frame_add_message() {
    let mut frame = Frame::new(0, 1).unwrap();
    let msg = test_message();
    assert_eq!(frame.add_message(msg).unwrap(), 6);
}

#[test]
fn test_frame_add_message_86() {
    let mut frame = Frame::new(0, 1).unwrap();
    for _ in 0..16 {
        frame.add_message(test_message()).unwrap();
    }
    let msg = test_message();
    assert_eq!(frame.add_message(msg).unwrap(), 86);
}

#[test]
fn test_frame_add_message_91() {
    let mut frame = Frame::new(0, 1).unwrap();
    for _ in 0..17 {
        frame.add_message(test_message()).unwrap();
    }
    let msg = test_message();
    assert_eq!(frame.add_message(msg).is_err(), true);
}

#[test]
fn test_frame_space_left() {
    let mut frame = Frame::new(0, 0).unwrap();
    assert_eq!(frame.space_left(), 84);
    frame.add_message(test_message()).unwrap();
    assert_eq!(frame.space_left(), 79);
}

#[test]
fn test_frame_get_header() {
    let frame = Frame::new(3, 107).unwrap();
    assert_eq!(
        frame.get_header(),
        [0x55, 0x55, 0x55, 0x55, 0x1E, 0xCF, 0x9A, 0x9C, // sync1
         0xAA, 0xAA, 0xE1, 0x30, 0x65, 0x63,
         0x3B, 0x6B, 0xA0, 0xE4, // FIW
         0x75, 0x1B, 0xA2, 0x48, 0xDE] // Sync2
    );
}

#[test]
fn test_get_sync1() {
    assert_eq!(
        Frame::get_sync1(),
        [0x55, 0x55, 0x55, 0x55, 0x1E, 0xCF, 0x9A, 0x9C, 0xAA, 0xAA, 0xE1, 0x30, 0x65, 0x63]
    );
}

#[test]
fn test_get_sync2() {
    assert_eq!(Frame::get_sync2(), [0x75, 0x1B, 0xA2, 0x48, 0xDE]);
}

#[test]
fn test_u32_to_4_u8() {
    assert_eq!(Frame::u32_to_4_u8(0x12345678), [0x78, 0x56, 0x34, 0x12]);
}

#[test]
fn test_u16_to_2_u8() {
    assert_eq!(Frame::u16_to_2_u8(0x1234), [0x34, 0x12]);
}

#[test]
fn test_frame_get_bytes_length() {
    let mut frame = Frame::new(2, 0).unwrap();
    frame.add_message(test_message()).unwrap();
    let bytes = frame.get_bytes();
    assert_eq!(bytes.len(), 375);
    assert_eq!(&bytes[0..23], &frame.get_header()[..]);
}

#[test]
fn test_frame_bytes_are_header_then_blocks() {
    let mut frame = Frame::new(0, 5).unwrap();
    frame.add_message(test_message()).unwrap();
    let msgs = vec![test_message()];
    let bytes = frame.get_bytes();
    assert_eq!(&bytes[23..], &Blocks::get_bytes(&msgs, false)[..]);
}

#[test]
fn test_calculate_cycle_and_frame() {
    assert_eq!(Frame::calculate_cycle_and_frame(0, 0), (0, 0));
    assert_eq!(Frame::calculate_cycle_and_frame(0, 2), (0, 1));
    assert_eq!(Frame::calculate_cycle_and_frame(5, 30), (1, 48));
    assert_eq!(Frame::calculate_cycle_and_frame(59, 59), (14, 127));
}

#[test]
fn test_frames_hton_reverses_bits() {
    let frame = Frame::new(3, 107).unwrap();
    let bytes = frame.get_bytes();
    let frames = vec![frame];
    let sent = frames_hton(&frames);
    assert_eq!(sent.len(), bytes.len());
    assert_eq!(sent[0], 0xAA); // 0x55 reversed
    assert_eq!(sent[4], 0x78); // 0x1E reversed
    for (s, b) in sent.iter().zip(bytes.iter()) {
        assert_eq!(*s, b.reverse_bits());
    }
}

#[test]
fn test_frame_bytes_start_with_the_header() {
    let frame = Frame::new(3, 107).unwrap();
    let bytes = frame.get_bytes();
    assert_eq!(bytes.len(), 375);
    assert_eq!(
        &bytes[0..14],
        &[0x55, 0x55, 0x55, 0x55, 0x1E, 0xCF, 0x9A, 0x9C, 0xAA, 0xAA, 0xE1, 0x30, 0x65, 0x63]
    );
    assert_eq!(&bytes[18..23], &[0x75, 0x1B, 0xA2, 0x48, 0xDE]);
}
