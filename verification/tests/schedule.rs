use flexencoder::encoder::frames_hton;
use flexencoder::message::{Message, MessageType};
use flexencoder::schedule::{
    build_frame, generate_continuous_frame, generate_hour, generate_single_frames,
    select_operation_mode, OperationMode,
};

fn msg(frame: u32, capcode: u32, text: &str) -> Message {
    Message::new(frame, MessageType::AlphaNum, capcode, String::from(text)).unwrap()
}

#[test]
fn test_build_frame_takes_messages_of_its_number() {
    let msgs = vec![msg(1, 0x8001, "test"), msg(2, 0x8002, "other"), msg(1, 0x8003, "again")];
    let frame = build_frame(0, 1, &msgs).unwrap();
    assert_eq!(frame.space_left(), 88 - 1 - 5 - 5);
}

#[test]
fn test_build_frame_overflow() {
    let msgs: Vec<Message> = (0..18).map(|_| msg(1, 0x8001, "test")).collect();
    assert!(matches!(build_frame(0, 1, &msgs), Err("could not add message to frame")));
    let msgs: Vec<Message> = (0..17).map(|_| msg(1, 0x8001, "test")).collect();
    assert_eq!(build_frame(0, 1, &msgs).is_ok(), true);
}

#[test]
fn test_build_frame_refuses_one_byte_text() {
    let msgs = vec![msg(3, 0x8001, "x")];
    assert_eq!(build_frame(0, 3, &msgs).is_err(), true);
    // A message for another frame does not matter.
    assert_eq!(build_frame(0, 4, &msgs).is_ok(), true);
}

#[test]
fn test_generate_hour() {
    let msgs = vec![msg(0, 0x8001, "test1"), msg(1, 0x8002, "test2")];
    let frames = generate_hour(&msgs).unwrap();
    assert_eq!(frames.len(), 15 * 128);
    assert_eq!(frames[0].space_left(), 88 - 4 - 5);
    assert_eq!(frames[1].space_left(), 88 - 1 - 5);
    assert_eq!(frames[2].space_left(), 88 - 1);
    assert_eq!(frames[128 + 1].space_left(), 88 - 1 - 5);
    assert_eq!(frames_hton(&frames).len(), 15 * 128 * 375);
}

#[test]
fn test_generate_hour_overflowing_frame() {
    let msgs: Vec<Message> = (0..17).map(|_| msg(0, 0x8001, "test")).collect();
    assert_eq!(generate_hour(&msgs).is_err(), true);
}

#[test]
fn test_generate_single_frames() {
    let msgs = vec![msg(0, 0x8001, "test1"), msg(5, 0x8002, "test2")];
    let frames = generate_single_frames(&msgs).unwrap();
    assert_eq!(frames.len(), 2);
    assert_eq!(frames[0].space_left(), 88 - 4 - 5);
    assert_eq!(frames[1].space_left(), 88 - 1 - 5);
}

#[test]
fn test_generate_single_frames_frame_128() {
    let msgs = vec![msg(128, 0x8001, "test")];
    assert!(matches!(generate_single_frames(&msgs), Err("Invalid Frame number")));
}

#[test]
fn test_generate_continuous_frame() {
    let mut queue = vec![
        msg(7, 0x8001, "first"),
        msg(8, 0x8002, "later"),
        msg(7, 0x8003, "second"),
    ];
    let frame = generate_continuous_frame(&mut queue, 2, 7);
    assert_eq!(frame.space_left(), 88 - 1 - 5 - 6);
    assert_eq!(queue.len(), 1);
    assert_eq!(queue[0].capcode, 0x8002);
}

#[test]
fn test_generate_continuous_frame_keeps_what_does_not_fit() {
    let long_text = "x".repeat(300);
    let mut queue = vec![msg(7, 0x8001, &long_text), msg(7, 0x8002, "short")];
    let frame = generate_continuous_frame(&mut queue, 0, 7);
    assert_eq!(queue.len(), 1);
    assert_eq!(queue[0].capcode, 0x8001);
    assert_eq!(frame.space_left(), 88 - 1 - 5);
}

#[test]
fn test_select_operation_mode() {
    assert!(matches!(select_operation_mode(true, true, true), Ok(OperationMode::Hour)));
    assert!(matches!(select_operation_mode(false, true, true), Ok(OperationMode::Single)));
    assert!(matches!(select_operation_mode(false, false, true), Ok(OperationMode::Continuous)));
    assert!(matches!(select_operation_mode(false, false, false), Err("No operation mode given.")));
}

#[test]
fn test_build_frame_error_is_the_first_problem() {
    // The unencodable message comes first: that is the error.
    let msgs = vec![msg(3, 0x8001, "x"), msg(3, 0x8002, &"y".repeat(300))];
    assert!(matches!(build_frame(0, 3, &msgs), Err("message cannot be encoded in a frame")));
    // The overflow comes first: that is the error.
    let msgs = vec![msg(3, 0x8002, &"y".repeat(300)), msg(3, 0x8001, "x")];
    assert!(matches!(build_frame(0, 3, &msgs), Err("could not add message to frame")));
}

#[test]
fn test_generate_hour_reports_first_failing_frame() {
    let msgs = vec![msg(9, 0x8002, &"y".repeat(300)), msg(5, 0x8001, "x")];
    assert!(matches!(generate_hour(&msgs), Err("message cannot be encoded in a frame")));
    let msgs = vec![msg(4, 0x8002, &"y".repeat(300)), msg(5, 0x8001, "x")];
    assert!(matches!(generate_hour(&msgs), Err("could not add message to frame")));
}

#[test]
fn test_generate_single_frames_errors() {
    let msgs = vec![msg(2, 0x8001, "x"), msg(128, 0x8002, "test")];
    assert!(matches!(generate_single_frames(&msgs), Err("message cannot be encoded in a frame")));
    let msgs = vec![msg(2, 0x8001, &"y".repeat(300))];
    assert!(matches!(generate_single_frames(&msgs), Err("could not add message to frame")));
}

#[test]
fn test_generate_continuous_frame_loses_nothing() {
    let mut queue = vec![
        msg(7, 0x8001, &"a".repeat(150)),
        msg(7, 0x8002, &"b".repeat(150)),
        msg(3, 0x8003, "other"),
        msg(7, 0x8004, "tail"),
    ];
    let frame = generate_continuous_frame(&mut queue, 1, 7);
    // 150 characters take 52 message words, 54 frame words with address
    // and vector; "tail" takes 5. The first and the last message fit, the
    // second does not.
    assert_eq!(frame.space_left(), 88 - 1 - 54 - 5);
    let kept: Vec<u32> = queue.iter().map(|m| m.capcode).collect();
    assert_eq!(kept, vec![0x8002, 0x8003]);
}
