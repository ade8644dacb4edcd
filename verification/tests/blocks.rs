use flexencoder::blocks::Blocks;
use flexencoder::message::{Message, MessageType};

#[test]
fn test_get_biw_cws_no_time() {
    let cws = Blocks::get_biw_cws(1, false);
    assert_eq!(cws.len(), 1);
    assert_eq!(cws[0] & 0x1FFFF0, 0x000800);
}

#[test]
fn test_get_biw_cws_send_time() {
    let cws = Blocks::get_biw_cws(1, true);
    assert_eq!(cws.len(), 4);
    assert_eq!(cws[0] & 0x1FFFF0, 0x001700);
}

#[test]
fn test_get_addr_cws() {
    let msg = Message::new(0, MessageType::AlphaNum, 0x8001, String::from("test")).unwrap();
    let msgs = vec![msg];
    let cws = Blocks::get_addr_cws(&msgs);
    assert_eq!(cws.len(), 1);
    assert_eq!(cws[0] & 0x1FFFFF, 0x8001);
}

#[test]
fn test_get_vector_and_content_cws() {
    let msg = Message::new(0, MessageType::AlphaNum, 0x8001, String::from("test")).unwrap();
    let msgs = vec![msg];
    let (vector_cws, content_cws) = Blocks::get_vector_and_content_cws(&msgs, 1, msgs.len());
    assert_eq!(vector_cws.len(), 1);
    assert_eq!(vector_cws[0] & 0x1FFFF0, 0x00C1D0);
    assert_eq!(content_cws.len(), 3);
}

#[test]
fn test_fill_up_block_1600() {
    let cws = vec![0x0];
    let filled_up = Blocks::fill_up_block_1600(&cws);
    assert_eq!(filled_up.len(), 88);
}

#[test]
fn test_fill_up_block_1600_alternates() {
    let cws = vec![0x1, 0x2, 0x3];
    let filled_up = Blocks::fill_up_block_1600(&cws);
    assert_eq!(&filled_up[0..3], &[0x1, 0x2, 0x3]);
    assert_eq!(filled_up[3], 0x0);
    assert_eq!(filled_up[4], 0xFFFFFFFF);
    assert_eq!(filled_up[87], 0x0);
}

#[test]
fn test_blocks_get_bytes_length() {
    let msg = Message::new(0, MessageType::AlphaNum, 0x8001, String::from("test")).unwrap();
    let msgs = vec![msg];
    assert_eq!(Blocks::get_bytes(&msgs, true).len(), 352);
    assert_eq!(Blocks::get_bytes(&Vec::new(), false).len(), 352);
}
