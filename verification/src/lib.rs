//! FLEX paging protocol encoder (1600 bps, 2-level FSK).
//!
//! Codewords are 32-bit words: 21 information bits, 10 BCH check bits and
//! one even-parity bit. Frames carry a synchronisation header, a frame
//! information word and eleven interleaved blocks of eight codewords.

pub mod bch_calculator;
pub mod fourbit_checksum;
pub mod parity;
pub mod apply_bch_and_parity;
pub mod apply_checksums;
pub mod interleaver;
pub mod codeword;
pub mod cw_biw1;
pub mod cw_fiw;
pub mod codewords;
pub mod cw_message_alpha_chars;
pub mod cw_message_alpha_content;
pub mod cw_message_alpha_header;
pub mod cw_message_alpha_signature;
pub mod cw_message_alpha;
pub mod codeword_biw1;
pub mod codeword_biw3;
pub mod cw_address_short;
pub mod get_address_cw_short;
pub mod message;
pub mod blocks;
pub mod block;
pub mod frame;
pub mod encoder;
pub mod schedule;
pub mod header_builder;
