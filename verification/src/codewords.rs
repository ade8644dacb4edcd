//! The codewords of the current encoder: block information words 2 to 4,
//! short addresses, alphanumeric vectors and alphanumeric messages.

pub mod address_short;
pub mod biw2;
pub mod biw3;
pub mod biw4;
pub mod cw_message_alpha;
pub mod vector_alpha;
