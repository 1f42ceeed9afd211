//! The block cipher, with keys of 128 and of 256 bits, for encryption only.

pub mod aes128;
pub mod aes256;
pub mod expansion;
pub mod field;
pub mod rijndael;
