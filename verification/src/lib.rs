//! Building blocks for secure multi-party computation: 128-bit and 512-bit
//! values, the AES block cipher for encryption only, and the
//! correlation-robust hash functions built on it.

use vstd::prelude::*;

pub mod aes;
pub mod block;
pub mod block512;
pub mod carryless;
pub mod hash_aes;
pub mod hex;
pub mod layout;
pub mod point_hash;

pub use crate::aes::aes128::{Aes128, FIXED_ROUND_KEYS};
pub use crate::aes::aes256::Aes256;
pub use crate::block::{Block, LengthMismatch, ALL_ONES, ONE};
pub use crate::block512::Block512;
pub use crate::hash_aes::AesHash;

verus! {

/// A marker trait denoting that the given scheme is semi-honest secure.
pub trait SemiHonest {

}

/// A marker trait denoting that the given scheme is maliciously secure.
pub trait Malicious: SemiHonest {

}

} // verus!
