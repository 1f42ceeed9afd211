//! Hashing a point of the Ristretto group to a block.

use crate::aes::aes256::Aes256;
use crate::aes::expansion::key_schedule;
use crate::aes::rijndael::cipher;
use crate::block::Block;
use curve25519_dalek::ristretto::RistrettoPoint;
use vstd::prelude::*;

verus! {

/// A point of the Ristretto group, of which nothing is known here but its
/// encoding.
#[verifier::external_type_specification]
#[verifier::external_body]
pub struct ExRistrettoPoint(RistrettoPoint);

/// The canonical encoding of a point: the 32 bytes that
/// `RistrettoPoint::compress` returns for it.
pub uninterp spec fn ristretto_encoding(pt: RistrettoPoint) -> Seq<u8>;

/// Calls `RistrettoPoint::compress` and copies the bytes out of the
/// `CompressedRistretto` with `to_bytes`. The contract only names the result:
/// the encoding is a function of the point.
#[verifier::external_body]
fn compress_point(pt: &RistrettoPoint) -> (bytes: [u8; 32])
    ensures
        bytes@ == ristretto_encoding(*pt),
{
    pt.compress().to_bytes()
}

/// The block that holds `tweak` as a number.
pub open spec fn tweak_block(tweak: usize) -> Block {
    Block(tweak as u128)
}

/// The hash of the tweak under a key of 32 bytes: the AES-256 encryption of
/// the tweak's block.
pub open spec fn hash_under_key(tweak: usize, key: Seq<u8>) -> Block {
    Block::of_bytes(cipher(key_schedule(key, 8), tweak_block(tweak).bytes()))
}

impl Block {
    /// Hash the encoding `key` of an elliptic curve point and tweak `tweak`.
    ///
    /// Computes `E_{key}(tweak)`, where `E` is AES-256.
    pub fn hash_encoded_pt(tweak: usize, key: &[u8; 32]) -> (r: Block)
        ensures
            r == hash_under_key(tweak, key@),
    {
        let c = Aes256::new(key);
        c.encrypt(Block(tweak as u128))
    }

    /// Hash an elliptic curve point `pt` and tweak `tweak`.
    ///
    /// Computes the hash by computing `E_{pt}(tweak)`, where `E` is AES-256
    /// and the key is the encoding of `pt`.
    pub fn hash_pt(tweak: usize, pt: &RistrettoPoint) -> (r: Block)
        ensures
            r == hash_under_key(tweak, ristretto_encoding(*pt)),
    {
        let k = compress_point(pt);
        Block::hash_encoded_pt(tweak, &k)
    }
}

} // verus!
