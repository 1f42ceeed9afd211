use curve25519_dalek::constants::RISTRETTO_BASEPOINT_POINT;
use curve25519_dalek::scalar::Scalar;
use scuttlebutt::{Aes256, Block};

#[test]
fn test_hash_pt_is_aes256_under_the_encoding() {
    let pt = RISTRETTO_BASEPOINT_POINT * Scalar::from(7u64);
    let key = pt.compress().to_bytes();
    let expected = Aes256::new(&key).encrypt(Block::from(5u128));
    assert_eq!(Block::hash_pt(5, &pt), expected);
    assert_eq!(Block::hash_encoded_pt(5, &key), expected);
}

#[test]
fn test_hash_pt_reads_point_and_tweak() {
    let p = RISTRETTO_BASEPOINT_POINT;
    let q = RISTRETTO_BASEPOINT_POINT + RISTRETTO_BASEPOINT_POINT;
    assert_ne!(Block::hash_pt(0, &p), Block::hash_pt(0, &q));
    assert_ne!(Block::hash_pt(0, &p), Block::hash_pt(1, &p));
    assert_eq!(Block::hash_pt(3, &q), Block::hash_pt(3, &q));
}

#[test]
fn test_hash_encoded_pt_known_answer() {
    let k1: u128 = 0x81777D85F0AE732BBE71CA1510EB3D60;
    let k2: u128 = 0xF4DF1409A310982DD708613B072C351F;
    let mut key = [0u8; 32];
    key[..16].copy_from_slice(&k1.to_le_bytes());
    key[16..].copy_from_slice(&k2.to_le_bytes());
    let tweak = 0x969F402EE2BEC16Busize;
    let expected = Aes256::new(&key).encrypt(Block::from(0x969F402EE2BEC16Bu128));
    assert_eq!(Block::hash_encoded_pt(tweak, &key), expected);
}

#[test]
fn test_hash_encoded_pt_literal() {
    let k1: u128 = 0x81777D85F0AE732BBE71CA1510EB3D60;
    let k2: u128 = 0xF4DF1409A310982DD708613B072C351F;
    let mut key = [0u8; 32];
    key[..16].copy_from_slice(&k1.to_le_bytes());
    key[16..].copy_from_slice(&k2.to_le_bytes());
    assert_eq!(Block::hash_encoded_pt(5, &key), Block(0xa5d33415ddf7c01c8ba936cf7b531492));
}
