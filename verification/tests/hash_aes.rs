use scuttlebutt::{Aes128, AesHash, Block};

const X: u128 = 0x2A179373117E3DE9969F402EE2BEC16B;
const TWEAK: u128 = 0x0123456789ABCDEFFEDCBA9876543210;

fn sigma(x: u128) -> u128 {
    let high = x >> 64;
    let low = x & 0xFFFF_FFFF_FFFF_FFFF;
    ((high ^ low) << 64) | low
}

#[test]
fn test_fixed_key_hash_known_answers() {
    let hash = AesHash::fixed_key();
    assert_eq!(hash.cr_hash(Block(TWEAK), Block(X)), Block(0x14ec77fe850b583560d75b8b0253b1e5));
    assert_eq!(hash.ccr_hash(Block(TWEAK), Block(X)), Block(0x8ba67f1dcd4196dac9b5d4a2c1d893fb));
    assert_eq!(hash.tccr_hash(Block(TWEAK), Block(X)), Block(0x3f01aef7011c128f8ff0c31527781172));
}

#[test]
fn test_keyed_hash_known_answers() {
    let hash = AesHash::new(Block(0x3C4FCF098815F7ABA6D2AE2816157E2B));
    assert_eq!(hash.cr_hash(Block(TWEAK), Block(X)), Block(0xbdf8f557e2b4a341f6a93a2356c51651));
    assert_eq!(hash.ccr_hash(Block(TWEAK), Block(X)), Block(0x5947a85e2946708700e7ca58e79ff0e7));
    assert_eq!(hash.tccr_hash(Block(TWEAK), Block(X)), Block(0xd55cfbc8d6ddf7281e349311ba1cb5d3));
}

#[test]
fn test_sigma_layout() {
    assert_eq!(sigma(X), 0xbc88d35df3c0fc82969f402ee2bec16b);
    let hash = AesHash::fixed_key();
    let low_only = Block(0x0000_0000_0000_0000_0000_0000_0000_0001);
    let moved = Block(0x0000_0000_0000_0001_0000_0000_0000_0001);
    assert_eq!(hash.ccr_hash(Block(0), low_only), hash.cr_hash(Block(0), moved));
    let high_only = Block(0x0000_0000_0000_0001_0000_0000_0000_0000);
    assert_eq!(hash.ccr_hash(Block(0), high_only), hash.cr_hash(Block(0), high_only));
}

#[test]
fn test_hashes_follow_their_formulas() {
    let key = Block(rand::random::<u128>());
    let hash = AesHash::new(key);
    let aes = Aes128::new(key);
    for _ in 0..50 {
        let x = Block(rand::random::<u128>());
        let i = Block(rand::random::<u128>());
        assert_eq!(hash.cr_hash(i, x), aes.encrypt(x) ^ x);
        assert_eq!(hash.ccr_hash(i, x), hash.cr_hash(i, Block(sigma(x.0))));
        let y = aes.encrypt(x);
        assert_eq!(hash.tccr_hash(i, x), y ^ aes.encrypt(y ^ i));
    }
}

#[test]
fn test_cr_and_ccr_do_not_read_the_tweak() {
    let hash = AesHash::fixed_key();
    for _ in 0..20 {
        let x = Block(rand::random::<u128>());
        let i = Block(rand::random::<u128>());
        let j = Block(rand::random::<u128>());
        assert_eq!(hash.cr_hash(i, x), hash.cr_hash(j, x));
        assert_eq!(hash.ccr_hash(i, x), hash.ccr_hash(j, x));
    }
    assert_ne!(hash.tccr_hash(Block(0), Block(X)), hash.tccr_hash(Block(1), Block(X)));
}

#[test]
fn test_hashes_are_deterministic() {
    let key = Block(rand::random::<u128>());
    let one = AesHash::new(key);
    let two = AesHash::new(key);
    for _ in 0..20 {
        let x = Block(rand::random::<u128>());
        let i = Block(rand::random::<u128>());
        assert_eq!(one.cr_hash(i, x), two.cr_hash(i, x));
        assert_eq!(one.ccr_hash(i, x), two.ccr_hash(i, x));
        assert_eq!(one.tccr_hash(i, x), two.tccr_hash(i, x));
        assert_eq!(one.tccr_hash(i, x), one.tccr_hash(i, x));
    }
    let fixed = AesHash::fixed_key();
    let again = AesHash::fixed_key();
    assert_eq!(fixed.tccr_hash(Block(TWEAK), Block(X)), again.tccr_hash(Block(TWEAK), Block(X)));
}

fn mean_flipped_bits(hash: &dyn Fn(Block) -> Block) -> f64 {
    let trials = 2000;
    let mut flipped: u64 = 0;
    for _ in 0..trials {
        let x = rand::random::<u128>();
        let bit = rand::random::<u32>() % 128;
        let a = hash(Block(x));
        let b = hash(Block(x ^ (1 << bit)));
        flipped += (a.0 ^ b.0).count_ones() as u64;
    }
    flipped as f64 / trials as f64
}

#[test]
fn test_hashes_avalanche() {
    let hash = AesHash::fixed_key();
    let tweak = Block(TWEAK);
    let cr = mean_flipped_bits(&|x| hash.cr_hash(tweak, x));
    let ccr = mean_flipped_bits(&|x| hash.ccr_hash(tweak, x));
    let tccr = mean_flipped_bits(&|x| hash.tccr_hash(tweak, x));
    for mean in [cr, ccr, tccr] {
        assert!(mean > 60.0 && mean < 68.0, "mean of flipped bits: {}", mean);
    }
}
