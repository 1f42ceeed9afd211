use scuttlebutt::{Block, LengthMismatch, ALL_ONES, ONE};

#[test]
fn test_and() {
    let x = Block::from(rand::random::<u128>());
    let y = x & Block(ALL_ONES);
    assert_eq!(x, y);
}

#[test]
fn test_or() {
    let x = Block::from(rand::random::<u128>());
    let y = x | Block(ALL_ONES);
    assert_eq!(y, Block(ALL_ONES));
    let y = x | x;
    assert_eq!(x, y);
}

#[test]
fn test_xor() {
    let x = Block::from(rand::random::<u128>());
    let y = Block::from(rand::random::<u128>());
    let z = x ^ y;
    let z = z ^ y;
    assert_eq!(x, z);
}

#[test]
fn test_lsb() {
    let x = Block::from(rand::random::<u128>());
    let x = x | Block(ONE);
    assert!(x.lsb());
    let x = x ^ Block(ONE);
    assert!(!x.lsb());
}

#[test]
fn test_flip() {
    let x = Block::from(rand::random::<u128>());
    let y = x.flip().flip();
    assert_eq!(x, y);
}

#[test]
fn test_conversion() {
    let x = rand::random::<u128>();
    let x_ = u128::from(Block::from(x));
    assert_eq!(x, x_);
}

fn clmul_reference(x: u128, y: u128) -> (u128, u128) {
    let mut low = 0u128;
    let mut high = 0u128;
    for i in 0..128 {
        if (y >> i) & 1 == 1 {
            low ^= x << i;
            if i > 0 {
                high ^= x >> (128 - i);
            }
        }
    }
    (low, high)
}

#[test]
fn test_clmul_matches_reference_on_random_inputs() {
    for _ in 0..200 {
        let x = rand::random::<u128>();
        let y = rand::random::<u128>();
        let (low, high) = Block(x).clmul(Block(y));
        assert_eq!((low.0, high.0), clmul_reference(x, y));
    }
}

#[test]
fn test_clmul_boundaries() {
    let zero = Block(0);
    let ones = Block(ALL_ONES);
    assert_eq!(zero.clmul(zero), (Block(0), Block(0)));
    assert_eq!(zero.clmul(ones), (Block(0), Block(0)));
    assert_eq!(ones.clmul(zero), (Block(0), Block(0)));
    let (low, high) = ones.clmul(ones);
    assert_eq!((low.0, high.0), clmul_reference(ALL_ONES, ALL_ONES));
    assert_eq!(low.0, 0x5555_5555_5555_5555_5555_5555_5555_5555);
    assert_eq!(high.0, 0x5555_5555_5555_5555_5555_5555_5555_5555);
    assert_eq!(Block(ONE).clmul(ones), (ones, Block(0)));
    assert_eq!(Block(2).clmul(ones), (Block(ALL_ONES - 1), Block(1)));
}

#[test]
fn test_and_or_idempotent() {
    let x = Block::from(rand::random::<u128>());
    assert_eq!(x & x, x);
    assert_eq!(x | x, x);
    assert_eq!(Block(0xF0F0) & Block(0x0FF0), Block(0x00F0));
    assert_eq!(Block(0xF0F0) | Block(0x0FF0), Block(0xFFF0));
    assert_eq!(Block(0xF0F0) ^ Block(0x0FF0), Block(0xFF00));
}

#[test]
fn test_assigning_operators() {
    let x = Block(0x1234_5678_9ABC_DEF0_0FED_CBA9_8765_4321);
    let y = Block(0xFFFF_0000_FFFF_0000_FFFF_0000_FFFF_0000);
    let mut a = x;
    a &= y;
    assert_eq!(a, x & y);
    assert_eq!(a, Block(0x1234_0000_9ABC_0000_0FED_0000_8765_0000));
    let mut o = x;
    o |= y;
    assert_eq!(o, x | y);
    assert_eq!(o, Block(0xFFFF_5678_FFFF_DEF0_FFFF_CBA9_FFFF_4321));
    let mut e = x;
    e ^= y;
    assert_eq!(e, x ^ y);
    assert_eq!(e, Block(0xEDCB_5678_6543_DEF0_F012_CBA9_789A_4321));
}

#[test]
fn test_lsb_and_set_lsb() {
    assert!(!Block(0).lsb());
    assert!(Block(1).lsb());
    assert!(!Block(ALL_ONES - 1).lsb());
    assert!(!Block(1 << 127).lsb());
    assert_eq!(Block(0).set_lsb(), Block(1));
    assert_eq!(Block(6).set_lsb(), Block(7));
    assert_eq!(Block(7).set_lsb(), Block(7));
    assert_eq!(Block(1 << 127).set_lsb(), Block((1 << 127) | 1));
    let bytes = <[u8; 16]>::from(Block(0x0100));
    assert_eq!(bytes[0] & 1, 0);
    assert_eq!(bytes[1], 1);
}

#[test]
fn test_flip_values() {
    assert_eq!(Block(0).flip(), Block(ALL_ONES));
    assert_eq!(Block(ALL_ONES).flip(), Block(0));
    assert_eq!(Block(0xFF).flip(), Block(ALL_ONES - 0xFF));
}

#[test]
fn test_default_is_zero() {
    assert_eq!(Block::default(), Block(0));
}

#[test]
fn test_bytes_are_little_endian() {
    let x = Block::from(0x0F0E_0D0C_0B0A_0908_0706_0504_0302_0100u128);
    let bytes = <[u8; 16]>::from(x);
    assert_eq!(bytes, [0, 1, 2, 3, 4, 5, 6, 7, 8, 9, 10, 11, 12, 13, 14, 15]);
    assert_eq!(Block::from(bytes), x);
    assert_eq!(bytes, 0x0F0E_0D0C_0B0A_0908_0706_0504_0302_0100u128.to_le_bytes());
}

#[test]
fn test_bytes_round_trip() {
    for _ in 0..100 {
        let x = Block::from(rand::random::<u128>());
        assert_eq!(Block::from(<[u8; 16]>::from(x)), x);
        let bytes = rand::random::<[u8; 16]>();
        assert_eq!(<[u8; 16]>::from(Block::from(bytes)), bytes);
    }
}

#[test]
fn test_lanes_name_the_same_bits() {
    let x = Block::from([0x0100u16, 0x0302, 0x0504, 0x0706, 0x0908, 0x0B0A, 0x0D0C, 0x0F0E]);
    assert_eq!(x, Block(0x0F0E_0D0C_0B0A_0908_0706_0504_0302_0100));
    let lanes = <[u32; 4]>::from(x);
    assert_eq!(lanes, [0x0302_0100, 0x0706_0504, 0x0B0A_0908, 0x0F0E_0D0C]);
    for _ in 0..100 {
        let v = rand::random::<u128>();
        let bytes = v.to_le_bytes();
        let mut lanes16 = [0u16; 8];
        for i in 0..8 {
            lanes16[i] = u16::from_le_bytes([bytes[2 * i], bytes[2 * i + 1]]);
        }
        assert_eq!(Block::from(lanes16), Block(v));
        let lanes32 = <[u32; 4]>::from(Block(v));
        for i in 0..4 {
            let lane = [bytes[4 * i], bytes[4 * i + 1], bytes[4 * i + 2], bytes[4 * i + 3]];
            assert_eq!(lanes32[i], u32::from_le_bytes(lane));
        }
    }
}

#[test]
fn test_equality_is_that_of_the_numbers() {
    for _ in 0..100 {
        let x = rand::random::<u128>();
        let y = if rand::random::<bool>() { x } else { rand::random::<u128>() };
        assert_eq!(Block(x) == Block(y), x == y);
    }
    assert_ne!(Block(1), Block(1 << 127));
}

#[test]
fn test_order_is_that_of_the_numbers() {
    assert!(Block(1) < Block(2));
    assert!(Block(0x0100) > Block(0x00FF));
    assert!(Block(1 << 64) > Block(u64::MAX as u128));
    assert!(Block(ALL_ONES) > Block(0));
    assert_eq!(Block(5).partial_cmp(&Block(5)), Some(std::cmp::Ordering::Equal));
    assert_eq!(Block(4).partial_cmp(&Block(5)), Some(std::cmp::Ordering::Less));
    assert_eq!(Block(6).partial_cmp(&Block(5)), Some(std::cmp::Ordering::Greater));
    for _ in 0..100 {
        let x = rand::random::<u128>();
        let y = rand::random::<u128>();
        assert_eq!(Block(x).cmp(&Block(y)), x.cmp(&y));
        assert_eq!(Block(x).partial_cmp(&Block(y)), Some(x.cmp(&y)));
    }
    let mut blocks = vec![Block(3 << 100), Block(7), Block(1 << 64), Block(0)];
    blocks.sort();
    assert_eq!(blocks, vec![Block(0), Block(7), Block(1 << 64), Block(3 << 100)]);
}

#[test]
fn test_blocks_as_container_keys() {
    let mut set = std::collections::HashSet::new();
    assert!(set.insert(Block(1)));
    assert!(set.insert(Block(2)));
    assert!(!set.insert(Block(1)));
    assert!(set.contains(&Block(2)));
    let mut map = std::collections::BTreeMap::new();
    map.insert(Block(9), "nine");
    map.insert(Block(1 << 90), "big");
    map.insert(Block(3), "three");
    let keys: Vec<Block> = map.keys().copied().collect();
    assert_eq!(keys, vec![Block(3), Block(9), Block(1 << 90)]);
}

#[test]
fn test_try_from_slice() {
    let bytes: Vec<u8> = (0u8..16).collect();
    assert_eq!(
        Block::try_from_slice(&bytes),
        Ok(Block(0x0F0E_0D0C_0B0A_0908_0706_0504_0302_0100))
    );
    assert_eq!(
        Block::try_from_slice(&bytes[..15]),
        Err(LengthMismatch { expected: 16, actual: 15 })
    );
    assert_eq!(Block::try_from_slice(&[]), Err(LengthMismatch { expected: 16, actual: 0 }));
    let long = vec![0u8; 17];
    assert_eq!(Block::try_from_slice(&long), Err(LengthMismatch { expected: 16, actual: 17 }));
}

#[test]
fn test_to_hex() {
    let x = Block(0x2A179373117E3DE9969F402EE2BEC16B);
    assert_eq!(x.to_hex(), "6BC1BEE22E409F96E93D7E117393172A");
    assert_eq!(Block(0).to_hex(), "00000000000000000000000000000000");
    assert_eq!(Block(ALL_ONES).to_hex(), "FFFFFFFFFFFFFFFFFFFFFFFFFFFFFFFF");
    assert_eq!(Block(0xA9).to_hex(), "A9000000000000000000000000000000");
    for _ in 0..50 {
        let v = rand::random::<u128>();
        let expected: String = v.to_le_bytes().iter().map(|b| format!("{:02X}", b)).collect();
        assert_eq!(Block(v).to_hex(), expected);
    }
}

#[test]
fn test_clmul_small_products() {
    assert_eq!(Block(3).clmul(Block(3)), (Block(5), Block(0)));
    assert_eq!(Block(0b1011).clmul(Block(0b110)), (Block(0b111010), Block(0)));
    assert_eq!(Block(1 << 127).clmul(Block(2)), (Block(0), Block(1)));
    assert_eq!(Block(1 << 127).clmul(Block(1 << 127)), (Block(0), Block(1 << 126)));
    assert_eq!(Block(1 << 64).clmul(Block(1 << 63)), (Block(1 << 127), Block(0)));
    assert_eq!(Block(1 << 64).clmul(Block(1 << 64)), (Block(0), Block(1)));
}

#[test]
fn test_clmul_is_commutative_and_distributes() {
    for _ in 0..50 {
        let x = Block(rand::random::<u128>());
        let y = Block(rand::random::<u128>());
        let z = Block(rand::random::<u128>());
        assert_eq!(x.clmul(y), y.clmul(x));
        let (l1, h1) = x.clmul(z);
        let (l2, h2) = y.clmul(z);
        assert_eq!((x ^ y).clmul(z), (l1 ^ l2, h1 ^ h2));
    }
}
