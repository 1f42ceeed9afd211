use scuttlebutt::{Block, Block512, LengthMismatch};
use std::convert::TryFrom;

fn counting() -> [u8; 64] {
    let mut bytes = [0u8; 64];
    for (i, b) in bytes.iter_mut().enumerate() {
        *b = i as u8;
    }
    bytes
}

fn random_wide() -> Block512 {
    Block512::from([
        Block(rand::random::<u128>()),
        Block(rand::random::<u128>()),
        Block(rand::random::<u128>()),
        Block(rand::random::<u128>()),
    ])
}

#[test]
fn test_wide_default_is_zero() {
    let w = Block512::default();
    assert_eq!(<[Block; 4]>::from(w), [Block(0); 4]);
    assert_eq!(<[u8; 64]>::from(w), [0u8; 64]);
}

#[test]
fn test_wide_from_bytes_fills_blocks_in_order() {
    let w = Block512::from(counting());
    let blocks = <[Block; 4]>::from(w);
    assert_eq!(blocks[0], Block(0x0F0E_0D0C_0B0A_0908_0706_0504_0302_0100));
    assert_eq!(blocks[1], Block(0x1F1E_1D1C_1B1A_1918_1716_1514_1312_1110));
    assert_eq!(blocks[2], Block(0x2F2E_2D2C_2B2A_2928_2726_2524_2322_2120));
    assert_eq!(blocks[3], Block(0x3F3E_3D3C_3B3A_3938_3736_3534_3332_3130));
    assert_eq!(<[u8; 64]>::from(w), counting());
}

#[test]
fn test_wide_bytes_round_trip() {
    for _ in 0..50 {
        let w = random_wide();
        assert_eq!(Block512::from(<[u8; 64]>::from(w)), w);
        let mut bytes = [0u8; 64];
        for b in bytes.iter_mut() {
            *b = rand::random::<u8>();
        }
        assert_eq!(<[u8; 64]>::from(Block512::from(bytes)), bytes);
    }
}

#[test]
fn test_wide_blocks_round_trip() {
    let blocks = [Block(1), Block(2), Block(3), Block(4)];
    assert_eq!(<[Block; 4]>::from(Block512::from(blocks)), blocks);
}

#[test]
fn test_wide_prefix() {
    let w = Block512::from(counting());
    assert_eq!(w.prefix(0), Vec::<u8>::new());
    assert_eq!(w.prefix(1), vec![0u8]);
    assert_eq!(w.prefix(20), counting()[..20].to_vec());
    assert_eq!(w.prefix(64), counting().to_vec());
}

#[test]
fn test_wide_prefix_mut() {
    let mut w = Block512::from(counting());
    w.prefix_mut(&[0xAA; 18]);
    let mut expected = counting();
    for b in expected.iter_mut().take(18) {
        *b = 0xAA;
    }
    assert_eq!(<[u8; 64]>::from(w), expected);
    w.prefix_mut(&[]);
    assert_eq!(<[u8; 64]>::from(w), expected);
    w.prefix_mut(&[7u8; 64]);
    assert_eq!(<[u8; 64]>::from(w), [7u8; 64]);
    assert_eq!(w.prefix(3), vec![7u8, 7, 7]);
}

#[test]
fn test_wide_xor() {
    let a = Block512::from([Block(0xF0), Block(1), Block(0), Block(1 << 127)]);
    let b = Block512::from([Block(0x0F), Block(1), Block(5), Block(1)]);
    let expected = Block512::from([Block(0xFF), Block(0), Block(5), Block((1 << 127) | 1)]);
    assert_eq!(a ^ b, expected);
    let mut c = a;
    c ^= b;
    assert_eq!(c, expected);
}

#[test]
fn test_wide_xor_twice() {
    for _ in 0..50 {
        let a = random_wide();
        let b = random_wide();
        assert_eq!((a ^ b) ^ b, a);
        let mut c = a;
        c ^= b;
        c ^= b;
        assert_eq!(c, a);
    }
}

#[test]
fn test_wide_try_from_slice() {
    let bytes = counting();
    let w = Block512::try_from(&bytes[..]);
    assert_eq!(w, Ok(Block512::from(bytes)));
    assert_eq!(
        Block512::try_from(&bytes[..63]),
        Err(LengthMismatch { expected: 64, actual: 63 })
    );
    let long = vec![1u8; 65];
    assert_eq!(
        Block512::try_from(&long[..]),
        Err(LengthMismatch { expected: 64, actual: 65 })
    );
    let empty: &[u8] = &[];
    assert_eq!(Block512::try_from(empty), Err(LengthMismatch { expected: 64, actual: 0 }));
}

#[test]
fn test_wide_order_is_lexicographic_over_blocks() {
    let small = Block512::from([Block(1), Block(9), Block(9), Block(9)]);
    let large = Block512::from([Block(2), Block(0), Block(0), Block(0)]);
    assert!(small < large);
    assert!(large > small);
    let a = Block512::from([Block(1), Block(2), Block(3), Block(4)]);
    let b = Block512::from([Block(1), Block(2), Block(3), Block(5)]);
    assert!(a < b);
    assert_eq!(a.partial_cmp(&a), Some(std::cmp::Ordering::Equal));
    assert_eq!(a.partial_cmp(&b), Some(std::cmp::Ordering::Less));
    assert_eq!(b.partial_cmp(&a), Some(std::cmp::Ordering::Greater));
    let numeric = Block512::from([Block(0x0100), Block(0), Block(0), Block(0)]);
    let other = Block512::from([Block(0x00FF), Block(7), Block(7), Block(7)]);
    assert!(numeric > other);
    for _ in 0..50 {
        let x = random_wide();
        let y = random_wide();
        let xs = <[Block; 4]>::from(x);
        let ys = <[Block; 4]>::from(y);
        assert_eq!(x.cmp(&y), xs.cmp(&ys));
        assert_eq!(x.partial_cmp(&y), Some(xs.cmp(&ys)));
        assert_eq!(x == y, xs == ys);
    }
}

#[test]
fn test_wide_as_container_key() {
    let a = Block512::from([Block(1), Block(2), Block(3), Block(4)]);
    let b = Block512::from([Block(1), Block(2), Block(3), Block(5)]);
    let mut set = std::collections::HashSet::new();
    assert!(set.insert(a));
    assert!(set.insert(b));
    assert!(!set.insert(a));
    let mut ordered = std::collections::BTreeSet::new();
    ordered.insert(b);
    ordered.insert(a);
    assert_eq!(ordered.into_iter().collect::<Vec<_>>(), vec![a, b]);
}

#[test]
fn test_wide_lanes() {
    let w = Block512::from(counting());
    let lanes = <[u32; 16]>::from(w);
    for (i, lane) in lanes.iter().enumerate() {
        let b = 4 * i as u32;
        assert_eq!(*lane, b | (b + 1) << 8 | (b + 2) << 16 | (b + 3) << 24);
    }
}

#[test]
fn test_wide_to_text() {
    let w = Block512::from([Block(0xA9), Block(0), Block(1 << 120), Block(0x10)]);
    let expected = "[\n    A9000000000000000000000000000000,\n    \
                    00000000000000000000000000000000,\n    \
                    00000000000000000000000000000001,\n    \
                    10000000000000000000000000000000,\n]";
    assert_eq!(w.to_text(), expected);
}
