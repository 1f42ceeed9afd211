//! The canonical byte layout of a 128-bit value.
//!
//! A 128-bit value is laid out little-endian: byte 0 holds the eight least
//! significant bits and byte 15 the eight most significant ones. The 16-bit
//! and 32-bit lane layouts follow the same rule, so every conversion in this
//! crate names the same 128 bits.

use vstd::prelude::*;

verus! {

/// Byte `i` of `v`.
pub open spec fn byte_of(v: u128, i: int) -> u8 {
    (v >> ((8 * i) as u128)) as u8
}

/// The sixteen bytes of `v`, least significant first.
pub open spec fn le_bytes(v: u128) -> Seq<u8> {
    Seq::new(16, |i: int| byte_of(v, i))
}

/// The value whose sixteen bytes, least significant first, are the arguments.
pub open spec fn pack_bytes(
    b0: u8,
    b1: u8,
    b2: u8,
    b3: u8,
    b4: u8,
    b5: u8,
    b6: u8,
    b7: u8,
    b8: u8,
    b9: u8,
    b10: u8,
    b11: u8,
    b12: u8,
    b13: u8,
    b14: u8,
    b15: u8,
) -> u128 {
    (b0 as u128) | (b1 as u128) << 8 | (b2 as u128) << 16 | (b3 as u128) << 24 | (b4 as u128) << 32
        | (b5 as u128) << 40 | (b6 as u128) << 48 | (b7 as u128) << 56 | (b8 as u128) << 64 | (
    b9 as u128) << 72 | (b10 as u128) << 80 | (b11 as u128) << 88 | (b12 as u128) << 96 | (
    b13 as u128) << 104 | (b14 as u128) << 112 | (b15 as u128) << 120
}

/// The value of a sequence of sixteen bytes, least significant first.
pub open spec fn le_value(s: Seq<u8>) -> u128
    recommends
        s.len() == 16,
{
    pack_bytes(
        s[0],
        s[1],
        s[2],
        s[3],
        s[4],
        s[5],
        s[6],
        s[7],
        s[8],
        s[9],
        s[10],
        s[11],
        s[12],
        s[13],
        s[14],
        s[15],
    )
}

/// Packing the bytes of a value gives the value back.
pub proof fn lemma_pack_of_bytes(v: u128)
    ensures
        le_value(le_bytes(v)) == v,
{
    assert(pack_bytes(
        (v >> 0) as u8,
        (v >> 8) as u8,
        (v >> 16) as u8,
        (v >> 24) as u8,
        (v >> 32) as u8,
        (v >> 40) as u8,
        (v >> 48) as u8,
        (v >> 56) as u8,
        (v >> 64) as u8,
        (v >> 72) as u8,
        (v >> 80) as u8,
        (v >> 88) as u8,
        (v >> 96) as u8,
        (v >> 104) as u8,
        (v >> 112) as u8,
        (v >> 120) as u8,
    ) == v) by (bit_vector);
}

/// The bytes of a packed value are the bytes that were packed.
pub proof fn lemma_bytes_of_pack(s: Seq<u8>)
    requires
        s.len() == 16,
    ensures
        le_bytes(le_value(s)) == s,
{
    let (b0, b1, b2, b3, b4, b5, b6, b7) = (s[0], s[1], s[2], s[3], s[4], s[5], s[6], s[7]);
    let (b8, b9, b10, b11, b12, b13, b14, b15) = (
        s[8],
        s[9],
        s[10],
        s[11],
        s[12],
        s[13],
        s[14],
        s[15],
    );
    assert({
        let v = pack_bytes(b0, b1, b2, b3, b4, b5, b6, b7, b8, b9, b10, b11, b12, b13, b14, b15);
        &&& (v >> 0) as u8 == b0
        &&& (v >> 8) as u8 == b1
        &&& (v >> 16) as u8 == b2
        &&& (v >> 24) as u8 == b3
        &&& (v >> 32) as u8 == b4
        &&& (v >> 40) as u8 == b5
        &&& (v >> 48) as u8 == b6
        &&& (v >> 56) as u8 == b7
        &&& (v >> 64) as u8 == b8
        &&& (v >> 72) as u8 == b9
        &&& (v >> 80) as u8 == b10
        &&& (v >> 88) as u8 == b11
        &&& (v >> 96) as u8 == b12
        &&& (v >> 104) as u8 == b13
        &&& (v >> 112) as u8 == b14
        &&& (v >> 120) as u8 == b15
    }) by (bit_vector);
    assert(le_bytes(le_value(s)) =~= s);
}

} // verus!
