//! The Rijndael round transformations on a state of sixteen bytes.
//!
//! The state is held column by column: the byte in row `r` and column `c`
//! stands at index `r + 4 * c`, which is also the order in which the bytes of
//! a block fill the state.

use crate::aes::field::{affine, affine_inverse, field_mul, is_field_inverse, xtime};
use vstd::prelude::*;

verus! {

/// The substitution table.
pub const SBOX: [u8; 256] = [
    0x63, 0x7c, 0x77, 0x7b, 0xf2, 0x6b, 0x6f, 0xc5, 0x30, 0x01, 0x67, 0x2b, 0xfe, 0xd7, 0xab, 0x76,
    0xca, 0x82, 0xc9, 0x7d, 0xfa, 0x59, 0x47, 0xf0, 0xad, 0xd4, 0xa2, 0xaf, 0x9c, 0xa4, 0x72, 0xc0,
    0xb7, 0xfd, 0x93, 0x26, 0x36, 0x3f, 0xf7, 0xcc, 0x34, 0xa5, 0xe5, 0xf1, 0x71, 0xd8, 0x31, 0x15,
    0x04, 0xc7, 0x23, 0xc3, 0x18, 0x96, 0x05, 0x9a, 0x07, 0x12, 0x80, 0xe2, 0xeb, 0x27, 0xb2, 0x75,
    0x09, 0x83, 0x2c, 0x1a, 0x1b, 0x6e, 0x5a, 0xa0, 0x52, 0x3b, 0xd6, 0xb3, 0x29, 0xe3, 0x2f, 0x84,
    0x53, 0xd1, 0x00, 0xed, 0x20, 0xfc, 0xb1, 0x5b, 0x6a, 0xcb, 0xbe, 0x39, 0x4a, 0x4c, 0x58, 0xcf,
    0xd0, 0xef, 0xaa, 0xfb, 0x43, 0x4d, 0x33, 0x85, 0x45, 0xf9, 0x02, 0x7f, 0x50, 0x3c, 0x9f, 0xa8,
    0x51, 0xa3, 0x40, 0x8f, 0x92, 0x9d, 0x38, 0xf5, 0xbc, 0xb6, 0xda, 0x21, 0x10, 0xff, 0xf3, 0xd2,
    0xcd, 0x0c, 0x13, 0xec, 0x5f, 0x97, 0x44, 0x17, 0xc4, 0xa7, 0x7e, 0x3d, 0x64, 0x5d, 0x19, 0x73,
    0x60, 0x81, 0x4f, 0xdc, 0x22, 0x2a, 0x90, 0x88, 0x46, 0xee, 0xb8, 0x14, 0xde, 0x5e, 0x0b, 0xdb,
    0xe0, 0x32, 0x3a, 0x0a, 0x49, 0x06, 0x24, 0x5c, 0xc2, 0xd3, 0xac, 0x62, 0x91, 0x95, 0xe4, 0x79,
    0xe7, 0xc8, 0x37, 0x6d, 0x8d, 0xd5, 0x4e, 0xa9, 0x6c, 0x56, 0xf4, 0xea, 0x65, 0x7a, 0xae, 0x08,
    0xba, 0x78, 0x25, 0x2e, 0x1c, 0xa6, 0xb4, 0xc6, 0xe8, 0xdd, 0x74, 0x1f, 0x4b, 0xbd, 0x8b, 0x8a,
    0x70, 0x3e, 0xb5, 0x66, 0x48, 0x03, 0xf6, 0x0e, 0x61, 0x35, 0x57, 0xb9, 0x86, 0xc1, 0x1d, 0x9e,
    0xe1, 0xf8, 0x98, 0x11, 0x69, 0xd9, 0x8e, 0x94, 0x9b, 0x1e, 0x87, 0xe9, 0xce, 0x55, 0x28, 0xdf,
    0x8c, 0xa1, 0x89, 0x0d, 0xbf, 0xe6, 0x42, 0x68, 0x41, 0x99, 0x2d, 0x0f, 0xb0, 0x54, 0xbb, 0x16,
];

/// The index in the state of the byte in row `r` and column `c`.
pub open spec fn at(r: int, c: int) -> int {
    r + 4 * c
}

/// The substitution of one byte.
pub open spec fn sub_byte(b: u8) -> u8 {
    SBOX[b as int]
}

/// One byte of a mixed column: twice `a` plus three times `b` plus `c` plus
/// `d`, in the field of 256 elements.
pub open spec fn mix_byte(a: u8, b: u8, c: u8, d: u8) -> u8 {
    xtime(a) ^ (xtime(b) ^ b) ^ c ^ d
}

/// SubBytes: every byte is substituted.
pub open spec fn sub_bytes(s: Seq<u8>) -> Seq<u8> {
    Seq::new(16, |i: int| sub_byte(s[i]))
}

/// ShiftRows: row `r` is rotated left by `r` columns.
pub open spec fn shift_rows(s: Seq<u8>) -> Seq<u8> {
    Seq::new(16, |i: int| s[at(i % 4, (i / 4 + i % 4) % 4)])
}

/// MixColumns: every column is multiplied by the fixed polynomial
/// `3 x^3 + x^2 + x + 2`.
pub open spec fn mix_columns(s: Seq<u8>) -> Seq<u8> {
    Seq::new(
        16,
        |i: int|
            {
                let r = i % 4;
                let c = i / 4;
                mix_byte(
                    s[at(r, c)],
                    s[at((r + 1) % 4, c)],
                    s[at((r + 2) % 4, c)],
                    s[at((r + 3) % 4, c)],
                )
            },
    )
}

/// AddRoundKey: the round key is added to the state.
pub open spec fn add_round_key(s: Seq<u8>, k: Seq<u8>) -> Seq<u8> {
    Seq::new(16, |i: int| s[i] ^ k[i])
}

/// A full round.
pub open spec fn round(s: Seq<u8>, k: Seq<u8>) -> Seq<u8> {
    add_round_key(mix_columns(shift_rows(sub_bytes(s))), k)
}

/// The last round, which mixes no columns.
pub open spec fn last_round(s: Seq<u8>, k: Seq<u8>) -> Seq<u8> {
    add_round_key(shift_rows(sub_bytes(s)), k)
}

/// The state after the first key addition and `n` full rounds, which use
/// the round keys `0` to `n`.
pub open spec fn rounds(keys: Seq<Seq<u8>>, s: Seq<u8>, n: nat) -> Seq<u8>
    decreases n,
{
    if n == 0 {
        add_round_key(s, keys[0])
    } else {
        round(rounds(keys, s, (n - 1) as nat), keys[n as int])
    }
}

/// The cipher: with `keys.len() - 1` rounds, of which the last mixes no
/// columns.
pub open spec fn cipher(keys: Seq<Seq<u8>>, s: Seq<u8>) -> Seq<u8>
    recommends
        keys.len() >= 2,
{
    last_round(rounds(keys, s, (keys.len() - 2) as nat), keys[keys.len() - 1])
}

/// The round keys held in a slice of byte arrays.
pub open spec fn key_bytes(keys: Seq<[u8; 16]>) -> Seq<Seq<u8>> {
    Seq::new(keys.len(), |i: int| keys[i]@)
}

/// Substitute one byte.
pub fn substitute(b: u8) -> (r: u8)
    ensures
        r == sub_byte(b),
{
    SBOX[b as usize]
}

/// Multiply by `x` in the field of 256 elements.
fn times_x(b: u8) -> (r: u8)
    ensures
        r == xtime(b),
{
    if b & 0x80 == 0 {
        b << 1
    } else {
        (b << 1) ^ 0x1b
    }
}

/// Compute one byte of a mixed column.
fn mix(a: u8, b: u8, c: u8, d: u8) -> (r: u8)
    ensures
        r == mix_byte(a, b, c, d),
{
    times_x(a) ^ (times_x(b) ^ b) ^ c ^ d
}

/// Add a round key to the state.
pub fn add_key(s: &[u8; 16], k: &[u8; 16]) -> (r: [u8; 16])
    ensures
        r@ == add_round_key(s@, k@),
{
    let mut out = [0u8;16];
    let mut i: usize = 0;
    while i < 16
        invariant
            i <= 16,
            forall|j: int| 0 <= j < i ==> out@[j] == s@[j] ^ k@[j],
        decreases 16 - i,
    {
        out[i] = s[i] ^ k[i];
        i += 1;
    }
    assert(out@ =~= add_round_key(s@, k@));
    out
}

/// Substitute every byte and rotate the rows: the byte for row `r` of column
/// `c` is taken from column `c + r`.
pub fn substitute_and_shift(s: &[u8; 16]) -> (r: [u8; 16])
    ensures
        r@ == shift_rows(sub_bytes(s@)),
{
    let mut out = [0u8;16];
    let mut c: usize = 0;
    while c < 4
        invariant
            c <= 4,
            forall|j: int| 0 <= j < 4 * c ==> out@[j] == shift_rows(sub_bytes(s@))[j],
        decreases 4 - c,
    {
        out[4 * c] = substitute(s[4 * c]);
        out[4 * c + 1] = substitute(s[1 + 4 * ((c + 1) % 4)]);
        out[4 * c + 2] = substitute(s[2 + 4 * ((c + 2) % 4)]);
        out[4 * c + 3] = substitute(s[3 + 4 * ((c + 3) % 4)]);
        c += 1;
    }
    assert(out@ =~= shift_rows(sub_bytes(s@)));
    out
}

/// Mix every column.
pub fn mix_all(s: &[u8; 16]) -> (r: [u8; 16])
    ensures
        r@ == mix_columns(s@),
{
    let mut out = [0u8;16];
    let mut c: usize = 0;
    while c < 4
        invariant
            c <= 4,
            forall|j: int| 0 <= j < 4 * c ==> out@[j] == mix_columns(s@)[j],
        decreases 4 - c,
    {
        let a0 = s[4 * c];
        let a1 = s[4 * c + 1];
        let a2 = s[4 * c + 2];
        let a3 = s[4 * c + 3];
        out[4 * c] = mix(a0, a1, a2, a3);
        out[4 * c + 1] = mix(a1, a2, a3, a0);
        out[4 * c + 2] = mix(a2, a3, a0, a1);
        out[4 * c + 3] = mix(a3, a0, a1, a2);
        c += 1;
    }
    assert(out@ =~= mix_columns(s@));
    out
}

/// One full round.
pub fn full_round(s: &[u8; 16], k: &[u8; 16]) -> (r: [u8; 16])
    ensures
        r@ == round(s@, k@),
{
    let shifted = substitute_and_shift(s);
    let mixed = mix_all(&shifted);
    add_key(&mixed, k)
}

/// The last round: as a full round, without the mixing.
pub fn closing_round(s: &[u8; 16], k: &[u8; 16]) -> (r: [u8; 16])
    ensures
        r@ == last_round(s@, k@),
{
    let shifted = substitute_and_shift(s);
    add_key(&shifted, k)
}

/// Encrypt one state under a schedule of round keys.
pub(crate) fn encrypt_state(keys: &[[u8; 16]], s: &[u8; 16]) -> (r: [u8; 16])
    requires
        keys@.len() >= 2,
    ensures
        r@ == cipher(key_bytes(keys@), s@),
{
    let last = keys.len() - 1;
    let mut state = add_key(s, &keys[0]);
    let mut n: usize = 1;
    while n < last
        invariant
            1 <= n <= last,
            last == keys@.len() - 1,
            state@ == rounds(key_bytes(keys@), s@, (n - 1) as nat),
        decreases last - n,
    {
        state = full_round(&state, &keys[n]);
        n += 1;
    }
    closing_round(&state, &keys[last])
}

/// Whether the substitute of `b` is the affine image of the inverse of `b`.
pub open spec fn substitutes_inverse(b: u8) -> bool {
    let z = affine_inverse(sub_byte(b));
    is_field_inverse(b, z) && sub_byte(b) == affine(z)
}

/// Whether the substitutes of all bytes below `n` are as they should be.
pub open spec fn substitutes_inverses_below(n: u32) -> bool
    decreases n,
{
    n == 0 || (substitutes_inverse((n - 1) as u8) && substitutes_inverses_below((n - 1) as u32))
}

/// What holds of all bytes below `n` holds of each.
proof fn lemma_substitutes_inverse_below(n: u32, b: u8)
    requires
        substitutes_inverses_below(n),
        b < n,
    ensures
        substitutes_inverse(b),
    decreases n,
{
    if b < n - 1 {
        lemma_substitutes_inverse_below((n - 1) as u32, b);
    }
}

/// The substitution table is the one of the standard: the substitute of a
/// byte is the affine image of its inverse in the field of 256 elements.
pub proof fn lemma_substitution_is_inverse_then_affine(b: u8)
    ensures
        is_field_inverse(b, affine_inverse(sub_byte(b))),
        sub_byte(b) == affine(affine_inverse(sub_byte(b))),
{
    assert(substitutes_inverses_below(256)) by (bit_vector);
    lemma_substitutes_inverse_below(256, b);
}

/// A byte of a mixed column is twice the first byte plus three times the
/// second plus the third plus the fourth, in the field of 256 elements.
pub proof fn lemma_mix_byte_in_field(a: u8, b: u8, c: u8, d: u8)
    by (bit_vector)
    ensures
        mix_byte(a, b, c, d) == field_mul(a, 2) ^ field_mul(b, 3) ^ c ^ d,
{
}

} // verus!
