//! Arithmetic in the field of 256 elements in which the cipher works: the
//! polynomials over the two-element field modulo `x^8 + x^4 + x^3 + x + 1`,
//! each held as the bits of a byte.

use vstd::prelude::*;

verus! {

/// Multiplication by the polynomial `x`.
pub open spec fn xtime(b: u8) -> u8 {
    if b & 0x80 == 0 {
        b << 1
    } else {
        (b << 1) ^ 0x1b
    }
}

/// The product of two elements: the sum of `a` times each power of `x` that
/// occurs in `b`.
pub open spec fn field_mul(a: u8, b: u8) -> u8 {
    let a1 = xtime(a);
    let a2 = xtime(a1);
    let a3 = xtime(a2);
    let a4 = xtime(a3);
    let a5 = xtime(a4);
    let a6 = xtime(a5);
    let a7 = xtime(a6);
    (if b & 0x01 != 0 {
        a
    } else {
        0
    }) ^ (if b & 0x02 != 0 {
        a1
    } else {
        0
    }) ^ (if b & 0x04 != 0 {
        a2
    } else {
        0
    }) ^ (if b & 0x08 != 0 {
        a3
    } else {
        0
    }) ^ (if b & 0x10 != 0 {
        a4
    } else {
        0
    }) ^ (if b & 0x20 != 0 {
        a5
    } else {
        0
    }) ^ (if b & 0x40 != 0 {
        a6
    } else {
        0
    }) ^ (if b & 0x80 != 0 {
        a7
    } else {
        0
    })
}

/// A byte rotated left by `n` places, for `n` from 1 to 7.
pub open spec fn rotate_left(b: u8, n: u8) -> u8 {
    (b << n) | (b >> ((8 - n) as u8))
}

/// The affine map of the substitution: each bit of the result is the sum of
/// five bits of `b` and a bit of the constant `0x63`.
pub open spec fn affine(b: u8) -> u8 {
    b ^ rotate_left(b, 1) ^ rotate_left(b, 2) ^ rotate_left(b, 3) ^ rotate_left(b, 4) ^ 0x63
}

/// The inverse of the affine map.
pub open spec fn affine_inverse(s: u8) -> u8 {
    rotate_left(s, 1) ^ rotate_left(s, 3) ^ rotate_left(s, 6) ^ 0x05
}

/// Whether `z` is the inverse of `b` in the field, with zero for zero.
pub open spec fn is_field_inverse(b: u8, z: u8) -> bool {
    if b == 0 {
        z == 0
    } else {
        field_mul(b, z) == 1
    }
}

} // verus!
