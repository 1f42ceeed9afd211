//! Carry-less multiplication: the product of two polynomials over the
//! two-element field, each held as the bits of an integer.
//!
//! Bit `i` of a value is the coefficient of the monomial of degree `i`.
//! A product of two 128-bit polynomials has up to 255 coefficients and is
//! held as a pair of 128-bit halves, low half first.

use vstd::prelude::*;

verus! {

/// The mask of the low 64 bits.
pub const LOW_HALF: u128 = 0xFFFF_FFFF_FFFF_FFFF;

/// `x` times the monomial of degree `i`, for `i < 128`.
pub open spec fn times_monomial(x: u128, i: u128) -> (u128, u128) {
    (
        x << i,
        if i == 0 {
            0
        } else {
            x >> ((128 - i) as u128)
        },
    )
}

/// The sum of two polynomials.
pub open spec fn poly_add(a: (u128, u128), b: (u128, u128)) -> (u128, u128) {
    (a.0 ^ b.0, a.1 ^ b.1)
}

/// Schoolbook multiplication by shift and add, stopped after the `n` lowest
/// coefficients of `y`: the sum of `x` times the monomial of degree `i` over
/// every `i < n` whose coefficient in `y` is one.
pub open spec fn clmul_partial(x: u128, y: u128, n: nat) -> (u128, u128)
    decreases n,
{
    if n == 0 {
        (0, 0)
    } else {
        let acc = clmul_partial(x, y, (n - 1) as nat);
        let i = (n - 1) as u128;
        if (y >> i) & 1 == 1 {
            poly_add(acc, times_monomial(x, i))
        } else {
            acc
        }
    }
}

/// The product of `x` and `y` as polynomials over the two-element field.
pub open spec fn clmul_spec(x: u128, y: u128) -> (u128, u128) {
    clmul_partial(x, y, 128)
}

/// The product of two polynomials of degree below 64.
pub open spec fn clmul64_spec(a: u64, b: u64) -> u128 {
    clmul_partial(a as u128, b as u128, 64).0
}

/// A partial product of a polynomial of degree below 64 by the low 64
/// coefficients of another fits in the low half.
pub proof fn lemma_narrow_product_is_low(x: u128, y: u128, n: nat)
    requires
        x <= LOW_HALF,
        n <= 64,
    ensures
        clmul_partial(x, y, n).1 == 0,
    decreases n,
{
    if n > 0 {
        lemma_narrow_product_is_low(x, y, (n - 1) as nat);
        let i = (n - 1) as u128;
        assert((i != 0 ==> x >> ((128 - i) as u128) == 0) && 0u128 ^ 0u128 == 0) by (bit_vector)
            requires
                x <= 0xFFFF_FFFF_FFFF_FFFFu128,
                i < 64,
        ;
    }
}

/// Multiply two polynomials of degree below 64 by shift and add.
pub fn clmul64(a: u64, b: u64) -> (r: u128)
    ensures
        r == clmul64_spec(a, b),
{
    let x = a as u128;
    let y = b as u128;
    let mut acc: u128 = 0;
    let mut i: u32 = 0;
    while i < 64
        invariant
            i <= 64,
            x == a as u128,
            y == b as u128,
            acc == clmul_partial(x, y, i as nat).0,
        decreases 64 - i,
    {
        if (y >> (i as u128)) & 1 == 1 {
            acc = acc ^ (x << (i as u128));
        }
        i += 1;
    }
    acc
}

/// The `n <= 64` lowest coefficients of `y` are all that a partial product of
/// `n` steps reads.
pub proof fn lemma_reads_low_coefficients(x: u128, y: u128, n: nat)
    requires
        n <= 64,
    ensures
        clmul_partial(x, y, n) == clmul_partial(x, y & LOW_HALF, n),
    decreases n,
{
    if n > 0 {
        lemma_reads_low_coefficients(x, y, (n - 1) as nat);
        let i = (n - 1) as u128;
        assert((y >> i) & 1 == ((y & 0xFFFF_FFFF_FFFF_FFFFu128) >> i) & 1) by (bit_vector)
            requires
                i < 64,
        ;
    }
}

/// Shifting left by one more place is one more shift by one.
proof fn lemma_shl_once_more(a: u128, j: u128)
    by (bit_vector)
    requires
        j < 127,
    ensures
        a << ((j + 1) as u128) == (a << j) << 1,
{
}

/// Shifting right by one more place is one more shift by one.
proof fn lemma_shr_once_more(a: u128, j: u128)
    by (bit_vector)
    requires
        j < 127,
    ensures
        a >> ((j + 1) as u128) == (a >> j) >> 1,
{
}

/// Shifting the sum of two polynomials shifts each of them.
proof fn lemma_shifts_distribute(a: u128, b: u128, i: u128)
    requires
        i < 128,
    ensures
        (a ^ b) << i == (a << i) ^ (b << i),
        (a ^ b) >> i == (a >> i) ^ (b >> i),
    decreases i,
{
    if i == 0 {
        assert((a ^ b) << 0 == (a << 0) ^ (b << 0) && (a ^ b) >> 0 == (a >> 0) ^ (b >> 0))
            by (bit_vector);
    } else {
        let j = (i - 1) as u128;
        lemma_shifts_distribute(a, b, j);
        let c = a ^ b;
        let (a1, b1, c1) = (a << j, b << j, c << j);
        let (a2, b2, c2) = (a >> j, b >> j, c >> j);
        lemma_shl_once_more(a, j);
        lemma_shl_once_more(b, j);
        lemma_shl_once_more(c, j);
        lemma_shr_once_more(a, j);
        lemma_shr_once_more(b, j);
        lemma_shr_once_more(c, j);
        assert({
            &&& c1 << 1 == (a1 << 1) ^ (b1 << 1)
            &&& c2 >> 1 == (a2 >> 1) ^ (b2 >> 1)
        }) by (bit_vector)
            requires
                c1 == a1 ^ b1,
                c2 == a2 ^ b2,
        ;
    }
}

/// Multiplication distributes over the sum of two left factors.
pub proof fn lemma_distributes(x1: u128, x2: u128, y: u128, n: nat)
    requires
        n <= 128,
    ensures
        clmul_partial(x1 ^ x2, y, n) == poly_add(
            clmul_partial(x1, y, n),
            clmul_partial(x2, y, n),
        ),
    decreases n,
{
    if n == 0 {
        assert(0u128 ^ 0u128 == 0) by (bit_vector);
    } else {
        lemma_distributes(x1, x2, y, (n - 1) as nat);
        let i = (n - 1) as u128;
        let a1 = clmul_partial(x1, y, (n - 1) as nat);
        let a2 = clmul_partial(x2, y, (n - 1) as nat);
        let (l1, h1) = a1;
        let (l2, h2) = a2;
        lemma_shifts_distribute(x1, x2, i);
        if i != 0 {
            lemma_shifts_distribute(x1, x2, (128 - i) as u128);
        }
        let (s1, t1) = times_monomial(x1, i);
        let (s2, t2) = times_monomial(x2, i);
        assert({
            &&& (l1 ^ l2) ^ (s1 ^ s2) == (l1 ^ s1) ^ (l2 ^ s2)
            &&& (h1 ^ h2) ^ (t1 ^ t2) == (h1 ^ t1) ^ (h2 ^ t2)
            &&& 0u128 ^ 0u128 == 0
        }) by (bit_vector);
    }
}

/// For a left factor of degree below 64, the coefficients of `y` from 64 on
/// add the product by the high half of `y`, raised by 64 degrees.
pub proof fn lemma_narrow_by_high_coefficients(x: u128, y: u128, m: nat)
    requires
        x <= LOW_HALF,
        m <= 64,
    ensures
        clmul_partial(x, y, 64 + m) == ({
            let low = clmul_partial(x, y, 64).0;
            let c = clmul_partial(x, y >> 64, m).0;
            (low ^ (c << 64), c >> 64)
        }),
    decreases m,
{
    let low = clmul_partial(x, y, 64).0;
    if m == 0 {
        lemma_narrow_product_is_low(x, y, 64);
        assert(low ^ (0u128 << 64) == low && 0u128 >> 64 == 0) by (bit_vector);
    } else {
        lemma_narrow_by_high_coefficients(x, y, (m - 1) as nat);
        let j = (m - 1) as u128;
        let i = (64 + m - 1) as u128;
        let c = clmul_partial(x, y >> 64, (m - 1) as nat).0;
        let t = x << j;
        assert({
            &&& (y >> i) & 1 == ((y >> 64) >> j) & 1
            &&& (low ^ (c << 64)) ^ (x << i) == low ^ ((c ^ t) << 64)
            &&& (c >> 64) ^ (x >> ((128 - i) as u128)) == (c ^ t) >> 64
        }) by (bit_vector)
            requires
                x <= 0xFFFF_FFFF_FFFF_FFFFu128,
                j < 64,
                i == 64 + j,
                t == x << j,
        ;
    }
}

/// Raising the left factor by 64 degrees raises the product by the low 64
/// coefficients of `y` by 64 degrees.
pub proof fn lemma_raised_by_low_coefficients(x: u128, y: u128, n: nat)
    requires
        x <= LOW_HALF,
        n <= 64,
    ensures
        clmul_partial(x << 64, y, n) == ({
            let c = clmul_partial(x, y, n).0;
            (c << 64, c >> 64)
        }),
    decreases n,
{
    if n == 0 {
        assert(0u128 << 64 == 0 && 0u128 >> 64 == 0) by (bit_vector);
    } else {
        lemma_raised_by_low_coefficients(x, y, (n - 1) as nat);
        let i = (n - 1) as u128;
        let c = clmul_partial(x, y, (n - 1) as nat).0;
        let t = x << i;
        assert({
            &&& (c << 64) ^ ((x << 64) << i) == (c ^ t) << 64
            &&& i == 0 ==> (c >> 64) ^ 0 == (c ^ t) >> 64
            &&& i != 0 ==> (c >> 64) ^ ((x << 64) >> ((128 - i) as u128)) == (c ^ t) >> 64
        }) by (bit_vector)
            requires
                x <= 0xFFFF_FFFF_FFFF_FFFFu128,
                i < 64,
                t == x << i,
        ;
    }
}

/// For a left factor raised by 64 degrees, the coefficients of `y` from 64 on
/// add the product by the high half of `y` to the high half of the result.
pub proof fn lemma_raised_by_high_coefficients(x: u128, y: u128, m: nat)
    requires
        x <= LOW_HALF,
        m <= 64,
    ensures
        clmul_partial(x << 64, y, 64 + m) == ({
            let base = clmul_partial(x << 64, y, 64);
            let d = clmul_partial(x, y >> 64, m).0;
            (base.0, base.1 ^ d)
        }),
    decreases m,
{
    let base = clmul_partial(x << 64, y, 64);
    if m == 0 {
        let h = base.1;
        assert(h ^ 0 == h) by (bit_vector);
    } else {
        lemma_raised_by_high_coefficients(x, y, (m - 1) as nat);
        let j = (m - 1) as u128;
        let i = (64 + m - 1) as u128;
        let d = clmul_partial(x, y >> 64, (m - 1) as nat).0;
        let (l, h) = base;
        assert({
            &&& (y >> i) & 1 == ((y >> 64) >> j) & 1
            &&& l ^ ((x << 64) << i) == l
            &&& (h ^ d) ^ ((x << 64) >> ((128 - i) as u128)) == h ^ (d ^ (x << j))
        }) by (bit_vector)
            requires
                x <= 0xFFFF_FFFF_FFFF_FFFFu128,
                j < 64,
                i == 64 + j,
        ;
    }
}

/// The product of two 128-bit polynomials from the four products of their
/// 64-bit halves: the two middle products straddle the halves of the result.
pub proof fn lemma_clmul_by_halves(x: u128, y: u128)
    ensures
        clmul_spec(x, y) == ({
            let ll = clmul_partial(x & LOW_HALF, y & LOW_HALF, 64).0;
            let lh = clmul_partial(x & LOW_HALF, y >> 64, 64).0;
            let hl = clmul_partial(x >> 64, y & LOW_HALF, 64).0;
            let hh = clmul_partial(x >> 64, y >> 64, 64).0;
            let middle = lh ^ hl;
            (ll ^ (middle << 64), hh ^ (middle >> 64))
        }),
{
    let xl = x & LOW_HALF;
    let xh = x >> 64;
    let ll = clmul_partial(xl, y & LOW_HALF, 64).0;
    let lh = clmul_partial(xl, y >> 64, 64).0;
    let hl = clmul_partial(xh, y & LOW_HALF, 64).0;
    let hh = clmul_partial(xh, y >> 64, 64).0;
    assert({
        &&& x == (x & 0xFFFF_FFFF_FFFF_FFFFu128) ^ ((x >> 64) << 64)
        &&& x & 0xFFFF_FFFF_FFFF_FFFFu128 <= 0xFFFF_FFFF_FFFF_FFFFu128
        &&& x >> 64 <= 0xFFFF_FFFF_FFFF_FFFFu128
    }) by (bit_vector);
    lemma_distributes(xl, xh << 64, y, 128);
    lemma_narrow_by_high_coefficients(xl, y, 64);
    lemma_reads_low_coefficients(xl, y, 64);
    lemma_raised_by_high_coefficients(xh, y, 64);
    lemma_raised_by_low_coefficients(xh, y, 64);
    lemma_reads_low_coefficients(xh, y, 64);
    assert({
        &&& (ll ^ (lh << 64)) ^ (hl << 64) == ll ^ ((lh ^ hl) << 64)
        &&& (lh >> 64) ^ ((hl >> 64) ^ hh) == hh ^ ((lh ^ hl) >> 64)
    }) by (bit_vector);
}

} // verus!
