//! The Rijndael key expansion: the recurrence on four-byte words that turns
//! a key into its schedule of round keys.

use crate::aes::field::xtime;
use crate::aes::rijndael::{sub_byte, substitute};
use vstd::prelude::*;

verus! {

/// The round constants: the successive powers of `x` in the field of 256
/// elements.
pub const ROUND_CONSTANTS: [u8; 10] = [0x01, 0x02, 0x04, 0x08, 0x10, 0x20, 0x40, 0x80, 0x1B, 0x36];

/// The round constants are the powers of `x`: the first is one, and each
/// other is `x` times the one before it.
pub proof fn lemma_round_constants_are_powers(j: int)
    requires
        0 <= j < 10,
    ensures
        ROUND_CONSTANTS[j] == if j == 0 {
            1
        } else {
            xtime(ROUND_CONSTANTS[j - 1])
        },
{
    assert(xtime(0x01) == 0x02 && xtime(0x02) == 0x04 && xtime(0x04) == 0x08 && xtime(0x08) == 0x10
        && xtime(0x10) == 0x20 && xtime(0x20) == 0x40 && xtime(0x40) == 0x80 && xtime(0x80) == 0x1B
        && xtime(0x1B) == 0x36) by (bit_vector);
}

/// RotWord: the bytes of a word rotated by one place.
pub open spec fn rot_word(w: Seq<u8>) -> Seq<u8> {
    seq![w[1], w[2], w[3], w[0]]
}

/// SubWord: every byte of a word substituted.
pub open spec fn sub_word(w: Seq<u8>) -> Seq<u8> {
    seq![sub_byte(w[0]), sub_byte(w[1]), sub_byte(w[2]), sub_byte(w[3])]
}

/// The sum of two words.
pub open spec fn add_words(a: Seq<u8>, b: Seq<u8>) -> Seq<u8> {
    seq![a[0] ^ b[0], a[1] ^ b[1], a[2] ^ b[2], a[3] ^ b[3]]
}

/// The sum of a word and the word whose first byte is `rc` and whose other
/// bytes are zero.
pub open spec fn add_round_constant(w: Seq<u8>, rc: u8) -> Seq<u8> {
    seq![w[0] ^ rc, w[1], w[2], w[3]]
}

/// Word `i` of the schedule of a key of `nk` words.
pub open spec fn key_word(key: Seq<u8>, nk: nat, i: nat) -> Seq<u8>
    decreases i,
{
    if i < nk || nk == 0 {
        key.subrange(4 * i as int, (4 * i + 4) as int)
    } else {
        let before = key_word(key, nk, (i - 1) as nat);
        let turned = if i % nk == 0 {
            add_round_constant(sub_word(rot_word(before)), ROUND_CONSTANTS[i / nk - 1])
        } else if nk > 6 && i % nk == 4 {
            sub_word(before)
        } else {
            before
        };
        add_words(key_word(key, nk, (i - nk) as nat), turned)
    }
}

/// Round key `r` of the schedule: its words `4 r` to `4 r + 3`.
pub open spec fn round_key(key: Seq<u8>, nk: nat, r: nat) -> Seq<u8> {
    key_word(key, nk, 4 * r) + key_word(key, nk, 4 * r + 1) + key_word(key, nk, 4 * r + 2)
        + key_word(key, nk, 4 * r + 3)
}

/// The schedule of a key of `nk` words: `nk + 7` round keys.
pub open spec fn key_schedule(key: Seq<u8>, nk: nat) -> Seq<Seq<u8>> {
    Seq::new(nk + 7, |r: int| round_key(key, nk, r as nat))
}

/// The last word of a round key.
pub open spec fn last_word(k: Seq<u8>) -> Seq<u8> {
    k.subrange(12, 16)
}

/// Column propagation: each word of `k` is added to the word produced just
/// before it, starting from `t`.
pub open spec fn propagate(k: Seq<u8>, t: Seq<u8>) -> Seq<u8> {
    let w0 = add_words(k.subrange(0, 4), t);
    let w1 = add_words(k.subrange(4, 8), w0);
    let w2 = add_words(k.subrange(8, 12), w1);
    let w3 = add_words(k.subrange(12, 16), w2);
    w0 + w1 + w2 + w3
}

/// Every word of a schedule has four bytes.
pub proof fn lemma_key_word_len(key: Seq<u8>, nk: nat, i: nat)
    requires
        nk >= 1,
        key.len() == 4 * nk,
    ensures
        key_word(key, nk, i).len() == 4,
{
}

/// With a key of four words, each round key follows from the one before it:
/// its last word is rotated, substituted and given the round constant, and
/// the result is propagated through the columns.
pub proof fn lemma_round_key_of_four_words(key: Seq<u8>, r: nat)
    requires
        key.len() == 16,
        1 <= r <= 10,
    ensures
        round_key(key, 4, r) == ({
            let k = round_key(key, 4, (r - 1) as nat);
            propagate(
                k,
                add_round_constant(sub_word(rot_word(last_word(k))), ROUND_CONSTANTS[r - 1]),
            )
        }),
{
    let k = round_key(key, 4, (r - 1) as nat);
    let i = 4 * r;
    lemma_key_word_len(key, 4, (i - 4) as nat);
    lemma_key_word_len(key, 4, (i - 3) as nat);
    lemma_key_word_len(key, 4, (i - 2) as nat);
    lemma_key_word_len(key, 4, (i - 1) as nat);
    assert(k.subrange(0, 4) =~= key_word(key, 4, (i - 4) as nat));
    assert(k.subrange(4, 8) =~= key_word(key, 4, (i - 3) as nat));
    assert(k.subrange(8, 12) =~= key_word(key, 4, (i - 2) as nat));
    assert(k.subrange(12, 16) =~= key_word(key, 4, (i - 1) as nat));
    assert(i % 4 == 0 && i / 4 == r);
    assert((i + 1) % 4 == 1 && (i + 2) % 4 == 2 && (i + 3) % 4 == 3);
}

/// With a key of eight words, each round key of even number follows from the
/// two before it: the last word of the odd one is rotated, substituted and
/// given the round constant, and the result is propagated through the columns
/// of the even one.
pub proof fn lemma_even_round_key_of_eight_words(key: Seq<u8>, h: nat)
    requires
        key.len() == 32,
        1 <= h <= 7,
    ensures
        round_key(key, 8, 2 * h) == propagate(
            round_key(key, 8, (2 * h - 2) as nat),
            add_round_constant(
                sub_word(rot_word(last_word(round_key(key, 8, (2 * h - 1) as nat)))),
                ROUND_CONSTANTS[h - 1],
            ),
        ),
{
    let even = round_key(key, 8, (2 * h - 2) as nat);
    let odd = round_key(key, 8, (2 * h - 1) as nat);
    let i = 8 * h;
    lemma_key_word_len(key, 8, (i - 8) as nat);
    lemma_key_word_len(key, 8, (i - 7) as nat);
    lemma_key_word_len(key, 8, (i - 6) as nat);
    lemma_key_word_len(key, 8, (i - 5) as nat);
    lemma_key_word_len(key, 8, (i - 4) as nat);
    lemma_key_word_len(key, 8, (i - 3) as nat);
    lemma_key_word_len(key, 8, (i - 2) as nat);
    lemma_key_word_len(key, 8, (i - 1) as nat);
    assert(even.subrange(0, 4) =~= key_word(key, 8, (i - 8) as nat));
    assert(even.subrange(4, 8) =~= key_word(key, 8, (i - 7) as nat));
    assert(even.subrange(8, 12) =~= key_word(key, 8, (i - 6) as nat));
    assert(even.subrange(12, 16) =~= key_word(key, 8, (i - 5) as nat));
    assert(odd.subrange(12, 16) =~= key_word(key, 8, (i - 1) as nat));
    assert(i % 8 == 0 && i / 8 == h);
    assert((i + 1) % 8 == 1 && (i + 2) % 8 == 2 && (i + 3) % 8 == 3);
}

/// With a key of eight words, each round key of odd number follows from the
/// two before it: the last word of the even one is substituted, and the
/// result is propagated through the columns of the odd one.
pub proof fn lemma_odd_round_key_of_eight_words(key: Seq<u8>, h: nat)
    requires
        key.len() == 32,
        1 <= h <= 6,
    ensures
        round_key(key, 8, 2 * h + 1) == propagate(
            round_key(key, 8, (2 * h - 1) as nat),
            sub_word(last_word(round_key(key, 8, 2 * h))),
        ),
{
    let odd = round_key(key, 8, (2 * h - 1) as nat);
    let even = round_key(key, 8, 2 * h);
    let i = 8 * h + 4;
    lemma_key_word_len(key, 8, (i - 8) as nat);
    lemma_key_word_len(key, 8, (i - 7) as nat);
    lemma_key_word_len(key, 8, (i - 6) as nat);
    lemma_key_word_len(key, 8, (i - 5) as nat);
    lemma_key_word_len(key, 8, (i - 4) as nat);
    lemma_key_word_len(key, 8, (i - 3) as nat);
    lemma_key_word_len(key, 8, (i - 2) as nat);
    lemma_key_word_len(key, 8, (i - 1) as nat);
    assert(odd.subrange(0, 4) =~= key_word(key, 8, (i - 8) as nat));
    assert(odd.subrange(4, 8) =~= key_word(key, 8, (i - 7) as nat));
    assert(odd.subrange(8, 12) =~= key_word(key, 8, (i - 6) as nat));
    assert(odd.subrange(12, 16) =~= key_word(key, 8, (i - 5) as nat));
    assert(even.subrange(12, 16) =~= key_word(key, 8, (i - 1) as nat));
    assert(i % 8 == 4);
    assert((i + 1) % 8 == 5 && (i + 2) % 8 == 6 && (i + 3) % 8 == 7);
}

/// Rotate and substitute the last word of a round key, and add a round
/// constant to it.
pub fn turn_last_word(k: &[u8; 16], rc: u8) -> (t: [u8; 4])
    ensures
        t@ == add_round_constant(sub_word(rot_word(last_word(k@))), rc),
{
    let t = [substitute(k[13]) ^ rc, substitute(k[14]), substitute(k[15]), substitute(k[12])];
    assert(t@ =~= add_round_constant(sub_word(rot_word(last_word(k@))), rc));
    t
}

/// Substitute the last word of a round key.
pub fn substitute_last_word(k: &[u8; 16]) -> (t: [u8; 4])
    ensures
        t@ == sub_word(last_word(k@)),
{
    let t = [substitute(k[12]), substitute(k[13]), substitute(k[14]), substitute(k[15])];
    assert(t@ =~= sub_word(last_word(k@)));
    t
}

/// Propagate a word through the columns of a round key.
pub fn propagate_columns(k: &[u8; 16], t: &[u8; 4]) -> (r: [u8; 16])
    ensures
        r@ == propagate(k@, t@),
{
    let mut out = [0u8;16];
    let mut j: usize = 0;
    while j < 4
        invariant
            j <= 4,
            forall|i: int| 0 <= i < j ==> out@[i] == k@[i] ^ t@[i],
        decreases 4 - j,
    {
        out[j] = k[j] ^ t[j];
        j += 1;
    }
    while j < 16
        invariant
            4 <= j <= 16,
            forall|i: int| 0 <= i < 4 ==> out@[i] == k@[i] ^ t@[i],
            forall|i: int| 4 <= i < j ==> out@[i] == k@[i] ^ out@[i - 4],
        decreases 16 - j,
    {
        out[j] = k[j] ^ out[j - 4];
        j += 1;
    }
    assert(out@ =~= propagate(k@, t@));
    out
}

} // verus!
