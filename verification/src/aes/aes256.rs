//! The cipher with a key of 256 bits.

use crate::aes::expansion::{
    key_schedule,
    lemma_even_round_key_of_eight_words,
    lemma_odd_round_key_of_eight_words,
    propagate_columns,
    round_key,
    substitute_last_word,
    turn_last_word,
    ROUND_CONSTANTS,
};
use crate::aes::rijndael::{cipher, encrypt_state, key_bytes};
use crate::block::Block;
use crate::layout::lemma_bytes_of_pack;
use vstd::prelude::*;

verus! {

/// AES-256, encryption only.
#[derive(Clone, Copy)]
pub struct Aes256 {
    rkeys: [[u8; 16]; 15],
}

/// Copy sixteen bytes of the key, from `start` on.
fn key_half(key: &[u8; 32], start: usize) -> (half: [u8; 16])
    requires
        start <= 16,
    ensures
        half@ == key@.subrange(start as int, start + 16),
{
    let mut half = [0u8;16];
    let mut i: usize = 0;
    while i < 16
        invariant
            i <= 16,
            start <= 16,
            forall|j: int| 0 <= j < i ==> half@[j] == key@[start + j],
        decreases 16 - i,
    {
        half[i] = key[start + i];
        i += 1;
    }
    assert(half@ =~= key@.subrange(start as int, start + 16));
    half
}

/// Expand a key of thirty-two bytes into its fifteen round keys.
///
/// The two halves of the key are the first two round keys. After them the
/// round keys come in pairs: one of even number, from the round constant,
/// and one of odd number, from the even one just made. The last round key
/// is of even number and has no partner.
fn expand(key: &[u8; 32]) -> (keys: [[u8; 16]; 15])
    ensures
        key_bytes(keys@) == key_schedule(key@, 8),
{
    let mut keys = [[0u8;16];15];
    keys[0] = key_half(key, 0);
    keys[1] = key_half(key, 16);
    assert(keys@[0]@ =~= round_key(key@, 8, 0));
    assert(keys@[1]@ =~= round_key(key@, 8, 1));
    let mut h: usize = 1;
    while h < 7
        invariant
            1 <= h <= 7,
            forall|j: int|
                0 <= j < 2 * h ==> (#[trigger] keys@[j])@ == round_key(key@, 8, j as nat),
        decreases 7 - h,
    {
        let turned = turn_last_word(&keys[2 * h - 1], ROUND_CONSTANTS[h - 1]);
        let even = propagate_columns(&keys[2 * h - 2], &turned);
        let substituted = substitute_last_word(&even);
        let odd = propagate_columns(&keys[2 * h - 1], &substituted);
        proof {
            lemma_even_round_key_of_eight_words(key@, h as nat);
            lemma_odd_round_key_of_eight_words(key@, h as nat);
        }
        keys[2 * h] = even;
        keys[2 * h + 1] = odd;
        h += 1;
    }
    let turned = turn_last_word(&keys[13], ROUND_CONSTANTS[6]);
    let last = propagate_columns(&keys[12], &turned);
    proof {
        lemma_even_round_key_of_eight_words(key@, 7);
    }
    keys[14] = last;
    assert(key_bytes(keys@) =~= key_schedule(key@, 8));
    keys
}

impl Aes256 {
    /// The fifteen round keys, each as its sixteen bytes.
    pub closed spec fn round_keys(self) -> Seq<Seq<u8>> {
        key_bytes(self.rkeys@)
    }

    /// Make a new `Aes256` object with key `key`.
    pub fn new(key: &[u8; 32]) -> (r: Aes256)
        ensures
            r.round_keys() == key_schedule(key@, 8),
    {
        Aes256 { rkeys: expand(key) }
    }

    /// The ciphertext of `m`: the block whose bytes are the cipher of the
    /// bytes of `m` under the round keys.
    pub open spec fn encrypt_spec(self, m: Block) -> Block {
        Block::of_bytes(cipher(self.round_keys(), m.bytes()))
    }

    /// Encrypt block `m`.
    pub fn encrypt(&self, m: Block) -> (c: Block)
        ensures
            c == self.encrypt_spec(m),
            c.bytes() == cipher(self.round_keys(), m.bytes()),
    {
        let state: [u8; 16] = m.into();
        let out = encrypt_state(&self.rkeys, &state);
        proof {
            lemma_bytes_of_pack(out@);
        }
        Block::from(out)
    }
}

} // verus!
