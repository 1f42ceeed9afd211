//! The cipher with a key of 128 bits.

use crate::aes::expansion::{
    key_schedule,
    lemma_round_key_of_four_words,
    propagate_columns,
    round_key,
    turn_last_word,
    ROUND_CONSTANTS,
};
use crate::aes::rijndael::{cipher, encrypt_state, key_bytes};
use crate::block::Block;
use crate::layout::lemma_bytes_of_pack;
use vstd::prelude::*;

verus! {

/// The round keys of the fixed-key cipher, each as the number whose bytes,
/// least significant first, are the bytes of the round key.
pub const FIXED_ROUND_KEYS: [u128; 11] = [
    0x15B5_32C2_F193_1C94,
    0xD754_876D_FE7E_6726,
    0xA7EB_4F98_1986_CFCF,
    0x80E6_BBED_F88D_E8C9,
    0x1210_4B44_43D8_B35C,
    0xF467_7B3C_8DCB_047B,
    0x578C_DBAC_AED1_C9DC,
    0x295D_2051_CF6F_5E25,
    0x0CE1_FD36_50DE_FFAB,
    0xDDFA_4FE9_E2CD_2D23,
    0x96F6_769D_AF14_18D2,
];

/// AES-128, encryption only.
#[derive(Clone, Copy)]
pub struct Aes128 {
    rkeys: [[u8; 16]; 11],
}

/// Expand a key of sixteen bytes into its eleven round keys.
fn expand(key: &[u8; 16]) -> (keys: [[u8; 16]; 11])
    ensures
        key_bytes(keys@) == key_schedule(key@, 4),
{
    let mut keys = [[0u8;16];11];
    keys[0] = *key;
    assert(keys@[0]@ =~= round_key(key@, 4, 0));
    let mut r: usize = 1;
    while r < 11
        invariant
            1 <= r <= 11,
            forall|j: int| 0 <= j < r ==> (#[trigger] keys@[j])@ == round_key(key@, 4, j as nat),
        decreases 11 - r,
    {
        let turned = turn_last_word(&keys[r - 1], ROUND_CONSTANTS[r - 1]);
        let next = propagate_columns(&keys[r - 1], &turned);
        proof {
            lemma_round_key_of_four_words(key@, r as nat);
        }
        keys[r] = next;
        r += 1;
    }
    assert(key_bytes(keys@) =~= key_schedule(key@, 4));
    keys
}

impl Aes128 {
    /// The eleven round keys, each as its sixteen bytes.
    pub closed spec fn round_keys(self) -> Seq<Seq<u8>> {
        key_bytes(self.rkeys@)
    }

    /// Create a new `Aes128` object, using `key` as the AES key.
    pub fn new(key: Block) -> (r: Aes128)
        ensures
            r.round_keys() == key_schedule(key.bytes(), 4),
    {
        let bytes: [u8; 16] = key.into();
        Aes128 { rkeys: expand(&bytes) }
    }

    /// The cipher whose round keys are the fixed public constants
    /// `FIXED_ROUND_KEYS`, the same for every party.
    pub fn fixed_key() -> (r: Aes128)
        ensures
            r.round_keys() == Seq::new(11, |i: int| Block(FIXED_ROUND_KEYS[i]).bytes()),
    {
        let mut rkeys = [[0u8;16];11];
        let mut i: usize = 0;
        while i < 11
            invariant
                i <= 11,
                forall|j: int|
                    0 <= j < i ==> (#[trigger] rkeys@[j])@ == Block(FIXED_ROUND_KEYS[j]).bytes(),
            decreases 11 - i,
        {
            let k: [u8; 16] = Block(FIXED_ROUND_KEYS[i]).into();
            rkeys[i] = k;
            i += 1;
        }
        assert(key_bytes(rkeys@) =~= Seq::new(11, |i: int| Block(FIXED_ROUND_KEYS[i]).bytes()));
        Aes128 { rkeys }
    }

    /// The ciphertext of `m`: the block whose bytes are the cipher of the
    /// bytes of `m` under the round keys.
    pub open spec fn encrypt_spec(self, m: Block) -> Block {
        Block::of_bytes(cipher(self.round_keys(), m.bytes()))
    }

    /// Encrypt a block, outputting the ciphertext.
    pub fn encrypt(&self, m: Block) -> (c: Block)
        ensures
            c == self.encrypt_spec(m),
            c.bytes() == cipher(self.round_keys(), m.bytes()),
    {
        let state: [u8; 16] = m.into();
        let out = encrypt_state(&self.rkeys, &state);
        proof {
            lemma_bytes_of_pack(out@);
        }
        Block::from(out)
    }
}

} // verus!
