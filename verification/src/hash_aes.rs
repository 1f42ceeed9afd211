//! Implementations of correlation-robust hash functions (and their variants)
//! based on fixed-key AES.

use crate::aes::aes128::{Aes128, FIXED_ROUND_KEYS};
use crate::aes::expansion::key_schedule;
use crate::block::Block;
use crate::carryless::LOW_HALF;
use vstd::prelude::*;

verus! {

/// AES-based correlation-robust hash function.
///
/// This hash function supports the correlation-robust variants given in
/// <https://eprint.iacr.org/2019/074>.
#[derive(Clone, Copy)]
pub struct AesHash {
    aes: Aes128,
}

/// The linear orthomorphism of the circular variant: with `x` split into its
/// high and low 64 bits, the high half of the result is their sum and the
/// low half is the low half of `x`.
pub open spec fn sigma(x: Block) -> Block {
    let high = x.0 >> 64;
    let low = x.0 & LOW_HALF;
    Block(((high ^ low) << 64) | low)
}

impl AesHash {
    /// The cipher that the hash applies.
    pub closed spec fn cipher(self) -> Aes128 {
        self.aes
    }

    /// The value of `cr_hash` on `x`: `π(x) ⊕ x`, for `π` the cipher.
    pub open spec fn cr_hash_spec(self, x: Block) -> Block {
        Block(self.cipher().encrypt_spec(x).0 ^ x.0)
    }

    /// The value of `ccr_hash` on `x`: `H(σ(x))`, for `H` the value of
    /// `cr_hash`.
    pub open spec fn ccr_hash_spec(self, x: Block) -> Block {
        self.cr_hash_spec(sigma(x))
    }

    /// The value of `tccr_hash` on the tweak `i` and `x`:
    /// `π(π(x) ⊕ i) ⊕ π(x)`, for `π` the cipher.
    pub open spec fn tccr_hash_spec(self, i: Block, x: Block) -> Block {
        let y = self.cipher().encrypt_spec(x);
        let z = self.cipher().encrypt_spec(Block(y.0 ^ i.0));
        Block(y.0 ^ z.0)
    }

    /// Initialize the hash function using `key`.
    pub fn new(key: Block) -> (r: AesHash)
        ensures
            r.cipher().round_keys() == key_schedule(key.bytes(), 4),
    {
        let aes = Aes128::new(key);
        AesHash { aes }
    }

    /// The hash function over the fixed-key cipher, the same for every party.
    pub fn fixed_key() -> (r: AesHash)
        ensures
            r.cipher().round_keys() == Seq::new(11, |i: int| Block(FIXED_ROUND_KEYS[i]).bytes()),
    {
        AesHash { aes: Aes128::fixed_key() }
    }

    /// Correlation-robust hash function for 128-bit inputs (cf.
    /// <https://eprint.iacr.org/2019/074>, §7.2).
    ///
    /// The function computes `π(x) ⊕ x`. The tweak is not used.
    pub fn cr_hash(&self, _i: Block, x: Block) -> (r: Block)
        ensures
            r == self.cr_hash_spec(x),
    {
        self.aes.encrypt(x) ^ x
    }

    /// Circular correlation-robust hash function (cf.
    /// <https://eprint.iacr.org/2019/074>, §7.3).
    ///
    /// The function computes `H(σ(x))`, where `H` is a correlation-robust hash
    /// function and `σ(x₀ || x₁) = (x₀ ⊕ x₁) || x₁`.
    pub fn ccr_hash(&self, i: Block, x: Block) -> (r: Block)
        ensures
            r == self.ccr_hash_spec(x),
    {
        let high = x.0 >> 64;
        let low = x.0 & LOW_HALF;
        self.cr_hash(i, Block(((high ^ low) << 64) | low))
    }

    /// Tweakable circular correlation robust hash function (cf.
    /// <https://eprint.iacr.org/2019/074>, §7.4).
    ///
    /// The function computes `π(π(x) ⊕ i) ⊕ π(x)`.
    pub fn tccr_hash(&self, i: Block, x: Block) -> (r: Block)
        ensures
            r == self.tccr_hash_spec(i, x),
    {
        let y = self.aes.encrypt(x);
        let t = y ^ i;
        let z = self.aes.encrypt(t);
        y ^ z
    }
}

/// The three hash functions are functions of the round keys, the tweak and
/// the input alone: two hashes with the same round keys agree everywhere, and
/// `cr_hash` and `ccr_hash` do not read the tweak.
pub proof fn lemma_hash_deterministic(h1: AesHash, h2: AesHash, i: Block, x: Block)
    requires
        h1.cipher().round_keys() == h2.cipher().round_keys(),
    ensures
        h1.cr_hash_spec(x) == h2.cr_hash_spec(x),
        h1.ccr_hash_spec(x) == h2.ccr_hash_spec(x),
        h1.tccr_hash_spec(i, x) == h2.tccr_hash_spec(i, x),
{
}

} // verus!
