//! Defines a block as a 128-bit value, and implements block-related functions.

use crate::carryless::{clmul64, clmul_spec, lemma_clmul_by_halves, LOW_HALF};
use crate::hex::{append_hex, hex_text};
use crate::layout::{byte_of, le_bytes, le_value, lemma_bytes_of_pack, lemma_pack_of_bytes};
use vstd::prelude::*;
use vstd::std_specs::convert::FromSpec;
use vstd::std_specs::ops::{BitAndSpec, BitOrSpec, BitXorSpec};

verus! {

/// The value whose only set bit is the least significant one.
pub const ONE: u128 = 1;

/// The value with all 128 bits set.
pub const ALL_ONES: u128 = 0xFFFF_FFFF_FFFF_FFFF_FFFF_FFFF_FFFF_FFFF;

/// A 128-bit chunk, held as its numeric value.
///
/// The value carries no meaning of its own: it may be a cipher state, a wire
/// label or a digest. Equality, order and hashing all go by the number.
#[derive(Clone, Copy, Debug, PartialEq, Eq, Structural, Ord, Hash)]
pub struct Block(pub u128);

/// The error of a conversion from a byte string of the wrong length.
#[derive(Clone, Copy, Debug, PartialEq, Eq, Structural)]
pub struct LengthMismatch {
    /// The length that the conversion asks for.
    pub expected: usize,
    /// The length that it was given.
    pub actual: usize,
}

/// Split a value into its low and high 64 bits.
fn halves(v: u128) -> (r: (u64, u64))
    ensures
        r.0 as u128 == v & LOW_HALF,
        r.1 as u128 == v >> 64,
{
    let low = #[verifier::truncate]
    (v as u64);
    let high = #[verifier::truncate]
    ((v >> 64) as u64);
    assert((v as u64) as u128 == v & 0xFFFF_FFFF_FFFF_FFFFu128 && ((v >> 64) as u64) as u128 == v
        >> 64) by (bit_vector);
    (low, high)
}

impl Block {
    /// The sixteen bytes of the block in the canonical layout.
    pub open spec fn bytes(self) -> Seq<u8> {
        le_bytes(self.0)
    }

    /// The block with the given sixteen bytes in the canonical layout.
    pub open spec fn of_bytes(s: Seq<u8>) -> Block {
        Block(le_value(s))
    }

    /// The block with the given eight 16-bit lanes, least significant lane
    /// first.
    pub open spec fn of_lanes16(s: Seq<u16>) -> Block {
        Block(
            (s[0] as u128) | (s[1] as u128) << 16 | (s[2] as u128) << 32 | (s[3] as u128) << 48 | (
            s[4] as u128) << 64 | (s[5] as u128) << 80 | (s[6] as u128) << 96 | (s[7] as u128)
                << 112,
        )
    }

    /// The four 32-bit lanes of the block, least significant lane first.
    pub open spec fn lanes32(self) -> Seq<u32> {
        seq![
            self.0 as u32,
            (self.0 >> 32) as u32,
            (self.0 >> 64) as u32,
            (self.0 >> 96) as u32,
        ]
    }

    /// The outcome of reading a block from a byte string: the block with
    /// those bytes where there are sixteen of them, else the mismatch of the
    /// lengths.
    pub open spec fn of_slice(v: Seq<u8>) -> Result<Block, LengthMismatch> {
        if v.len() == 16 {
            Ok(Block::of_bytes(v))
        } else {
            Err(LengthMismatch { expected: 16, actual: v.len() as usize })
        }
    }

    /// Read a block from a byte string, which must hold exactly sixteen
    /// bytes: the canonical layout, with no framing.
    pub fn try_from_slice(v: &[u8]) -> (r: Result<Block, LengthMismatch>)
        ensures
            r == Block::of_slice(v@),
    {
        if v.len() != 16 {
            return Err(LengthMismatch { expected: 16, actual: v.len() });
        }
        let mut bytes = [0u8;16];
        let mut i: usize = 0;
        while i < 16
            invariant
                i <= 16,
                v@.len() == 16,
                forall|j: int| 0 <= j < i ==> bytes@[j] == v@[j],
            decreases 16 - i,
        {
            bytes[i] = v[i];
            i += 1;
        }
        assert(bytes@ =~= v@);
        Ok(Block::from(bytes))
    }

    /// The block as text: its sixteen bytes in the canonical layout, each as
    /// two upper-case hexadecimal digits.
    pub fn to_hex(&self) -> (s: String)
        ensures
            s@ == hex_text(self.bytes()),
    {
        let bytes: [u8; 16] = (*self).into();
        let mut s = String::new();
        append_hex(&mut s, &bytes);
        s
    }

    /// Carryless multiplication: the 256-bit product of the two blocks as
    /// polynomials over the two-element field, low half first.
    ///
    /// The four products of the 64-bit halves are computed, and the two
    /// middle ones, which straddle the halves of the result, are added into
    /// both.
    pub fn clmul(self, rhs: Self) -> (r: (Block, Block))
        ensures
            (r.0.0, r.1.0) == clmul_spec(self.0, rhs.0),
    {
        let (xl, xh) = halves(self.0);
        let (yl, yh) = halves(rhs.0);
        let ll = clmul64(xl, yl);
        let lh = clmul64(xl, yh);
        let hl = clmul64(xh, yl);
        let hh = clmul64(xh, yh);
        let middle = lh ^ hl;
        proof {
            lemma_clmul_by_halves(self.0, rhs.0);
        }
        (Block(ll ^ (middle << 64)), Block(hh ^ (middle >> 64)))
    }

    /// Whether the least significant bit is set.
    pub open spec fn lsb_spec(self) -> bool {
        self.0 & 1 == 1
    }

    /// The block with every bit flipped.
    pub open spec fn flip_spec(self) -> Block {
        Block(!self.0)
    }

    /// Return the least significant bit.
    pub fn lsb(&self) -> (b: bool)
        ensures
            b == self.lsb_spec(),
    {
        self.0 & 1 == 1
    }

    /// Set the least significant bit.
    pub fn set_lsb(&self) -> (r: Block)
        ensures
            r == Block(self.0 | ONE),
    {
        Block(self.0 | 1)
    }

    /// Flip all bits.
    pub fn flip(&self) -> (r: Block)
        ensures
            r == self.flip_spec(),
    {
        Block(!self.0)
    }
}

impl Default for Block {
    fn default() -> (r: Block)
        ensures
            r.0 == 0,
    {
        Block(0)
    }
}

impl PartialOrd for Block {
    fn partial_cmp(&self, other: &Block) -> (r: Option<core::cmp::Ordering>) {
        if self.0 < other.0 {
            Some(core::cmp::Ordering::Less)
        } else if self.0 == other.0 {
            Some(core::cmp::Ordering::Equal)
        } else {
            Some(core::cmp::Ordering::Greater)
        }
    }
}

impl vstd::std_specs::cmp::PartialOrdSpecImpl for Block {
    open spec fn obeys_partial_cmp_spec() -> bool {
        true
    }

    open spec fn partial_cmp_spec(&self, other: &Block) -> Option<core::cmp::Ordering> {
        if self.0 < other.0 {
            Some(core::cmp::Ordering::Less)
        } else if self.0 == other.0 {
            Some(core::cmp::Ordering::Equal)
        } else {
            Some(core::cmp::Ordering::Greater)
        }
    }
}

impl core::ops::BitAnd for Block {
    type Output = Block;

    fn bitand(self, rhs: Block) -> (r: Block) {
        Block(self.0 & rhs.0)
    }
}

impl vstd::std_specs::ops::BitAndSpecImpl for Block {
    open spec fn obeys_bitand_spec() -> bool {
        true
    }

    open spec fn bitand_req(self, rhs: Block) -> bool {
        true
    }

    open spec fn bitand_spec(self, rhs: Block) -> Block {
        Block(self.0 & rhs.0)
    }
}

impl core::ops::BitAndAssign for Block {
    fn bitand_assign(&mut self, rhs: Block)
        ensures
            final(self).0 == old(self).0 & rhs.0,
    {
        self.0 = self.0 & rhs.0;
    }
}

impl core::ops::BitOr for Block {
    type Output = Block;

    fn bitor(self, rhs: Block) -> (r: Block) {
        Block(self.0 | rhs.0)
    }
}

impl vstd::std_specs::ops::BitOrSpecImpl for Block {
    open spec fn obeys_bitor_spec() -> bool {
        true
    }

    open spec fn bitor_req(self, rhs: Block) -> bool {
        true
    }

    open spec fn bitor_spec(self, rhs: Block) -> Block {
        Block(self.0 | rhs.0)
    }
}

impl core::ops::BitOrAssign for Block {
    fn bitor_assign(&mut self, rhs: Block)
        ensures
            final(self).0 == old(self).0 | rhs.0,
    {
        self.0 = self.0 | rhs.0;
    }
}

impl core::ops::BitXor for Block {
    type Output = Block;

    fn bitxor(self, rhs: Block) -> (r: Block) {
        Block(self.0 ^ rhs.0)
    }
}

impl vstd::std_specs::ops::BitXorSpecImpl for Block {
    open spec fn obeys_bitxor_spec() -> bool {
        true
    }

    open spec fn bitxor_req(self, rhs: Block) -> bool {
        true
    }

    open spec fn bitxor_spec(self, rhs: Block) -> Block {
        Block(self.0 ^ rhs.0)
    }
}

impl core::ops::BitXorAssign for Block {
    fn bitxor_assign(&mut self, rhs: Block)
        ensures
            final(self).0 == old(self).0 ^ rhs.0,
    {
        self.0 = self.0 ^ rhs.0;
    }
}

impl From<u128> for Block {
    fn from(m: u128) -> (r: Block) {
        Block(m)
    }
}

impl vstd::std_specs::convert::FromSpecImpl<u128> for Block {
    open spec fn obeys_from_spec() -> bool {
        true
    }

    open spec fn from_spec(m: u128) -> Block {
        Block(m)
    }
}

impl From<Block> for u128 {
    fn from(m: Block) -> (r: u128) {
        m.0
    }
}

impl vstd::std_specs::convert::FromSpecImpl<Block> for u128 {
    open spec fn obeys_from_spec() -> bool {
        true
    }

    open spec fn from_spec(m: Block) -> u128 {
        m.0
    }
}

impl From<Block> for [u8; 16] {
    fn from(m: Block) -> (r: [u8; 16])
        ensures
            r@ == m.bytes(),
    {
        let mut r = [0u8;16];
        let mut i: usize = 0;
        while i < 16
            invariant
                i <= 16,
                forall|j: int| 0 <= j < i ==> r@[j] == byte_of(m.0, j),
            decreases 16 - i,
        {
            let shift: u128 = 8 * (i as u128);
            r[i] = #[verifier::truncate]
            ((m.0 >> shift) as u8);
            i += 1;
        }
        proof {
            assert(r@ =~= le_bytes(m.0));
        }
        r
    }
}

impl vstd::std_specs::convert::FromSpecImpl<Block> for [u8; 16] {
    open spec fn obeys_from_spec() -> bool {
        true
    }

    open spec fn from_spec(m: Block) -> [u8; 16] {
        choose|a: [u8; 16]| a@ == m.bytes()
    }
}

impl From<[u8; 16]> for Block {
    fn from(m: [u8; 16]) -> (r: Block)
        ensures
            r == Block::of_bytes(m@),
    {
        Block(
            (m[0] as u128) | (m[1] as u128) << 8 | (m[2] as u128) << 16 | (m[3] as u128) << 24 | (
            m[4] as u128) << 32 | (m[5] as u128) << 40 | (m[6] as u128) << 48 | (m[7] as u128)
                << 56 | (m[8] as u128) << 64 | (m[9] as u128) << 72 | (m[10] as u128) << 80 | (
            m[11] as u128) << 88 | (m[12] as u128) << 96 | (m[13] as u128) << 104 | (
            m[14] as u128) << 112 | (m[15] as u128) << 120,
        )
    }
}

impl vstd::std_specs::convert::FromSpecImpl<[u8; 16]> for Block {
    open spec fn obeys_from_spec() -> bool {
        true
    }

    open spec fn from_spec(m: [u8; 16]) -> Block {
        Block::of_bytes(m@)
    }
}

impl From<[u16; 8]> for Block {
    fn from(m: [u16; 8]) -> (r: Block)
        ensures
            r == Block::of_lanes16(m@),
    {
        Block(
            (m[0] as u128) | (m[1] as u128) << 16 | (m[2] as u128) << 32 | (m[3] as u128) << 48 | (
            m[4] as u128) << 64 | (m[5] as u128) << 80 | (m[6] as u128) << 96 | (m[7] as u128)
                << 112,
        )
    }
}

impl vstd::std_specs::convert::FromSpecImpl<[u16; 8]> for Block {
    open spec fn obeys_from_spec() -> bool {
        true
    }

    open spec fn from_spec(m: [u16; 8]) -> Block {
        Block::of_lanes16(m@)
    }
}

impl From<Block> for [u32; 4] {
    fn from(m: Block) -> (r: [u32; 4])
        ensures
            r@ == m.lanes32(),
    {
        let v = m.0;
        let r = [
            #[verifier::truncate]
            (v as u32),
            #[verifier::truncate]
            ((v >> 32) as u32),
            #[verifier::truncate]
            ((v >> 64) as u32),
            #[verifier::truncate]
            ((v >> 96) as u32),
        ];
        proof {
            assert(r@ =~= m.lanes32());
        }
        r
    }
}

impl vstd::std_specs::convert::FromSpecImpl<Block> for [u32; 4] {
    open spec fn obeys_from_spec() -> bool {
        true
    }

    open spec fn from_spec(m: Block) -> [u32; 4] {
        choose|a: [u32; 4]| a@ == m.lanes32()
    }
}

/// The facts of bitwise algebra on 128 bits that the laws below rest on.
proof fn lemma_bit_algebra(x: u128, y: u128)
    by (bit_vector)
    ensures
        x & 0xFFFF_FFFF_FFFF_FFFF_FFFF_FFFF_FFFF_FFFF == x,
        x | 0xFFFF_FFFF_FFFF_FFFF_FFFF_FFFF_FFFF_FFFF == 0xFFFF_FFFF_FFFF_FFFF_FFFF_FFFF_FFFF_FFFFu128,
        x & x == x,
        x | x == x,
        (x ^ y) ^ y == x,
        !!x == x,
        (x | 1) & 1 == 1,
        ((x | 1) ^ 1) & 1 == 0,
        (x & 1 == 1) <==> ((x as u8) & 1 == 1),
        x >> 0 == x,
{
}

/// `x and ALL_ONES` is `x`.
pub proof fn lemma_and_all_ones(x: Block)
    ensures
        x.bitand_spec(Block(ALL_ONES)) == x,
{
    lemma_bit_algebra(x.0, 0);
}

/// `x or ALL_ONES` is `ALL_ONES`.
pub proof fn lemma_or_all_ones(x: Block)
    ensures
        x.bitor_spec(Block(ALL_ONES)) == Block(ALL_ONES),
{
    lemma_bit_algebra(x.0, 0);
}

/// `x and x` is `x`, and `x or x` is `x`.
pub proof fn lemma_and_or_idempotent(x: Block)
    ensures
        x.bitand_spec(x) == x,
        x.bitor_spec(x) == x,
{
    lemma_bit_algebra(x.0, 0);
}

/// Adding `y` twice gives `x` back: `(x xor y) xor y` is `x`.
pub proof fn lemma_xor_twice(x: Block, y: Block)
    ensures
        x.bitxor_spec(y).bitxor_spec(y) == x,
{
    lemma_bit_algebra(x.0, y.0);
}

/// Flipping twice gives `x` back.
pub proof fn lemma_flip_twice(x: Block)
    ensures
        x.flip_spec().flip_spec() == x,
{
    lemma_bit_algebra(x.0, 0);
}

/// The least significant bit of `x or ONE` is set, and that of
/// `(x or ONE) xor ONE` is not.
pub proof fn lemma_lsb_set_and_cleared(x: Block)
    ensures
        x.bitor_spec(Block(ONE)).lsb_spec(),
        !x.bitor_spec(Block(ONE)).bitxor_spec(Block(ONE)).lsb_spec(),
{
    lemma_bit_algebra(x.0, 0);
}

/// The least significant bit is bit 0 of byte 0 in the canonical layout.
pub proof fn lemma_lsb_in_first_byte(x: Block)
    ensures
        x.lsb_spec() <==> x.bytes()[0] & 1 == 1,
{
    lemma_bit_algebra(x.0, 0);
}

/// Two blocks are equal exactly when their numbers are, and a block made
/// from a number has that number: converting to `u128` and back, either way
/// round, changes nothing.
pub proof fn lemma_u128_round_trip(x: Block, v: u128)
    ensures
        (x == Block::from_spec(v)) <==> (u128::from_spec(x) == v),
        Block::from_spec(u128::from_spec(x)) == x,
        u128::from_spec(Block::from_spec(v)) == v,
{
}

/// Converting a block to its sixteen bytes and back gives the block, and
/// converting sixteen bytes to a block and back gives the bytes.
pub proof fn lemma_bytes_round_trip(x: Block, s: Seq<u8>)
    requires
        s.len() == 16,
    ensures
        Block::of_bytes(x.bytes()) == x,
        Block::of_bytes(s).bytes() == s,
{
    lemma_pack_of_bytes(x.0);
    lemma_bytes_of_pack(s);
}

/// The 16-bit lanes name the same bits as the bytes: lane `i` is made of the
/// bytes `2 i` and `2 i + 1`, the lower one first.
pub proof fn lemma_lanes16_are_bytes(s: Seq<u16>)
    requires
        s.len() == 8,
    ensures
        Block::of_lanes16(s).bytes() == Seq::new(
            16,
            |i: int|
                if i % 2 == 0 {
                    s[i / 2] as u8
                } else {
                    (s[i / 2] >> 8) as u8
                },
        ),
{
    let v = Block::of_lanes16(s).0;
    let (l0, l1, l2, l3, l4, l5, l6, l7) = (s[0], s[1], s[2], s[3], s[4], s[5], s[6], s[7]);
    assert({
        let v = (l0 as u128) | (l1 as u128) << 16 | (l2 as u128) << 32 | (l3 as u128) << 48 | (
        l4 as u128) << 64 | (l5 as u128) << 80 | (l6 as u128) << 96 | (l7 as u128) << 112;
        &&& (v >> 0) as u8 == l0 as u8
        &&& (v >> 8) as u8 == (l0 >> 8) as u8
        &&& (v >> 16) as u8 == l1 as u8
        &&& (v >> 24) as u8 == (l1 >> 8) as u8
        &&& (v >> 32) as u8 == l2 as u8
        &&& (v >> 40) as u8 == (l2 >> 8) as u8
        &&& (v >> 48) as u8 == l3 as u8
        &&& (v >> 56) as u8 == (l3 >> 8) as u8
        &&& (v >> 64) as u8 == l4 as u8
        &&& (v >> 72) as u8 == (l4 >> 8) as u8
        &&& (v >> 80) as u8 == l5 as u8
        &&& (v >> 88) as u8 == (l5 >> 8) as u8
        &&& (v >> 96) as u8 == l6 as u8
        &&& (v >> 104) as u8 == (l6 >> 8) as u8
        &&& (v >> 112) as u8 == l7 as u8
        &&& (v >> 120) as u8 == (l7 >> 8) as u8
    }) by (bit_vector);
    assert(Block::of_lanes16(s).bytes() =~= Seq::new(
        16,
        |i: int|
            if i % 2 == 0 {
                s[i / 2] as u8
            } else {
                (s[i / 2] >> 8) as u8
            },
    ));
}

/// The value of four bytes, least significant first.
pub open spec fn pack_lane32(b0: u8, b1: u8, b2: u8, b3: u8) -> u32 {
    (b0 as u32) | (b1 as u32) << 8 | (b2 as u32) << 16 | (b3 as u32) << 24
}

/// The 32-bit lanes name the same bits as the bytes: lane `i` is made of the
/// bytes `4 i` to `4 i + 3`, least significant first.
pub proof fn lemma_lanes32_are_bytes(x: Block)
    ensures
        x.lanes32() == Seq::new(
            4,
            |i: int|
                pack_lane32(
                    x.bytes()[4 * i],
                    x.bytes()[4 * i + 1],
                    x.bytes()[4 * i + 2],
                    x.bytes()[4 * i + 3],
                ),
        ),
{
    let v = x.0;
    assert({
        &&& v as u32 == pack_lane32((v >> 0) as u8, (v >> 8) as u8, (v >> 16) as u8, (v >> 24) as u8)
        &&& (v >> 32) as u32 == pack_lane32(
            (v >> 32) as u8,
            (v >> 40) as u8,
            (v >> 48) as u8,
            (v >> 56) as u8,
        )
        &&& (v >> 64) as u32 == pack_lane32(
            (v >> 64) as u8,
            (v >> 72) as u8,
            (v >> 80) as u8,
            (v >> 88) as u8,
        )
        &&& (v >> 96) as u32 == pack_lane32(
            (v >> 96) as u8,
            (v >> 104) as u8,
            (v >> 112) as u8,
            (v >> 120) as u8,
        )
    }) by (bit_vector);
    assert(x.lanes32() =~= Seq::new(
        4,
        |i: int|
            pack_lane32(
                x.bytes()[4 * i],
                x.bytes()[4 * i + 1],
                x.bytes()[4 * i + 2],
                x.bytes()[4 * i + 3],
            ),
    ));
}

} // verus!
