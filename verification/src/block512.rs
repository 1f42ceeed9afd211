//! Defines a 512-bit value as four blocks.

use crate::block::{lemma_xor_twice, Block, LengthMismatch};
use crate::hex::{append_hex, hex_text};
use crate::layout::{lemma_bytes_of_pack, lemma_pack_of_bytes};
use vstd::prelude::*;
use vstd::std_specs::convert::FromSpec;
use vstd::std_specs::ops::BitXorSpec;
use vstd::string::StringExecFns;

verus! {

/// A 512-bit value: four blocks that stand for 64 contiguous bytes.
#[derive(Clone, Copy, Debug, Eq, Ord, Hash)]
pub struct Block512(pub(crate) [Block; 4]);

impl View for Block512 {
    type V = Seq<Block>;

    closed spec fn view(&self) -> Seq<Block> {
        self.0@
    }
}

/// The 64 bytes of four blocks, each block in the canonical layout.
pub open spec fn bytes_of_blocks(blocks: Seq<Block>) -> Seq<u8> {
    Seq::new(64, |i: int| blocks[i / 16].bytes()[i % 16])
}

/// The four blocks of 64 bytes.
pub open spec fn blocks_of_bytes(bytes: Seq<u8>) -> Seq<Block> {
    Seq::new(4, |j: int| Block::of_bytes(bytes.subrange(16 * j, 16 * j + 16)))
}

/// The line of text of one block: four spaces, the block as text, a comma
/// and a line break.
pub open spec fn line_text(b: Block) -> Seq<char> {
    seq![' ', ' ', ' ', ' '] + hex_text(b.bytes()) + seq![',', '\n']
}

/// The lines of text of a sequence of blocks, in order.
pub open spec fn lines_text(blocks: Seq<Block>) -> Seq<char>
    decreases blocks.len(),
{
    if blocks.len() == 0 {
        Seq::empty()
    } else {
        lines_text(blocks.drop_last()) + line_text(blocks.last())
    }
}

/// The text of a sequence of blocks: their lines between square brackets.
pub open spec fn wide_text(blocks: Seq<Block>) -> Seq<char> {
    seq!['[', '\n'] + lines_text(blocks) + seq![']']
}

/// The block-wise sum of two sequences of four blocks.
pub open spec fn xor_blocks(a: Seq<Block>, b: Seq<Block>) -> Seq<Block> {
    Seq::new(4, |j: int| Block(a[j].0 ^ b[j].0))
}

impl Block512 {
    /// The value with the given four blocks.
    pub closed spec fn of_blocks(blocks: Seq<Block>) -> Block512 {
        Block512([blocks[0], blocks[1], blocks[2], blocks[3]])
    }

    /// The blocks of the value made of four blocks are those blocks.
    pub proof fn lemma_of_blocks(blocks: Seq<Block>)
        requires
            blocks.len() == 4,
        ensures
            Block512::of_blocks(blocks)@ == blocks,
    {
        assert(Block512::of_blocks(blocks)@ =~= blocks);
    }

    /// A value is made of its blocks.
    pub proof fn lemma_of_view(self)
        ensures
            Block512::of_blocks(self@) == self,
    {
        assert(Block512::of_blocks(self@).0 =~= self.0);
    }

    /// A value has four blocks.
    pub proof fn lemma_view_len(self)
        ensures
            self@.len() == 4,
    {
    }

    /// Two values with the same blocks are the same value.
    pub proof fn lemma_view_injective(self, other: Block512)
        requires
            self@ == other@,
        ensures
            self == other,
    {
        assert(self.0 =~= other.0);
    }

    /// The 64 bytes of the value.
    pub open spec fn bytes(self) -> Seq<u8> {
        bytes_of_blocks(self@)
    }

    /// The sixteen 32-bit lanes of the value: those of its blocks, in order.
    pub open spec fn lanes32(self) -> Seq<u32> {
        Seq::new(16, |i: int| self@[i / 4].lanes32()[i % 4])
    }

    /// The value as text: an opening bracket, then one line for each block,
    /// of four spaces, the block as text and a comma, then a closing bracket.
    pub fn to_text(&self) -> (s: String)
        ensures
            s@ == wide_text(self@),
    {
        proof {
            reveal_strlit("[\n");
            reveal_strlit("    ");
            reveal_strlit(",\n");
            reveal_strlit("]");
        }
        let mut s = String::new();
        s.append("[\n");
        let mut j: usize = 0;
        while j < 4
            invariant
                j <= 4,
                "    "@ == seq![' ', ' ', ' ', ' '],
                ",\n"@ == seq![',', '\n'],
                s@ == seq!['[', '\n'] + lines_text(self@.take(j as int)),
            decreases 4 - j,
        {
            let bytes: [u8; 16] = self.0[j].into();
            s.append("    ");
            append_hex(&mut s, &bytes);
            s.append(",\n");
            proof {
                let now = self@.take(j + 1);
                assert(now.drop_last() =~= self@.take(j as int));
                assert(now.last() == self@[j as int]);
                assert(s@ =~= seq!['[', '\n'] + lines_text(now));
            }
            j += 1;
        }
        s.append("]");
        assert(self@.take(4) =~= self@);
        s
    }

    /// Return the first `n` bytes, where `n` must be `<= 64`.
    pub fn prefix(&self, n: usize) -> (r: Vec<u8>)
        requires
            n <= 64,
        ensures
            r@ == self.bytes().take(n as int),
    {
        let mut out: Vec<u8> = Vec::new();
        let mut i: usize = 0;
        while i < n
            invariant
                i <= n <= 64,
                out@.len() == i,
                forall|j: int| 0 <= j < i ==> out@[j] == self.bytes()[j],
            decreases n - i,
        {
            let block: [u8; 16] = self.0[i / 16].into();
            out.push(block[i % 16]);
            i += 1;
        }
        assert(out@ =~= self.bytes().take(n as int));
        out
    }

    /// Overwrite the first bytes of the value with `bytes`, of which there
    /// must be at most 64; the other bytes stay.
    pub fn prefix_mut(&mut self, bytes: &[u8])
        requires
            bytes@.len() <= 64,
        ensures
            final(self).bytes() == bytes@ + old(self).bytes().skip(bytes@.len() as int),
    {
        let n = bytes.len();
        let mut all: [u8; 64] = (*self).into();
        let ghost before = all@;
        let mut i: usize = 0;
        while i < n
            invariant
                i <= n <= 64,
                n == bytes@.len(),
                before.len() == 64,
                forall|j: int| 0 <= j < i ==> all@[j] == bytes@[j],
                forall|j: int| i <= j < 64 ==> all@[j] == before[j],
            decreases n - i,
        {
            all[i] = bytes[i];
            i += 1;
        }
        assert(all@ =~= bytes@ + before.skip(n as int));
        *self = Block512::from(all);
        proof {
            lemma_bytes_of_from_bytes(all@);
        }
    }
}

/// The bytes of the blocks of 64 bytes are those bytes.
pub proof fn lemma_bytes_of_from_bytes(bytes: Seq<u8>)
    requires
        bytes.len() == 64,
    ensures
        bytes_of_blocks(blocks_of_bytes(bytes)) == bytes,
{
    assert forall|i: int| 0 <= i < 64 implies bytes_of_blocks(blocks_of_bytes(bytes))[i]
        == bytes[i] by {
        let j = i / 16;
        let part = bytes.subrange(16 * j, 16 * j + 16);
        lemma_bytes_of_pack(part);
        assert(part[i % 16] == bytes[i]);
    }
    assert(bytes_of_blocks(blocks_of_bytes(bytes)) =~= bytes);
}

/// The blocks of the bytes of four blocks are those blocks.
pub proof fn lemma_from_bytes_of_bytes(blocks: Seq<Block>)
    requires
        blocks.len() == 4,
    ensures
        blocks_of_bytes(bytes_of_blocks(blocks)) == blocks,
{
    assert forall|j: int| 0 <= j < 4 implies blocks_of_bytes(bytes_of_blocks(blocks))[j]
        == blocks[j] by {
        let all = bytes_of_blocks(blocks);
        assert(all.subrange(16 * j, 16 * j + 16) =~= blocks[j].bytes());
        lemma_pack_of_bytes(blocks[j].0);
    }
    assert(blocks_of_bytes(bytes_of_blocks(blocks)) =~= blocks);
}

impl Default for Block512 {
    fn default() -> (r: Block512)
        ensures
            r@ == seq![Block(0), Block(0), Block(0), Block(0)],
    {
        let r = Block512(
            [Block::default(), Block::default(), Block::default(), Block::default()],
        );
        assert(r@ =~= seq![Block(0), Block(0), Block(0), Block(0)]);
        r
    }
}

impl core::ops::BitXor for Block512 {
    type Output = Block512;

    fn bitxor(self, rhs: Block512) -> (r: Block512)
        ensures
            r@ == xor_blocks(self@, rhs@),
    {
        let b0 = self.0[0] ^ rhs.0[0];
        let b1 = self.0[1] ^ rhs.0[1];
        let b2 = self.0[2] ^ rhs.0[2];
        let b3 = self.0[3] ^ rhs.0[3];
        let r = Block512([b0, b1, b2, b3]);
        assert(r@ =~= xor_blocks(self@, rhs@));
        proof {
            r.lemma_of_view();
        }
        r
    }
}

impl vstd::std_specs::ops::BitXorSpecImpl for Block512 {
    open spec fn obeys_bitxor_spec() -> bool {
        true
    }

    open spec fn bitxor_req(self, rhs: Block512) -> bool {
        true
    }

    open spec fn bitxor_spec(self, rhs: Block512) -> Block512 {
        Block512::of_blocks(xor_blocks(self@, rhs@))
    }
}

impl core::ops::BitXorAssign for Block512 {
    fn bitxor_assign(&mut self, rhs: Block512)
        ensures
            final(self)@ == xor_blocks(old(self)@, rhs@),
    {
        let b0 = self.0[0] ^ rhs.0[0];
        let b1 = self.0[1] ^ rhs.0[1];
        let b2 = self.0[2] ^ rhs.0[2];
        let b3 = self.0[3] ^ rhs.0[3];
        self.0 = [b0, b1, b2, b3];
        assert(self@ =~= xor_blocks(old(self)@, rhs@));
    }
}

impl From<[Block; 4]> for Block512 {
    fn from(m: [Block; 4]) -> (r: Block512)
        ensures
            r@ == m@,
    {
        let r = Block512([m[0], m[1], m[2], m[3]]);
        assert(r@ =~= m@);
        proof {
            r.lemma_of_view();
        }
        r
    }
}

impl vstd::std_specs::convert::FromSpecImpl<[Block; 4]> for Block512 {
    open spec fn obeys_from_spec() -> bool {
        true
    }

    open spec fn from_spec(m: [Block; 4]) -> Block512 {
        Block512::of_blocks(m@)
    }
}

impl From<Block512> for [Block; 4] {
    fn from(m: Block512) -> (r: [Block; 4])
        ensures
            r@ == m@,
    {
        m.0
    }
}

impl vstd::std_specs::convert::FromSpecImpl<Block512> for [Block; 4] {
    open spec fn obeys_from_spec() -> bool {
        true
    }

    open spec fn from_spec(m: Block512) -> [Block; 4] {
        choose|r: [Block; 4]| r@ == m@
    }
}

impl From<[u8; 64]> for Block512 {
    fn from(m: [u8; 64]) -> (r: Block512)
        ensures
            r@ == blocks_of_bytes(m@),
    {
        let mut blocks = [Block(0);4];
        let mut j: usize = 0;
        while j < 4
            invariant
                j <= 4,
                forall|i: int| 0 <= i < j ==> blocks@[i] == blocks_of_bytes(m@)[i],
            decreases 4 - j,
        {
            let mut part = [0u8;16];
            let mut i: usize = 0;
            while i < 16
                invariant
                    i <= 16,
                    j < 4,
                    forall|t: int| 0 <= t < i ==> part@[t] == m@[16 * j + t],
                decreases 16 - i,
            {
                part[i] = m[16 * j + i];
                i += 1;
            }
            assert(part@ =~= m@.subrange(16 * j, 16 * j + 16));
            blocks[j] = Block::from(part);
            j += 1;
        }
        let r = Block512(blocks);
        assert(r@ =~= blocks_of_bytes(m@));
        proof {
            r.lemma_of_view();
        }
        r
    }
}

impl vstd::std_specs::convert::FromSpecImpl<[u8; 64]> for Block512 {
    open spec fn obeys_from_spec() -> bool {
        true
    }

    open spec fn from_spec(m: [u8; 64]) -> Block512 {
        Block512::of_blocks(blocks_of_bytes(m@))
    }
}

impl From<Block512> for [u8; 64] {
    fn from(m: Block512) -> (r: [u8; 64])
        ensures
            r@ == m.bytes(),
    {
        let mut out = [0u8;64];
        let mut j: usize = 0;
        while j < 4
            invariant
                j <= 4,
                forall|i: int| 0 <= i < 16 * j ==> out@[i] == m.bytes()[i],
            decreases 4 - j,
        {
            let part: [u8; 16] = m.0[j].into();
            let mut i: usize = 0;
            while i < 16
                invariant
                    i <= 16,
                    j < 4,
                    part@ == m@[j as int].bytes(),
                    forall|t: int| 0 <= t < 16 * j + i ==> out@[t] == m.bytes()[t],
                decreases 16 - i,
            {
                out[16 * j + i] = part[i];
                i += 1;
            }
            j += 1;
        }
        assert(out@ =~= m.bytes());
        out
    }
}

impl vstd::std_specs::convert::FromSpecImpl<Block512> for [u8; 64] {
    open spec fn obeys_from_spec() -> bool {
        true
    }

    open spec fn from_spec(m: Block512) -> [u8; 64] {
        choose|r: [u8; 64]| r@ == m.bytes()
    }
}

impl PartialEq for Block512 {
    fn eq(&self, other: &Block512) -> (r: bool) {
        let r = self.0[0] == other.0[0] && self.0[1] == other.0[1] && self.0[2] == other.0[2]
            && self.0[3] == other.0[3];
        proof {
            if r {
                assert(self@ =~= other@);
            }
        }
        r
    }
}

impl vstd::std_specs::cmp::PartialEqSpecImpl for Block512 {
    open spec fn obeys_eq_spec() -> bool {
        true
    }

    open spec fn eq_spec(&self, other: &Block512) -> bool {
        self@ == other@
    }
}

/// The order of two numbers.
pub open spec fn number_order(a: u128, b: u128) -> core::cmp::Ordering {
    if a < b {
        core::cmp::Ordering::Less
    } else if a == b {
        core::cmp::Ordering::Equal
    } else {
        core::cmp::Ordering::Greater
    }
}

/// The order of two sequences of four blocks: that of the first pair of
/// blocks that differ, each block taken as its number.
pub open spec fn lexicographic(a: Seq<Block>, b: Seq<Block>) -> core::cmp::Ordering {
    if a[0] != b[0] {
        number_order(a[0].0, b[0].0)
    } else if a[1] != b[1] {
        number_order(a[1].0, b[1].0)
    } else if a[2] != b[2] {
        number_order(a[2].0, b[2].0)
    } else {
        number_order(a[3].0, b[3].0)
    }
}

/// Order two numbers.
fn order_numbers(a: u128, b: u128) -> (r: core::cmp::Ordering)
    ensures
        r == number_order(a, b),
{
    if a < b {
        core::cmp::Ordering::Less
    } else if a == b {
        core::cmp::Ordering::Equal
    } else {
        core::cmp::Ordering::Greater
    }
}

impl PartialOrd for Block512 {
    fn partial_cmp(&self, other: &Block512) -> (r: Option<core::cmp::Ordering>)
        ensures
            r == Some(lexicographic(self@, other@)),
    {
        if self.0[0].0 != other.0[0].0 {
            Some(order_numbers(self.0[0].0, other.0[0].0))
        } else if self.0[1].0 != other.0[1].0 {
            Some(order_numbers(self.0[1].0, other.0[1].0))
        } else if self.0[2].0 != other.0[2].0 {
            Some(order_numbers(self.0[2].0, other.0[2].0))
        } else {
            Some(order_numbers(self.0[3].0, other.0[3].0))
        }
    }
}

impl vstd::std_specs::cmp::PartialOrdSpecImpl for Block512 {
    open spec fn obeys_partial_cmp_spec() -> bool {
        true
    }

    open spec fn partial_cmp_spec(&self, other: &Block512) -> Option<core::cmp::Ordering> {
        Some(lexicographic(self@, other@))
    }
}

/// Adding `b` twice gives `a` back: `(a xor b) xor b` is `a`.
pub proof fn lemma_wide_xor_twice(a: Block512, b: Block512)
    ensures
        a.bitxor_spec(b).bitxor_spec(b) == a,
{
    a.lemma_view_len();
    b.lemma_view_len();
    let once = xor_blocks(a@, b@);
    Block512::lemma_of_blocks(once);
    assert forall|j: int| 0 <= j < 4 implies xor_blocks(once, b@)[j] == a@[j] by {
        lemma_xor_twice(a@[j], b@[j]);
    }
    assert(xor_blocks(once, b@) =~= a@);
    a.lemma_of_view();
}

/// Converting a value to its 64 bytes and back gives the value, and
/// converting 64 bytes to a value and back gives the bytes.
pub proof fn lemma_wide_bytes_round_trip(w: Block512, a: [u8; 64])
    ensures
        a@ == w.bytes() ==> Block512::from_spec(a) == w,
        Block512::from_spec(a).bytes() == a@,
{
    w.lemma_view_len();
    if a@ == w.bytes() {
        lemma_from_bytes_of_bytes(w@);
        w.lemma_of_view();
    }
    Block512::lemma_of_blocks(blocks_of_bytes(a@));
    lemma_bytes_of_from_bytes(a@);
}

/// The outcome of a conversion from a byte string: the value with those
/// bytes where there are 64 of them, else the mismatch of the lengths.
pub open spec fn wide_of_slice(u: Seq<u8>) -> Result<Block512, LengthMismatch> {
    if u.len() == 64 {
        Ok(Block512::of_blocks(blocks_of_bytes(u)))
    } else {
        Err(LengthMismatch { expected: 64, actual: u.len() as usize })
    }
}

impl<'a> TryFrom<&'a [u8]> for Block512 {
    type Error = LengthMismatch;

    fn try_from(u: &'a [u8]) -> (r: Result<Block512, LengthMismatch>)
        ensures
            r == wide_of_slice(u@),
            r is Ok ==> r->Ok_0.bytes() == u@,
    {
        if u.len() != 64 {
            return Err(LengthMismatch { expected: 64, actual: u.len() });
        }
        let mut all = [0u8;64];
        let mut i: usize = 0;
        while i < 64
            invariant
                i <= 64,
                u@.len() == 64,
                forall|j: int| 0 <= j < i ==> all@[j] == u@[j],
            decreases 64 - i,
        {
            all[i] = u[i];
            i += 1;
        }
        assert(all@ =~= u@);
        proof {
            lemma_bytes_of_from_bytes(u@);
        }
        Ok(Block512::from(all))
    }
}

impl<'a> vstd::std_specs::convert::TryFromSpecImpl<&'a [u8]> for Block512 {
    open spec fn obeys_try_from_spec() -> bool {
        true
    }

    open spec fn try_from_spec(u: &'a [u8]) -> Result<Block512, LengthMismatch> {
        wide_of_slice(u@)
    }
}

impl From<Block512> for [u32; 16] {
    fn from(m: Block512) -> (r: [u32; 16])
        ensures
            r@ == m.lanes32(),
    {
        let mut out = [0u32;16];
        let mut j: usize = 0;
        while j < 4
            invariant
                j <= 4,
                forall|i: int| 0 <= i < 4 * j ==> out@[i] == m.lanes32()[i],
            decreases 4 - j,
        {
            let lanes: [u32; 4] = m.0[j].into();
            out[4 * j] = lanes[0];
            out[4 * j + 1] = lanes[1];
            out[4 * j + 2] = lanes[2];
            out[4 * j + 3] = lanes[3];
            j += 1;
        }
        assert(out@ =~= m.lanes32());
        out
    }
}

impl vstd::std_specs::convert::FromSpecImpl<Block512> for [u32; 16] {
    open spec fn obeys_from_spec() -> bool {
        true
    }

    open spec fn from_spec(m: Block512) -> [u32; 16] {
        choose|r: [u32; 16]| r@ == m.lanes32()
    }
}

impl<'a> From<&'a Block512> for &'a [Block; 4] {
    fn from(m: &'a Block512) -> (r: &'a [Block; 4])
        ensures
            r@ == m@,
    {
        assert(m.0 =~= [m@[0], m@[1], m@[2], m@[3]]);
        &m.0
    }
}

impl<'a> vstd::std_specs::convert::FromSpecImpl<&'a Block512> for &'a [Block; 4] {
    open spec fn obeys_from_spec() -> bool {
        true
    }

    open spec fn from_spec(m: &'a Block512) -> &'a [Block; 4] {
        &[m@[0], m@[1], m@[2], m@[3]]
    }
}

} // verus!
