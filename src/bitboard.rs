//! A set of squares packed in a 64-bit word.

use vstd::prelude::*;

use crate::color::Color;
use crate::square::{File, Rank, Square, abs, file_of, group_index, rank_of};

verus! {

broadcast use group_index;

/// Whether bit `i` of `x` is set.
pub open spec fn bit(x: u64, i: u64) -> bool {
    (x >> i) & 1u64 == 1u64
}

/// The number of set bits of `x` below position `n`.
pub open spec fn pop_upto(x: u64, n: nat) -> nat
    decreases n,
{
    if n == 0 {
        0
    } else {
        pop_upto(x, (n - 1) as nat) + if bit(x, (n - 1) as u64) {
            1nat
        } else {
            0nat
        }
    }
}

/// Bit `i` of `a & b`, `a | b`, `a ^ b` and `!a`, from the bits of `a` and `b`.
pub broadcast proof fn lemma_bit_ops(a: u64, b: u64, i: u64)
    by (bit_vector)
    requires
        i < 64,
    ensures
        #[trigger] bit(a & b, i) == (bit(a, i) && bit(b, i)),
        #[trigger] bit(a | b, i) == (bit(a, i) || bit(b, i)),
        #[trigger] bit(a ^ b, i) == (bit(a, i) != bit(b, i)),
{
}

/// Bit `i` of `!a` is the negation of bit `i` of `a`.
pub broadcast proof fn lemma_bit_not(a: u64, i: u64)
    by (bit_vector)
    requires
        i < 64,
    ensures
        #[trigger] bit(!a, i) == !bit(a, i),
{
}

/// The word `1 << s` has bit `s` alone.
pub broadcast proof fn lemma_bit_one(s: u64, i: u64)
    by (bit_vector)
    requires
        s < 64,
        i < 64,
    ensures
        #[trigger] bit(1u64 << s, i) == (s == i),
{
}

/// Zero has no bit set.
pub broadcast proof fn lemma_bit_zero(i: u64)
    by (bit_vector)
    ensures
        !#[trigger] bit(0u64, i),
{
}

/// The bit facts of the bitwise operators.
pub broadcast group group_bits {
    lemma_bit_ops,
    lemma_bit_not,
    lemma_bit_one,
    lemma_bit_zero,
}

/// Two words with the same 64 bits are equal.
pub proof fn lemma_bits_ext(a: u64, b: u64)
    requires
        forall|i: u64| i < 64 ==> #[trigger] bit(a, i) == bit(b, i),
    ensures
        a == b,
{
    lemma_bits_ext_all(a, b);
}

proof fn lemma_bits_ext_all(a: u64, b: u64)
    by (bit_vector)
    requires
            bit(a, 0u64) == bit(b, 0u64),
            bit(a, 1u64) == bit(b, 1u64),
            bit(a, 2u64) == bit(b, 2u64),
            bit(a, 3u64) == bit(b, 3u64),
            bit(a, 4u64) == bit(b, 4u64),
            bit(a, 5u64) == bit(b, 5u64),
            bit(a, 6u64) == bit(b, 6u64),
            bit(a, 7u64) == bit(b, 7u64),
            bit(a, 8u64) == bit(b, 8u64),
            bit(a, 9u64) == bit(b, 9u64),
            bit(a, 10u64) == bit(b, 10u64),
            bit(a, 11u64) == bit(b, 11u64),
            bit(a, 12u64) == bit(b, 12u64),
            bit(a, 13u64) == bit(b, 13u64),
            bit(a, 14u64) == bit(b, 14u64),
            bit(a, 15u64) == bit(b, 15u64),
            bit(a, 16u64) == bit(b, 16u64),
            bit(a, 17u64) == bit(b, 17u64),
            bit(a, 18u64) == bit(b, 18u64),
            bit(a, 19u64) == bit(b, 19u64),
            bit(a, 20u64) == bit(b, 20u64),
            bit(a, 21u64) == bit(b, 21u64),
            bit(a, 22u64) == bit(b, 22u64),
            bit(a, 23u64) == bit(b, 23u64),
            bit(a, 24u64) == bit(b, 24u64),
            bit(a, 25u64) == bit(b, 25u64),
            bit(a, 26u64) == bit(b, 26u64),
            bit(a, 27u64) == bit(b, 27u64),
            bit(a, 28u64) == bit(b, 28u64),
            bit(a, 29u64) == bit(b, 29u64),
            bit(a, 30u64) == bit(b, 30u64),
            bit(a, 31u64) == bit(b, 31u64),
            bit(a, 32u64) == bit(b, 32u64),
            bit(a, 33u64) == bit(b, 33u64),
            bit(a, 34u64) == bit(b, 34u64),
            bit(a, 35u64) == bit(b, 35u64),
            bit(a, 36u64) == bit(b, 36u64),
            bit(a, 37u64) == bit(b, 37u64),
            bit(a, 38u64) == bit(b, 38u64),
            bit(a, 39u64) == bit(b, 39u64),
            bit(a, 40u64) == bit(b, 40u64),
            bit(a, 41u64) == bit(b, 41u64),
            bit(a, 42u64) == bit(b, 42u64),
            bit(a, 43u64) == bit(b, 43u64),
            bit(a, 44u64) == bit(b, 44u64),
            bit(a, 45u64) == bit(b, 45u64),
            bit(a, 46u64) == bit(b, 46u64),
            bit(a, 47u64) == bit(b, 47u64),
            bit(a, 48u64) == bit(b, 48u64),
            bit(a, 49u64) == bit(b, 49u64),
            bit(a, 50u64) == bit(b, 50u64),
            bit(a, 51u64) == bit(b, 51u64),
            bit(a, 52u64) == bit(b, 52u64),
            bit(a, 53u64) == bit(b, 53u64),
            bit(a, 54u64) == bit(b, 54u64),
            bit(a, 55u64) == bit(b, 55u64),
            bit(a, 56u64) == bit(b, 56u64),
            bit(a, 57u64) == bit(b, 57u64),
            bit(a, 58u64) == bit(b, 58u64),
            bit(a, 59u64) == bit(b, 59u64),
            bit(a, 60u64) == bit(b, 60u64),
            bit(a, 61u64) == bit(b, 61u64),
            bit(a, 62u64) == bit(b, 62u64),
            bit(a, 63u64) == bit(b, 63u64),
    ensures
        a == b,
{
}

/// The word `1 << s` has one set bit below `n` when `s < n`, and none otherwise.
pub proof fn lemma_pop_upto_one(s: u64, n: nat)
    requires
        s < 64,
        n <= 64,
    ensures
        pop_upto(1u64 << s, n) == if s < n {
            1nat
        } else {
            0nat
        },
    decreases n,
{
    broadcast use group_bits;

    if n > 0 {
        lemma_pop_upto_one(s, (n - 1) as nat);
    }
}

/// A set of squares: bit `i` of the word is set when the square of index `i` is a member.
#[derive(Copy, Clone, Debug, Hash, PartialEq, Eq, Structural)]
pub struct Bitboard(pub u64);

/// The squares of file A.
pub const FILE_A: u64 = 0x0101_0101_0101_0101;

/// The squares of rank 1.
pub const RANK_1: u64 = 0xFF;

impl Bitboard {
    /// Returns the empty set.
    pub fn empty() -> (r: Bitboard)
        ensures
            r.0 == 0,
    {
        Bitboard(0)
    }

    /// Returns the set of all squares.
    pub fn full() -> (r: Bitboard)
        ensures
            r.0 == 0xFFFF_FFFF_FFFF_FFFFu64,
    {
        Bitboard(0xFFFF_FFFF_FFFF_FFFF)
    }

    /// Whether the square of index `i` is a member.
    pub open spec fn has(self, i: int) -> bool {
        0 <= i < 64 && bit(self.0, i as u64)
    }

    /// The number of members.
    pub open spec fn count(self) -> nat {
        pop_upto(self.0, 64)
    }

    /// Returns the set whose one member is `square`.
    pub fn from_square(square: Square) -> (r: Bitboard)
        ensures
            r.0 == 1u64 << (square.idx() as u64),
            forall|i: int| #[trigger] r.has(i) <==> i == square.idx(),
    {
        proof {
            lemma_from_square(square);
        }
        Bitboard(1u64 << square.index())
    }

    /// Returns whether `square` is a member of `self`.
    pub fn contains(self, square: Square) -> (r: bool)
        ensures
            r == self.has(square.idx()),
    {
        (self.0 >> square.index()) & 1 == 1
    }

    /// Returns whether every member of `bits` is a member of `self`.
    pub fn contains_all(self, bits: Bitboard) -> (r: bool)
        ensures
            r == (self.0 & bits.0 == bits.0),
            r == (forall|i: int| bits.has(i) ==> #[trigger] self.has(i)),
    {
        let r = self.0 & bits.0 == bits.0;
        proof {
            let (a, b) = (self.0, bits.0);
            if r {
                assert forall|i: int| bits.has(i) implies #[trigger] self.has(i) by {
                    lemma_bit_ops(a, b, i as u64);
                }
            } else {
                let d = b & !a;
                assert(d != 0) by (bit_vector)
                    requires
                        d == b & !a,
                        a & b != b,
                ;
                vstd::std_specs::bits::axiom_u64_trailing_zeros(d);
                let i = vstd::std_specs::bits::u64_trailing_zeros(d) as u64;
                lemma_bit_ops(b, !a, i);
                lemma_bit_not(a, i);
                assert(bits.has(i as int) && !self.has(i as int));
            }
        }
        r
    }

    /// Returns whether `self` has no member.
    pub fn is_empty(self) -> (r: bool)
        ensures
            r == (self.0 == 0),
    {
        self.0 == 0
    }

    /// Returns the number of members of `self`.
    pub fn len(self) -> (r: usize)
        ensures
            r == self.count(),
    {
        let mut n: usize = 0;
        let mut i: u64 = 0;
        while i < 64
            invariant
                i <= 64,
                n == pop_upto(self.0, i as nat),
                n <= i,
            decreases 64 - i,
        {
            if (self.0 >> i) & 1 == 1 {
                n = n + 1;
            }
            i = i + 1;
        }
        n
    }

    /// Returns the union of `self` and `other`.
    pub fn union(self, other: Bitboard) -> (r: Bitboard)
        ensures
            r.0 == self.0 | other.0,
            forall|i: int| #[trigger] r.has(i) <==> self.has(i) || other.has(i),
    {
        let r = Bitboard(self.0 | other.0);
        proof {
            assert forall|i: int| #[trigger] r.has(i) <==> self.has(i) || other.has(i) by {
                if 0 <= i < 64 {
                    lemma_bit_ops(self.0, other.0, i as u64);
                    lemma_bit_not(other.0, i as u64);
                    lemma_bit_not(self.0, i as u64);
                }
            }
        }
        r
    }

    /// Returns the intersection of `self` and `other`.
    pub fn intersection(self, other: Bitboard) -> (r: Bitboard)
        ensures
            r.0 == self.0 & other.0,
            forall|i: int| #[trigger] r.has(i) <==> self.has(i) && other.has(i),
    {
        let r = Bitboard(self.0 & other.0);
        proof {
            assert forall|i: int| #[trigger] r.has(i) <==> self.has(i) && other.has(i) by {
                if 0 <= i < 64 {
                    lemma_bit_ops(self.0, other.0, i as u64);
                    lemma_bit_not(other.0, i as u64);
                    lemma_bit_not(self.0, i as u64);
                }
            }
        }
        r
    }

    /// Returns the members of `self` that are not members of `other`.
    pub fn difference(self, other: Bitboard) -> (r: Bitboard)
        ensures
            r.0 == self.0 & !other.0,
            forall|i: int| #[trigger] r.has(i) <==> self.has(i) && !other.has(i),
    {
        let r = Bitboard(self.0 & !other.0);
        proof {
            assert forall|i: int| #[trigger] r.has(i) <==> self.has(i) && !other.has(i) by {
                if 0 <= i < 64 {
                    lemma_bit_ops(self.0, !other.0, i as u64);
                    lemma_bit_not(other.0, i as u64);
                    lemma_bit_not(self.0, i as u64);
                }
            }
        }
        r
    }

    /// Returns the members of exactly one of `self` and `other`.
    pub fn symmetric_difference(self, other: Bitboard) -> (r: Bitboard)
        ensures
            r.0 == self.0 ^ other.0,
            forall|i: int| #[trigger] r.has(i) <==> self.has(i) != other.has(i),
    {
        let r = Bitboard(self.0 ^ other.0);
        proof {
            assert forall|i: int| #[trigger] r.has(i) <==> self.has(i) != other.has(i) by {
                if 0 <= i < 64 {
                    lemma_bit_ops(self.0, other.0, i as u64);
                    lemma_bit_not(other.0, i as u64);
                    lemma_bit_not(self.0, i as u64);
                }
            }
        }
        r
    }

    /// Returns the complement of `self` within the 64 squares.
    pub fn complement(self) -> (r: Bitboard)
        ensures
            r.0 == !self.0,
            forall|i: int| #[trigger] r.has(i) <==> 0 <= i < 64 && !self.has(i),
    {
        let r = Bitboard(!self.0);
        proof {
            assert forall|i: int| #[trigger] r.has(i) <==> 0 <= i < 64 && !self.has(i) by {
                if 0 <= i < 64 {
                    lemma_bit_not(self.0, i as u64);
                }
            }
        }
        r
    }

    /// Returns `self` with every bit moved `n` places up; bits past the top
    /// are lost, so a shift by 64 or more gives the empty set.
    pub fn shl(self, n: u32) -> (r: Bitboard)
        ensures
            n < 64 ==> r.0 == self.0 << n,
            n >= 64 ==> r.0 == 0,
    {
        if n < 64 {
            Bitboard(self.0 << n)
        } else {
            Bitboard(0)
        }
    }

    /// Returns `self` with every bit moved `n` places down; bits past the
    /// bottom are lost, so a shift by 64 or more gives the empty set.
    pub fn shr(self, n: u32) -> (r: Bitboard)
        ensures
            n < 64 ==> r.0 == self.0 >> n,
            n >= 64 ==> r.0 == 0,
    {
        if n < 64 {
            Bitboard(self.0 >> n)
        } else {
            Bitboard(0)
        }
    }

    /// Returns the member of `self` with the lowest index, or `None` if `self` is empty.
    pub fn lsb(self) -> (r: Option<Square>)
        ensures
            r.is_none() <==> self.0 == 0,
            r matches Some(s) ==> self.has(s.idx()) && forall|j: int|
                0 <= j < s.idx() ==> !#[trigger] self.has(j),
    {
        if self.0 == 0 {
            None
        } else {
            Some(self.lsb_unchecked())
        }
    }

    /// Returns the member of `self` with the lowest index; `self` must not be empty.
    pub fn lsb_unchecked(self) -> (r: Square)
        requires
            self.0 != 0,
        ensures
            self.has(r.idx()),
            forall|j: int| 0 <= j < r.idx() ==> !#[trigger] self.has(j),
    {
        broadcast use vstd::std_specs::bits::axiom_u64_trailing_zeros;

        let tz = self.0.trailing_zeros();
        let s = Square::from_index(tz as u8);
        assert forall|j: int| 0 <= j < s.idx() implies !#[trigger] self.has(j) by {
            assert((self.0 >> (j as u64)) & 1u64 == 0u64);
        }
        s
    }
}

/// For every square `s`, the set `Bitboard::from(s)`, whose word is
/// `1 << s`, has a population count of one and `s` as its only member.
pub proof fn lemma_from_square(s: Square)
    ensures
        Bitboard(1u64 << (s.idx() as u64)).count() == 1,
        forall|i: int| #[trigger] Bitboard(1u64 << (s.idx() as u64)).has(i) <==> i == s.idx(),
{
    broadcast use group_bits;

    lemma_pop_upto_one(s.idx() as u64, 64);
    assert forall|i: int| #[trigger] Bitboard(1u64 << (s.idx() as u64)).has(i) <==> i == s.idx() by {
        if 0 <= i < 64 {
            lemma_bit_one(s.idx() as u64, i as u64);
        }
    }
}

/// The bits of file `f`: bit `i` is set when square `i` is on file `f`.
pub proof fn lemma_file_bits(f: u64, i: u64)
    by (bit_vector)
    requires
        f < 8,
        i < 64,
    ensures
        bit(FILE_A << f, i) == (i % 8 == f),
{
}

/// The bits of rank `r`: bit `i` is set when square `i` is on rank `r`.
pub proof fn lemma_rank_bits(r: u64, i: u64)
    by (bit_vector)
    requires
        r < 8,
        i < 64,
    ensures
        bit(RANK_1 << (r * 8), i) == (i / 8 == r),
{
}

/// The bits of the home half of white (ranks 1 to 4) and of black (ranks 5 to 8).
pub proof fn lemma_half_bits(i: u64)
    by (bit_vector)
    requires
        i < 64,
    ensures
        bit(0x0000_0000_FFFF_FFFFu64, i) == (i < 32),
        bit(0xFFFF_FFFF_0000_0000u64, i) == (i >= 32),
{
}

impl Bitboard {
    /// Returns the squares of `file`.
    pub fn from_file(file: File) -> (r: Bitboard)
        ensures
            r.0 == FILE_A << (file.idx() as u64),
            forall|i: int| #[trigger] r.has(i) <==> 0 <= i < 64 && file_of(i) == file.idx(),
    {
        let r = Bitboard(FILE_A << file.index());
        assert forall|i: int| #[trigger] r.has(i) <==> 0 <= i < 64 && file_of(i) == file.idx() by {
            if 0 <= i < 64 {
                lemma_file_bits(file.idx() as u64, i as u64);
            }
        }
        r
    }

    /// Returns the squares of `rank`.
    pub fn from_rank(rank: Rank) -> (r: Bitboard)
        ensures
            r.0 == RANK_1 << ((rank.idx() * 8) as u64),
            forall|i: int| #[trigger] r.has(i) <==> 0 <= i < 64 && rank_of(i) == rank.idx(),
    {
        let r = Bitboard(RANK_1 << (rank.index() * 8));
        assert forall|i: int| #[trigger] r.has(i) <==> 0 <= i < 64 && rank_of(i) == rank.idx() by {
            if 0 <= i < 64 {
                lemma_rank_bits(rank.idx() as u64, i as u64);
            }
        }
        r
    }

    /// Returns the home half of the board of `color`: ranks 1 to 4 for white,
    /// 5 to 8 for black.
    pub fn from_color(color: Color) -> (r: Bitboard)
        ensures
            r.0 == if color == Color::White {
                0x0000_0000_FFFF_FFFFu64
            } else {
                0xFFFF_FFFF_0000_0000u64
            },
            forall|i: int| #[trigger]
                r.has(i) <==> 0 <= i < 64 && if color == Color::White {
                    rank_of(i) < 4
                } else {
                    rank_of(i) >= 4
                },
    {
        let r = match color {
            Color::White => Bitboard(0x0000_0000_FFFF_FFFF),
            Color::Black => Bitboard(0xFFFF_FFFF_0000_0000),
        };
        assert forall|i: int| #[trigger]
            r.has(i) <==> 0 <= i < 64 && if color == Color::White {
                rank_of(i) < 4
            } else {
                rank_of(i) >= 4
            } by {
            if 0 <= i < 64 {
                lemma_half_bits(i as u64);
            }
        }
        r
    }
}

impl File {
    /// Returns the squares of the files next to `self`, on its left and right.
    pub fn adjacent_mask(&self) -> (r: Bitboard)
        ensures
            forall|i: int| #[trigger] r.has(i) <==> 0 <= i < 64 && abs(file_of(i) - self.idx()) == 1,
    {
        let f = self.index();
        let left = if f > 0 {
            Bitboard::from_file(File::from_index(f - 1))
        } else {
            Bitboard(0)
        };
        let right = if f < 7 {
            Bitboard::from_file(File::from_index(f + 1))
        } else {
            Bitboard(0)
        };
        let r = left.union(right);
        assert forall|i: int| #[trigger]
            r.has(i) <==> 0 <= i < 64 && abs(file_of(i) - self.idx()) == 1 by {
            if 0 <= i < 64 {
                lemma_bit_zero(i as u64);
            }
        }
        r
    }
}

impl Rank {
    /// Returns the squares of the ranks next to `self`, ahead and behind.
    pub fn adjacent_mask(&self) -> (r: Bitboard)
        ensures
            forall|i: int| #[trigger] r.has(i) <==> 0 <= i < 64 && abs(rank_of(i) - self.idx()) == 1,
    {
        let k = self.index();
        let below = if k > 0 {
            Bitboard::from_rank(Rank::from_index(k - 1))
        } else {
            Bitboard(0)
        };
        let above = if k < 7 {
            Bitboard::from_rank(Rank::from_index(k + 1))
        } else {
            Bitboard(0)
        };
        let r = below.union(above);
        assert forall|i: int| #[trigger]
            r.has(i) <==> 0 <= i < 64 && abs(rank_of(i) - self.idx()) == 1 by {
            if 0 <= i < 64 {
                lemma_bit_zero(i as u64);
            }
        }
        r
    }
}

impl From<Square> for Bitboard {
    fn from(square: Square) -> (r: Bitboard) {
        Bitboard::from_square(square)
    }
}

impl vstd::std_specs::convert::FromSpecImpl<Square> for Bitboard {
    open spec fn obeys_from_spec() -> bool {
        true
    }

    open spec fn from_spec(square: Square) -> Bitboard {
        Bitboard(1u64 << (square.idx() as u64))
    }
}

impl From<File> for Bitboard {
    fn from(file: File) -> (r: Bitboard) {
        Bitboard::from_file(file)
    }
}

impl vstd::std_specs::convert::FromSpecImpl<File> for Bitboard {
    open spec fn obeys_from_spec() -> bool {
        true
    }

    open spec fn from_spec(file: File) -> Bitboard {
        Bitboard(FILE_A << (file.idx() as u64))
    }
}

impl From<Rank> for Bitboard {
    fn from(rank: Rank) -> (r: Bitboard) {
        Bitboard::from_rank(rank)
    }
}

impl vstd::std_specs::convert::FromSpecImpl<Rank> for Bitboard {
    open spec fn obeys_from_spec() -> bool {
        true
    }

    open spec fn from_spec(rank: Rank) -> Bitboard {
        Bitboard(RANK_1 << ((rank.idx() * 8) as u64))
    }
}

impl From<Color> for Bitboard {
    fn from(color: Color) -> (r: Bitboard) {
        Bitboard::from_color(color)
    }
}

impl vstd::std_specs::convert::FromSpecImpl<Color> for Bitboard {
    open spec fn obeys_from_spec() -> bool {
        true
    }

    open spec fn from_spec(color: Color) -> Bitboard {
        match color {
            Color::White => Bitboard(0x0000_0000_FFFF_FFFF),
            Color::Black => Bitboard(0xFFFF_FFFF_0000_0000),
        }
    }
}

impl From<u64> for Bitboard {
    fn from(bits: u64) -> (r: Bitboard) {
        Bitboard(bits)
    }
}

impl vstd::std_specs::convert::FromSpecImpl<u64> for Bitboard {
    open spec fn obeys_from_spec() -> bool {
        true
    }

    open spec fn from_spec(bits: u64) -> Bitboard {
        Bitboard(bits)
    }
}

impl From<Bitboard> for u64 {
    fn from(bb: Bitboard) -> (r: u64) {
        bb.0
    }
}

impl vstd::std_specs::convert::FromSpecImpl<Bitboard> for u64 {
    open spec fn obeys_from_spec() -> bool {
        true
    }

    open spec fn from_spec(bb: Bitboard) -> u64 {
        bb.0
    }
}

} // verus!
