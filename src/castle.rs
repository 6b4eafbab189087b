//! Castling rights of the two players.
//!
//! A king may castle with a rook while neither has moved. The four rights
//! (white or black, king side or queen side) are kept as a set of four bits.

use vstd::prelude::*;
use vstd::string::*;

use crate::bitboard::Bitboard;
use crate::color::Color;

verus! {

/// The squares between king and rook for white's king-side castle: F1 and G1.
pub const PATH_WHITE_KINGSIDE: u64 = 0x60;

/// The squares between king and rook for white's queen-side castle: B1, C1 and D1.
pub const PATH_WHITE_QUEENSIDE: u64 = 0x0E;

/// The squares between king and rook for black's king-side castle: F8 and G8.
pub const PATH_BLACK_KINGSIDE: u64 = 0x6000_0000_0000_0000;

/// The squares between king and rook for black's queen-side castle: B8, C8 and D8.
pub const PATH_BLACK_QUEENSIDE: u64 = 0x0E00_0000_0000_0000;

/// A side of the board to castle on.
#[derive(Copy, Clone, Debug, Hash, PartialEq, Eq, Structural)]
pub enum CastleSide {
    /// King side (O-O).
    King,
    /// Queen side (O-O-O).
    Queen,
}

/// One castling right.
#[derive(Copy, Clone, Debug, Hash, PartialEq, Eq, Structural)]
pub enum CastleRight {
    /// White king side: E1 to G1.
    WhiteKingside,
    /// White queen side: E1 to C1.
    WhiteQueenside,
    /// Black king side: E8 to G8.
    BlackKingside,
    /// Black queen side: E8 to C8.
    BlackQueenside,
}

impl CastleSide {
    /// Returns the other side.
    pub fn not(self) -> (r: CastleSide)
        ensures
            r != self,
    {
        match self {
            CastleSide::King => CastleSide::Queen,
            CastleSide::Queen => CastleSide::King,
        }
    }
}

impl CastleRight {
    /// The bit of the right in a set of rights: `color * 2 + side`.
    pub open spec fn idx(self) -> u8 {
        match self {
            CastleRight::WhiteKingside => 0,
            CastleRight::WhiteQueenside => 1,
            CastleRight::BlackKingside => 2,
            CastleRight::BlackQueenside => 3,
        }
    }

    /// The color of the right.
    pub open spec fn spec_color(self) -> Color {
        match self {
            CastleRight::WhiteKingside | CastleRight::WhiteQueenside => Color::White,
            _ => Color::Black,
        }
    }

    /// The side of the right.
    pub open spec fn spec_side(self) -> CastleSide {
        match self {
            CastleRight::WhiteKingside | CastleRight::BlackKingside => CastleSide::King,
            _ => CastleSide::Queen,
        }
    }

    /// The letter of the right: `K`, `Q`, `k` or `q`.
    pub open spec fn spec_char(self) -> char {
        match self {
            CastleRight::WhiteKingside => 'K',
            CastleRight::WhiteQueenside => 'Q',
            CastleRight::BlackKingside => 'k',
            CastleRight::BlackQueenside => 'q',
        }
    }

    /// The squares between the king and the rook of the right.
    pub open spec fn spec_path(self) -> u64 {
        match self {
            CastleRight::WhiteKingside => PATH_WHITE_KINGSIDE,
            CastleRight::WhiteQueenside => PATH_WHITE_QUEENSIDE,
            CastleRight::BlackKingside => PATH_BLACK_KINGSIDE,
            CastleRight::BlackQueenside => PATH_BLACK_QUEENSIDE,
        }
    }

    /// Returns the right of `color` on `side`.
    pub fn new(color: Color, side: CastleSide) -> (r: CastleRight)
        ensures
            r.spec_color() == color,
            r.spec_side() == side,
    {
        match (color, side) {
            (Color::White, CastleSide::King) => CastleRight::WhiteKingside,
            (Color::White, CastleSide::Queen) => CastleRight::WhiteQueenside,
            (Color::Black, CastleSide::King) => CastleRight::BlackKingside,
            (Color::Black, CastleSide::Queen) => CastleRight::BlackQueenside,
        }
    }

    /// Returns the right whose letter is `ch`; the case matters.
    pub fn from_char(ch: char) -> (r: Option<CastleRight>)
        ensures
            r matches Some(right) ==> right.spec_char() == ch,
            r.is_none() ==> forall|right: CastleRight| #[trigger] right.spec_char() != ch,
    {
        match ch {
            'K' => Some(CastleRight::WhiteKingside),
            'Q' => Some(CastleRight::WhiteQueenside),
            'k' => Some(CastleRight::BlackKingside),
            'q' => Some(CastleRight::BlackQueenside),
            _ => None,
        }
    }

    /// Returns the letter of `self`.
    pub fn into_char(self) -> (r: char)
        ensures
            r == self.spec_char(),
    {
        match self {
            CastleRight::WhiteKingside => 'K',
            CastleRight::WhiteQueenside => 'Q',
            CastleRight::BlackKingside => 'k',
            CastleRight::BlackQueenside => 'q',
        }
    }

    /// Returns the squares between the king and the rook of `self`.
    pub fn path(self) -> (r: Bitboard)
        ensures
            r.0 == self.spec_path(),
    {
        match self {
            CastleRight::WhiteKingside => Bitboard(PATH_WHITE_KINGSIDE),
            CastleRight::WhiteQueenside => Bitboard(PATH_WHITE_QUEENSIDE),
            CastleRight::BlackKingside => Bitboard(PATH_BLACK_KINGSIDE),
            CastleRight::BlackQueenside => Bitboard(PATH_BLACK_QUEENSIDE),
        }
    }

    /// Returns the color of `self`.
    pub fn color(self) -> (r: Color)
        ensures
            r == self.spec_color(),
    {
        match self {
            CastleRight::WhiteKingside | CastleRight::WhiteQueenside => Color::White,
            _ => Color::Black,
        }
    }

    /// Returns the side of `self`.
    pub fn side(self) -> (r: CastleSide)
        ensures
            r == self.spec_side(),
    {
        match self {
            CastleRight::WhiteKingside | CastleRight::BlackKingside => CastleSide::King,
            _ => CastleSide::Queen,
        }
    }

    /// Returns the bit of `self` in a set of rights.
    pub fn index(self) -> (r: u8)
        ensures
            r == self.idx(),
    {
        match self {
            CastleRight::WhiteKingside => 0,
            CastleRight::WhiteQueenside => 1,
            CastleRight::BlackKingside => 2,
            CastleRight::BlackQueenside => 3,
        }
    }
}

/// The letter of the right of bit `i`.
pub open spec fn right_char(i: u8) -> char {
    if i == 0 {
        'K'
    } else if i == 1 {
        'Q'
    } else if i == 2 {
        'k'
    } else {
        'q'
    }
}

/// The bit of the right whose letter is `c`, if any.
pub open spec fn char_bit(c: char) -> Option<u8> {
    if c == 'K' {
        Some(1u8)
    } else if c == 'Q' {
        Some(2u8)
    } else if c == 'k' {
        Some(4u8)
    } else if c == 'q' {
        Some(8u8)
    } else {
        None
    }
}

/// The letter of bit `i` of `bits` if that bit is set, else nothing.
pub open spec fn right_part(bits: u8, i: u8) -> Seq<char> {
    if (bits >> i) & 1 == 1 {
        seq![right_char(i)]
    } else {
        seq![]
    }
}

/// The text of a set of rights: `-` when empty, else the letters of its
/// rights in the order `K`, `Q`, `k`, `q`.
pub open spec fn rights_text(bits: u8) -> Seq<char> {
    if bits == 0 {
        seq!['-']
    } else {
        right_part(bits, 0) + right_part(bits, 1) + right_part(bits, 2) + right_part(bits, 3)
    }
}

/// The set of the rights named by the letters of `s`, or `None` if a
/// character of `s` names none.
pub open spec fn letters_bits(s: Seq<char>) -> Option<u8>
    decreases s.len(),
{
    if s.len() == 0 {
        Some(0u8)
    } else {
        match (letters_bits(s.drop_last()), char_bit(s.last())) {
            (Some(a), Some(b)) => Some(a | b),
            _ => None,
        }
    }
}

/// The set of rights that the text `s` gives: none for `-`, else those of its letters.
pub open spec fn parse_rights(s: Seq<char>) -> Option<u8> {
    if s == seq!['-'] {
        Some(0u8)
    } else {
        letters_bits(s)
    }
}

/// The error returned when a text does not give a set of castling rights.
#[derive(Copy, Clone, Debug, PartialEq, Eq, Structural)]
pub struct FromStrError;

/// A set of castling rights.
#[derive(Copy, Clone, Debug, Hash, PartialEq, Eq, Structural)]
pub struct CastleRights(u8);

impl CastleRights {
    #[verifier::type_invariant]
    spec fn inv(self) -> bool {
        self.0 < 16
    }

    /// The bits of the set: bit `i` holds the right of index `i`.
    pub closed spec fn bits(self) -> u8 {
        self.0
    }

    /// Whether `right` is in the set.
    pub open spec fn has(self, right: CastleRight) -> bool {
        (self.bits() >> right.idx()) & 1 == 1
    }

    /// Returns the bits of `self`.
    pub fn to_bits(self) -> (r: u8)
        ensures
            r == self.bits(),
            r < 16,
    {
        proof {
            use_type_invariant(&self);
        }
        self.0
    }

    /// Returns the set of the rights whose bits are set in `bits`; higher bits are ignored.
    pub fn from_bits(bits: u8) -> (r: CastleRights)
        ensures
            r.bits() == bits & 15,
    {
        proof {
            assert(bits & 15 < 16) by (bit_vector);
        }
        CastleRights(bits & 15)
    }

    /// Returns the empty set.
    pub fn empty() -> (r: CastleRights)
        ensures
            r.bits() == 0,
    {
        CastleRights(0)
    }

    /// Returns the set of all four rights.
    pub fn full() -> (r: CastleRights)
        ensures
            r.bits() == 15,
    {
        CastleRights(15)
    }

    /// Returns the set of the one right `right`.
    pub fn from_right(right: CastleRight) -> (r: CastleRights)
        ensures
            r.bits() == 1u8 << right.idx(),
    {
        let r = match right {
            CastleRight::WhiteKingside => CastleRights(1),
            CastleRight::WhiteQueenside => CastleRights(2),
            CastleRight::BlackKingside => CastleRights(4),
            CastleRight::BlackQueenside => CastleRights(8),
        };
        proof {
            assert(1u8 << 0u8 == 1 && 1u8 << 1u8 == 2 && 1u8 << 2u8 == 4 && 1u8 << 3u8 == 8)
                by (bit_vector);
        }
        r
    }

    /// Returns the two rights of `color`.
    pub fn from_color(color: Color) -> (r: CastleRights)
        ensures
            r.bits() == if color == Color::White {
                3u8
            } else {
                12u8
            },
    {
        match color {
            Color::White => CastleRights(3),
            Color::Black => CastleRights(12),
        }
    }

    /// Returns whether `self` holds no right.
    pub fn is_empty(self) -> (r: bool)
        ensures
            r == (self.bits() == 0),
    {
        self.0 == 0
    }

    /// Returns whether `self` holds `right`.
    pub fn contains(self, right: CastleRight) -> (r: bool)
        ensures
            r == self.has(right),
    {
        (self.0 >> right.index()) & 1 == 1
    }

    /// Returns the rights of `self` and of `other`.
    pub fn union(self, other: CastleRights) -> (r: CastleRights)
        ensures
            r.bits() == self.bits() | other.bits(),
    {
        proof {
            use_type_invariant(&self);
            use_type_invariant(&other);
            let (a, b) = (self.0, other.0);
            assert(a < 16 && b < 16 ==> a | b < 16) by (bit_vector);
        }
        CastleRights(self.0 | other.0)
    }

    /// Returns the rights of `self` that `other` lacks.
    pub fn difference(self, other: CastleRights) -> (r: CastleRights)
        ensures
            r.bits() == self.bits() & !other.bits(),
    {
        proof {
            use_type_invariant(&self);
            let (a, b) = (self.0, other.0);
            assert(a < 16 ==> a & !b < 16) by (bit_vector);
        }
        CastleRights(self.0 & !other.0)
    }

    /// Returns the entry of `table` that belongs to this exact set of rights.
    pub fn extract<'a, T>(&self, table: &'a [T; 16]) -> (r: &'a T)
        ensures
            *r == table@[self.bits() as int],
    {
        proof {
            use_type_invariant(self);
        }
        &table[self.0 as usize]
    }

    /// Returns the entry of `table` that belongs to this exact set of rights, to change it.
    pub fn extract_mut<'a, T>(&self, table: &'a mut [T; 16]) -> (r: &'a mut T)
        ensures
            *r == old(table)@[self.bits() as int],
            final(table)@ == old(table)@.update(self.bits() as int, *final(r)),
    {
        proof {
            use_type_invariant(self);
        }
        &mut table[self.0 as usize]
    }

    /// Returns the text of `self`: `-` when empty, else the letters of its
    /// rights in the order `K`, `Q`, `k`, `q`.
    pub fn to_string(&self) -> (r: String)
        ensures
            r@ == rights_text(self.bits()),
    {
        proof {
            use_type_invariant(self);
            reveal_strlit("-");
            reveal_strlit("K");
            reveal_strlit("Q");
            reveal_strlit("k");
            reveal_strlit("q");
        }
        let b = self.0;
        if b == 0 {
            return String::from_str("-");
        }
        let mut s = String::new();
        if b & 1 == 1 {
            s.append("K");
        }
        if (b >> 1) & 1 == 1 {
            s.append("Q");
        }
        if (b >> 2) & 1 == 1 {
            s.append("k");
        }
        if (b >> 3) & 1 == 1 {
            s.append("q");
        }
        proof {
            assert(b >> 0u8 == b) by (bit_vector);
            assert(s@ =~= rights_text(b));
        }
        s
    }

    /// Parses a set of rights: `-` for none, else letters among `K`, `Q`, `k`
    /// and `q`, each adding its right.
    pub fn parse(s: &str) -> (r: Result<CastleRights, FromStrError>)
        ensures
            r.is_ok() <==> parse_rights(s@).is_some(),
            r matches Ok(v) ==> v.bits() == parse_rights(s@).unwrap(),
    {
        let n = s.unicode_len();
        if n == 1 && s.get_char(0) == '-' {
            assert(s@ =~= seq!['-']);
            return Ok(CastleRights(0));
        }
        assert(s@ != seq!['-']) by {
            if s@ == seq!['-'] {
                assert(s@[0] == '-');
            }
        }
        let mut bits: u8 = 0;
        let mut i: usize = 0;
        while i < n
            invariant
                n == s@.len(),
                s@ != seq!['-'],
                i <= n,
                bits < 16,
                letters_bits(s@.take(i as int)) == Some(bits),
            decreases n - i,
        {
            let c = s.get_char(i);
            assert(s@.take(i + 1).drop_last() =~= s@.take(i as int));
            let b: u8 = match c {
                'K' => 1,
                'Q' => 2,
                'k' => 4,
                'q' => 8,
                _ => {
                    proof {
                        lemma_letters_bits_fail(s@, (i + 1) as int);
                        assert(s@.take(n as int) =~= s@);
                    }
                    return Err(FromStrError);
                },
            };
            proof {
                assert(bits < 16 && (b == 1 || b == 2 || b == 4 || b == 8) ==> bits | b < 16)
                    by (bit_vector);
            }
            bits = bits | b;
            i = i + 1;
        }
        assert(s@.take(n as int) =~= s@);
        Ok(CastleRights(bits))
    }
}

/// A text with a character that names no right gives no set of rights.
proof fn lemma_letters_bits_fail(s: Seq<char>, k: int)
    requires
        1 <= k <= s.len(),
        char_bit(s[k - 1]) is None,
    ensures
        letters_bits(s.take(k)) is None,
        forall|m: int| k <= m <= s.len() ==> letters_bits(#[trigger] s.take(m)) is None,
    decreases s.len() - k,
{
    assert(s.take(k).drop_last() =~= s.take(k - 1));
    assert forall|m: int| k <= m <= s.len() implies letters_bits(#[trigger] s.take(m)) is None by {
        lemma_letters_bits_fail_from(s, k, m);
    }
}

proof fn lemma_letters_bits_fail_from(s: Seq<char>, k: int, m: int)
    requires
        1 <= k <= m <= s.len(),
        char_bit(s[k - 1]) is None,
    ensures
        letters_bits(s.take(m)) is None,
    decreases m,
{
    assert(s.take(m).drop_last() =~= s.take(m - 1));
    if m > k {
        lemma_letters_bits_fail_from(s, k, m - 1);
    } else {
        assert(s.take(m).last() == s[k - 1]);
    }
}

/// The rights named by the letters of `a + b` are those of `a` and those of `b`.
proof fn lemma_letters_bits_concat(a: Seq<char>, b: Seq<char>, x: u8, y: u8)
    requires
        letters_bits(a) == Some(x),
        letters_bits(b) == Some(y),
    ensures
        letters_bits(a + b) == Some(x | y),
    decreases b.len(),
{
    if b.len() == 0 {
        assert(a + b =~= a);
        assert(x | 0u8 == x) by (bit_vector);
    } else {
        let b2 = b.drop_last();
        assert((a + b).drop_last() =~= a + b2);
        assert((a + b).last() == b.last());
        let y2 = letters_bits(b2).unwrap();
        let c = char_bit(b.last()).unwrap();
        lemma_letters_bits_concat(a, b2, x, y2);
        assert((x | y2) | c == x | (y2 | c)) by (bit_vector);
    }
}

proof fn lemma_right_part(bits: u8, i: u8)
    requires
        i < 4,
    ensures
        letters_bits(right_part(bits, i)) == Some(if (bits >> i) & 1 == 1 {
            (1u8 << i) as u8
        } else {
            0u8
        }),
{
    let p = right_part(bits, i);
    assert(letters_bits(Seq::<char>::empty()) == Some(0u8));
    if (bits >> i) & 1 == 1 {
        assert(p.drop_last() =~= Seq::<char>::empty());
        assert(p.last() == right_char(i));
        assert(1u8 << 0u8 == 1 && 1u8 << 1u8 == 2 && 1u8 << 2u8 == 4 && 1u8 << 3u8 == 8)
            by (bit_vector);
        assert(0u8 | 1u8 == 1 && 0u8 | 2u8 == 2 && 0u8 | 4u8 == 4 && 0u8 | 8u8 == 8)
            by (bit_vector);
    }
}

/// Round trip of the text of castling rights: the canonical text of any set
/// of rights (`-`, or some of `K`, `Q`, `k`, `q` in that order) parses back to
/// that set, and writing the parsed set out gives the same text again.
pub proof fn lemma_rights_text_round_trip(bits: u8)
    requires
        bits < 16,
    ensures
        parse_rights(rights_text(bits)) == Some(bits),
        rights_text(parse_rights(rights_text(bits)).unwrap()) == rights_text(bits),
{
    if bits != 0 {
        let (wk, wq, bk, bq) = (
            right_part(bits, 0),
            right_part(bits, 1),
            right_part(bits, 2),
            right_part(bits, 3),
        );
        lemma_right_part(bits, 0);
        lemma_right_part(bits, 1);
        lemma_right_part(bits, 2);
        lemma_right_part(bits, 3);
        let (xwk, xwq, xbk, xbq) = (
            letters_bits(wk).unwrap(),
            letters_bits(wq).unwrap(),
            letters_bits(bk).unwrap(),
            letters_bits(bq).unwrap(),
        );
        lemma_letters_bits_concat(wk, wq, xwk, xwq);
        lemma_letters_bits_concat(wk + wq, bk, xwk | xwq, xbk);
        lemma_letters_bits_concat(wk + wq + bk, bq, xwk | xwq | xbk, xbq);
        assert(bits < 16 ==> (if (bits >> 0u8) & 1 == 1 {
            (1u8 << 0u8) as u8
        } else {
            0u8
        }) | (if (bits >> 1u8) & 1 == 1 {
            (1u8 << 1u8) as u8
        } else {
            0u8
        }) | (if (bits >> 2u8) & 1 == 1 {
            (1u8 << 2u8) as u8
        } else {
            0u8
        }) | (if (bits >> 3u8) & 1 == 1 {
            (1u8 << 3u8) as u8
        } else {
            0u8
        }) == bits) by (bit_vector);
        let text = rights_text(bits);
        assert(text.len() >= 1 ==> text[0] != '-') by {
            if wk.len() > 0 {
                assert(text[0] == wk[0]);
            } else if wq.len() > 0 {
                assert(text[0] == wq[0]);
            } else if bk.len() > 0 {
                assert(text[0] == bk[0]);
            } else if bq.len() > 0 {
                assert(text[0] == bq[0]);
            }
        }
        assert(text != seq!['-']) by {
            if text == seq!['-'] {
                assert(text[0] == '-');
            }
        }
    }
}

impl core::str::FromStr for CastleRights {
    type Err = FromStrError;

    fn from_str(s: &str) -> Result<CastleRights, FromStrError> {
        CastleRights::parse(s)
    }
}

impl Default for CastleRights {
    fn default() -> (r: CastleRights)
        ensures
            r.bits() == 15,
    {
        CastleRights::full()
    }
}

} // verus!
