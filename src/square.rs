//! A chess board square and its components.
//!
//! A chess board is made of sixty-four squares, A1 through H8. Each square
//! has a file (a column, A through H) and a rank (a row, 1 through 8), and
//! its index is `rank * 8 + file`.

use vstd::prelude::*;
use vstd::string::*;

use crate::color::Color;
use crate::text::lower;

verus! {

/// A file (or column) of a chess board.
#[derive(Copy, Clone, Debug, Hash, PartialEq, Eq, Structural, PartialOrd, Ord)]
#[allow(missing_docs)]
pub enum File {
    A,
    B,
    C,
    D,
    E,
    F,
    G,
    H,
}

/// A rank (or row) of a chess board.
#[derive(Copy, Clone, Debug, Hash, PartialEq, Eq, Structural, PartialOrd, Ord)]
#[allow(missing_docs)]
pub enum Rank {
    One,
    Two,
    Three,
    Four,
    Five,
    Six,
    Seven,
    Eight,
}

impl File {
    /// The index of the file, from 0 (A) to 7 (H).
    pub open spec fn idx(self) -> int {
        match self {
            File::A => 0,
            File::B => 1,
            File::C => 2,
            File::D => 3,
            File::E => 4,
            File::F => 5,
            File::G => 6,
            File::H => 7,
        }
    }

    /// The file at index `i`, for `i < 8`.
    pub open spec fn from_idx(i: u8) -> File {
        match i {
            0 => File::A,
            1 => File::B,
            2 => File::C,
            3 => File::D,
            4 => File::E,
            5 => File::F,
            6 => File::G,
            _ => File::H,
        }
    }

    /// Returns the index of `self`.
    pub fn index(self) -> (r: u8)
        ensures
            r == self.idx(),
    {
        match self {
            File::A => 0,
            File::B => 1,
            File::C => 2,
            File::D => 3,
            File::E => 4,
            File::F => 5,
            File::G => 6,
            File::H => 7,
        }
    }

    /// Returns the file at index `i`.
    pub fn from_index(i: u8) -> (r: File)
        requires
            i < 8,
        ensures
            r.idx() == i,
            r == File::from_idx(i),
    {
        match i {
            0 => File::A,
            1 => File::B,
            2 => File::C,
            3 => File::D,
            4 => File::E,
            5 => File::F,
            6 => File::G,
            _ => File::H,
        }
    }
}

impl Rank {
    /// The index of the rank, from 0 (One) to 7 (Eight).
    pub open spec fn idx(self) -> int {
        match self {
            Rank::One => 0,
            Rank::Two => 1,
            Rank::Three => 2,
            Rank::Four => 3,
            Rank::Five => 4,
            Rank::Six => 5,
            Rank::Seven => 6,
            Rank::Eight => 7,
        }
    }

    /// The rank at index `i`, for `i < 8`.
    pub open spec fn from_idx(i: u8) -> Rank {
        match i {
            0 => Rank::One,
            1 => Rank::Two,
            2 => Rank::Three,
            3 => Rank::Four,
            4 => Rank::Five,
            5 => Rank::Six,
            6 => Rank::Seven,
            _ => Rank::Eight,
        }
    }

    /// Returns the index of `self`.
    pub fn index(self) -> (r: u8)
        ensures
            r == self.idx(),
    {
        match self {
            Rank::One => 0,
            Rank::Two => 1,
            Rank::Three => 2,
            Rank::Four => 3,
            Rank::Five => 4,
            Rank::Six => 5,
            Rank::Seven => 6,
            Rank::Eight => 7,
        }
    }

    /// Returns the rank at index `i`.
    pub fn from_index(i: u8) -> (r: Rank)
        requires
            i < 8,
        ensures
            r.idx() == i,
            r == Rank::from_idx(i),
    {
        match i {
            0 => Rank::One,
            1 => Rank::Two,
            2 => Rank::Three,
            3 => Rank::Four,
            4 => Rank::Five,
            5 => Rank::Six,
            6 => Rank::Seven,
            _ => Rank::Eight,
        }
    }
}

/// Every file index is in `0..8` and names its file.
pub broadcast proof fn lemma_file_idx(f: File)
    ensures
        0 <= #[trigger] f.idx() < 8,
        File::from_idx(f.idx() as u8) == f,
{
}

/// Every rank index is in `0..8` and names its rank.
pub broadcast proof fn lemma_rank_idx(r: Rank)
    ensures
        0 <= #[trigger] r.idx() < 8,
        Rank::from_idx(r.idx() as u8) == r,
{
}

/// Every square index is in `0..64` and names its square.
pub broadcast proof fn lemma_square_idx(s: Square)
    ensures
        0 <= #[trigger] s.idx() < 64,
        Square::from_idx(s.idx() as u8) == s,
{
}

/// The index of the file named by `i` is `i`.
pub broadcast proof fn lemma_file_from_idx(i: u8)
    requires
        i < 8,
    ensures
        #[trigger] File::from_idx(i).idx() == i,
{
}

/// The index of the rank named by `i` is `i`.
pub broadcast proof fn lemma_rank_from_idx(i: u8)
    requires
        i < 8,
    ensures
        #[trigger] Rank::from_idx(i).idx() == i,
{
}

/// The index of the square named by `i` is `i`.
pub broadcast proof fn lemma_square_from_idx(i: u8)
    requires
        i < 64,
    ensures
        #[trigger] Square::from_idx(i).idx() == i,
{
}

/// The index facts of files, ranks and squares.
pub broadcast group group_index {
    lemma_file_idx,
    lemma_rank_idx,
    lemma_square_idx,
    lemma_file_from_idx,
    lemma_rank_from_idx,
    lemma_square_from_idx,
}

/// A square on a chess board, from A1 (index 0) to H8 (index 63).
#[derive(Copy, Clone, Debug, Hash, PartialEq, Eq, Structural, PartialOrd, Ord)]
#[allow(missing_docs)]
pub enum Square {
    A1, B1, C1, D1, E1, F1, G1, H1,
    A2, B2, C2, D2, E2, F2, G2, H2,
    A3, B3, C3, D3, E3, F3, G3, H3,
    A4, B4, C4, D4, E4, F4, G4, H4,
    A5, B5, C5, D5, E5, F5, G5, H5,
    A6, B6, C6, D6, E6, F6, G6, H6,
    A7, B7, C7, D7, E7, F7, G7, H7,
    A8, B8, C8, D8, E8, F8, G8, H8,
}

impl Square {
    /// The index of the square: `rank * 8 + file`.
    pub open spec fn idx(self) -> int {
        match self {
            Square::A1 => 0,
            Square::B1 => 1,
            Square::C1 => 2,
            Square::D1 => 3,
            Square::E1 => 4,
            Square::F1 => 5,
            Square::G1 => 6,
            Square::H1 => 7,
            Square::A2 => 8,
            Square::B2 => 9,
            Square::C2 => 10,
            Square::D2 => 11,
            Square::E2 => 12,
            Square::F2 => 13,
            Square::G2 => 14,
            Square::H2 => 15,
            Square::A3 => 16,
            Square::B3 => 17,
            Square::C3 => 18,
            Square::D3 => 19,
            Square::E3 => 20,
            Square::F3 => 21,
            Square::G3 => 22,
            Square::H3 => 23,
            Square::A4 => 24,
            Square::B4 => 25,
            Square::C4 => 26,
            Square::D4 => 27,
            Square::E4 => 28,
            Square::F4 => 29,
            Square::G4 => 30,
            Square::H4 => 31,
            Square::A5 => 32,
            Square::B5 => 33,
            Square::C5 => 34,
            Square::D5 => 35,
            Square::E5 => 36,
            Square::F5 => 37,
            Square::G5 => 38,
            Square::H5 => 39,
            Square::A6 => 40,
            Square::B6 => 41,
            Square::C6 => 42,
            Square::D6 => 43,
            Square::E6 => 44,
            Square::F6 => 45,
            Square::G6 => 46,
            Square::H6 => 47,
            Square::A7 => 48,
            Square::B7 => 49,
            Square::C7 => 50,
            Square::D7 => 51,
            Square::E7 => 52,
            Square::F7 => 53,
            Square::G7 => 54,
            Square::H7 => 55,
            Square::A8 => 56,
            Square::B8 => 57,
            Square::C8 => 58,
            Square::D8 => 59,
            Square::E8 => 60,
            Square::F8 => 61,
            Square::G8 => 62,
            Square::H8 => 63,
        }
    }

    /// The square at index `i`, for `i < 64`.
    pub open spec fn from_idx(i: u8) -> Square {
        match i {
            0 => Square::A1,
            1 => Square::B1,
            2 => Square::C1,
            3 => Square::D1,
            4 => Square::E1,
            5 => Square::F1,
            6 => Square::G1,
            7 => Square::H1,
            8 => Square::A2,
            9 => Square::B2,
            10 => Square::C2,
            11 => Square::D2,
            12 => Square::E2,
            13 => Square::F2,
            14 => Square::G2,
            15 => Square::H2,
            16 => Square::A3,
            17 => Square::B3,
            18 => Square::C3,
            19 => Square::D3,
            20 => Square::E3,
            21 => Square::F3,
            22 => Square::G3,
            23 => Square::H3,
            24 => Square::A4,
            25 => Square::B4,
            26 => Square::C4,
            27 => Square::D4,
            28 => Square::E4,
            29 => Square::F4,
            30 => Square::G4,
            31 => Square::H4,
            32 => Square::A5,
            33 => Square::B5,
            34 => Square::C5,
            35 => Square::D5,
            36 => Square::E5,
            37 => Square::F5,
            38 => Square::G5,
            39 => Square::H5,
            40 => Square::A6,
            41 => Square::B6,
            42 => Square::C6,
            43 => Square::D6,
            44 => Square::E6,
            45 => Square::F6,
            46 => Square::G6,
            47 => Square::H6,
            48 => Square::A7,
            49 => Square::B7,
            50 => Square::C7,
            51 => Square::D7,
            52 => Square::E7,
            53 => Square::F7,
            54 => Square::G7,
            55 => Square::H7,
            56 => Square::A8,
            57 => Square::B8,
            58 => Square::C8,
            59 => Square::D8,
            60 => Square::E8,
            61 => Square::F8,
            62 => Square::G8,
            _ => Square::H8,
        }
    }

    /// Returns the index of `self`.
    pub fn index(self) -> (r: u8)
        ensures
            r == self.idx(),
    {
        match self {
            Square::A1 => 0,
            Square::B1 => 1,
            Square::C1 => 2,
            Square::D1 => 3,
            Square::E1 => 4,
            Square::F1 => 5,
            Square::G1 => 6,
            Square::H1 => 7,
            Square::A2 => 8,
            Square::B2 => 9,
            Square::C2 => 10,
            Square::D2 => 11,
            Square::E2 => 12,
            Square::F2 => 13,
            Square::G2 => 14,
            Square::H2 => 15,
            Square::A3 => 16,
            Square::B3 => 17,
            Square::C3 => 18,
            Square::D3 => 19,
            Square::E3 => 20,
            Square::F3 => 21,
            Square::G3 => 22,
            Square::H3 => 23,
            Square::A4 => 24,
            Square::B4 => 25,
            Square::C4 => 26,
            Square::D4 => 27,
            Square::E4 => 28,
            Square::F4 => 29,
            Square::G4 => 30,
            Square::H4 => 31,
            Square::A5 => 32,
            Square::B5 => 33,
            Square::C5 => 34,
            Square::D5 => 35,
            Square::E5 => 36,
            Square::F5 => 37,
            Square::G5 => 38,
            Square::H5 => 39,
            Square::A6 => 40,
            Square::B6 => 41,
            Square::C6 => 42,
            Square::D6 => 43,
            Square::E6 => 44,
            Square::F6 => 45,
            Square::G6 => 46,
            Square::H6 => 47,
            Square::A7 => 48,
            Square::B7 => 49,
            Square::C7 => 50,
            Square::D7 => 51,
            Square::E7 => 52,
            Square::F7 => 53,
            Square::G7 => 54,
            Square::H7 => 55,
            Square::A8 => 56,
            Square::B8 => 57,
            Square::C8 => 58,
            Square::D8 => 59,
            Square::E8 => 60,
            Square::F8 => 61,
            Square::G8 => 62,
            Square::H8 => 63,
        }
    }

    /// Returns the square at index `i`.
    pub fn from_index(i: u8) -> (r: Square)
        requires
            i < 64,
        ensures
            r.idx() == i,
            r == Square::from_idx(i),
    {
        match i {
            0 => Square::A1,
            1 => Square::B1,
            2 => Square::C1,
            3 => Square::D1,
            4 => Square::E1,
            5 => Square::F1,
            6 => Square::G1,
            7 => Square::H1,
            8 => Square::A2,
            9 => Square::B2,
            10 => Square::C2,
            11 => Square::D2,
            12 => Square::E2,
            13 => Square::F2,
            14 => Square::G2,
            15 => Square::H2,
            16 => Square::A3,
            17 => Square::B3,
            18 => Square::C3,
            19 => Square::D3,
            20 => Square::E3,
            21 => Square::F3,
            22 => Square::G3,
            23 => Square::H3,
            24 => Square::A4,
            25 => Square::B4,
            26 => Square::C4,
            27 => Square::D4,
            28 => Square::E4,
            29 => Square::F4,
            30 => Square::G4,
            31 => Square::H4,
            32 => Square::A5,
            33 => Square::B5,
            34 => Square::C5,
            35 => Square::D5,
            36 => Square::E5,
            37 => Square::F5,
            38 => Square::G5,
            39 => Square::H5,
            40 => Square::A6,
            41 => Square::B6,
            42 => Square::C6,
            43 => Square::D6,
            44 => Square::E6,
            45 => Square::F6,
            46 => Square::G6,
            47 => Square::H6,
            48 => Square::A7,
            49 => Square::B7,
            50 => Square::C7,
            51 => Square::D7,
            52 => Square::E7,
            53 => Square::F7,
            54 => Square::G7,
            55 => Square::H7,
            56 => Square::A8,
            57 => Square::B8,
            58 => Square::C8,
            59 => Square::D8,
            60 => Square::E8,
            61 => Square::F8,
            62 => Square::G8,
            _ => Square::H8,
        }
    }
}


/// The file index of the square of index `i`.
pub open spec fn file_of(i: int) -> int {
    i % 8
}

/// The rank index of the square of index `i`.
pub open spec fn rank_of(i: int) -> int {
    i / 8
}

/// Whether file `f` and rank `r` lie on the board.
pub open spec fn on_board(f: int, r: int) -> bool {
    0 <= f < 8 && 0 <= r < 8
}

/// The index of the square on file `f` and rank `r`.
pub open spec fn sq_at(f: int, r: int) -> int {
    r * 8 + f
}

/// The absolute value of `x`.
pub open spec fn abs(x: int) -> int {
    if x < 0 {
        -x
    } else {
        x
    }
}

/// The larger of `a` and `b`.
pub open spec fn max(a: int, b: int) -> int {
    if a < b {
        b
    } else {
        a
    }
}

/// The distance of a file or rank index from the two central ones (3 and 4).
pub open spec fn center_offset(x: int) -> int {
    if x <= 3 {
        3 - x
    } else {
        x - 4
    }
}

/// The triangular index of the unordered pair of square indices `a` and `b`.
pub open spec fn tri(a: int, b: int) -> int {
    let lo = if a < b {
        a
    } else {
        b
    };
    let hi = if a < b {
        b
    } else {
        a
    };
    (lo * (127 - lo)) / 2 + hi
}

/// Whether squares `a` and `b` are distinct and share a file, a rank or a diagonal.
pub open spec fn aligned(a: int, b: int) -> bool {
    let df = file_of(b) - file_of(a);
    let dr = rank_of(b) - rank_of(a);
    a != b && (df == 0 || dr == 0 || abs(df) == abs(dr))
}

/// Whether square `s` lies on the line through the aligned squares `a` and `b`.
pub open spec fn on_line(a: int, b: int, s: int) -> bool {
    aligned(a, b) && 0 <= s < 64 && (file_of(s) - file_of(a)) * (rank_of(b) - rank_of(a)) == (
    rank_of(s) - rank_of(a)) * (file_of(b) - file_of(a))
}

/// Whether square `s` lies strictly between the aligned squares `a` and `b`.
pub open spec fn strictly_between(a: int, b: int, s: int) -> bool {
    on_line(a, b, s) && s != a && s != b && (file_of(a) <= file_of(s) <= file_of(b) || file_of(b)
        <= file_of(s) <= file_of(a)) && (rank_of(a) <= rank_of(s) <= rank_of(b) || rank_of(b)
        <= rank_of(s) <= rank_of(a))
}

impl File {
    /// Returns the file of the letter `ch`, `a` to `h` in either case.
    pub fn from_char(ch: char) -> (r: Option<File>)
        ensures
            r matches Some(f) ==> ('a' <= ch <= 'h' && f.idx() == ch as int - 'a' as int) || (
            'A' <= ch <= 'H' && f.idx() == ch as int - 'A' as int),
            r.is_none() ==> !('a' <= ch <= 'h' || 'A' <= ch <= 'H'),
    {
        if 'a' <= ch && ch <= 'h' {
            Some(File::from_index((ch as u32 - 'a' as u32) as u8))
        } else if 'A' <= ch && ch <= 'H' {
            Some(File::from_index((ch as u32 - 'A' as u32) as u8))
        } else {
            None
        }
    }

    /// Returns the upper-case letter of `self`.
    pub fn into_char(self) -> (r: char)
        ensures
            r as int == 'A' as int + self.idx(),
    {
        ((self.index() + 65u8) as char)
    }

    /// Returns the file mirrored across the middle of the board.
    pub fn not(self) -> (r: File)
        ensures
            r.idx() == 7 - self.idx(),
    {
        File::from_index(7 - self.index())
    }

    /// Returns the number of files between `self` and `other`.
    pub fn distance(self, other: File) -> (r: usize)
        ensures
            r == abs(self.idx() - other.idx()),
    {
        let (a, b) = (self.index(), other.index());
        if a < b {
            (b - a) as usize
        } else {
            (a - b) as usize
        }
    }
}

impl Rank {
    /// Returns the first rank of `color`: One for white, Eight for black.
    pub fn first(color: Color) -> (r: Rank)
        ensures
            r.idx() == if color == Color::White {
                0int
            } else {
                7int
            },
    {
        match color {
            Color::White => Rank::One,
            Color::Black => Rank::Eight,
        }
    }

    /// Returns the last rank of `color`: Eight for white, One for black.
    pub fn last(color: Color) -> (r: Rank)
        ensures
            r.idx() == if color == Color::White {
                7int
            } else {
                0int
            },
    {
        Rank::first(color.not())
    }

    /// Returns the rank of the digit `ch`, `1` to `8`.
    pub fn from_char(ch: char) -> (r: Option<Rank>)
        ensures
            r matches Some(k) ==> '1' <= ch <= '8' && k.idx() == ch as int - '1' as int,
            r.is_none() ==> !('1' <= ch <= '8'),
    {
        if '1' <= ch && ch <= '8' {
            Some(Rank::from_index((ch as u32 - '1' as u32) as u8))
        } else {
            None
        }
    }

    /// Returns the digit of `self`.
    pub fn into_char(self) -> (r: char)
        ensures
            r as int == '1' as int + self.idx(),
    {
        ((self.index() + 49u8) as char)
    }

    /// Returns the rank mirrored across the middle of the board.
    pub fn not(self) -> (r: Rank)
        ensures
            r.idx() == 7 - self.idx(),
    {
        Rank::from_index(7 - self.index())
    }

    /// Returns the number of ranks between `self` and `other`.
    pub fn distance(self, other: Rank) -> (r: usize)
        ensures
            r == abs(self.idx() - other.idx()),
    {
        let (a, b) = (self.index(), other.index());
        if a < b {
            (b - a) as usize
        } else {
            (a - b) as usize
        }
    }

    /// Returns the number of ranks that `color` has yet to advance from `self`
    /// to reach the end of the board: the moves a pawn needs to promote.
    pub fn rem_distance(self, color: Color) -> (r: usize)
        ensures
            r == if color == Color::White {
                7 - self.idx()
            } else {
                self.idx()
            },
    {
        match color {
            Color::White => (7 - self.index()) as usize,
            Color::Black => self.index() as usize,
        }
    }
}

impl Square {
    /// Returns the square on `file` and `rank`.
    pub fn new(file: File, rank: Rank) -> (r: Square)
        ensures
            r.idx() == sq_at(file.idx(), rank.idx()),
    {
        Square::from_index(rank.index() * 8 + file.index())
    }

    /// Returns the file of `self`.
    pub fn file(self) -> (r: File)
        ensures
            r.idx() == file_of(self.idx()),
    {
        File::from_index(self.index() % 8)
    }

    /// Returns the rank of `self`.
    pub fn rank(self) -> (r: Rank)
        ensures
            r.idx() == rank_of(self.idx()),
    {
        Rank::from_index(self.index() / 8)
    }

    /// Returns the square on the mirrored file and the same rank.
    pub fn rev_file(self) -> (r: Square)
        ensures
            r.idx() == sq_at(7 - file_of(self.idx()), rank_of(self.idx())),
    {
        let i = self.index();
        Square::from_index(i / 8 * 8 + (7 - i % 8))
    }

    /// Returns the square on the same file and the mirrored rank.
    pub fn rev_rank(self) -> (r: Square)
        ensures
            r.idx() == sq_at(file_of(self.idx()), 7 - rank_of(self.idx())),
    {
        let i = self.index();
        Square::from_index((7 - i / 8) * 8 + i % 8)
    }

    /// Returns the square one rank up, or `None` on the last rank.
    pub fn up(self) -> (r: Option<Square>)
        ensures
            r.is_none() <==> rank_of(self.idx()) == 7,
            r matches Some(t) ==> t.idx() == self.idx() + 8,
    {
        let i = self.index();
        if i >= 56 {
            None
        } else {
            Some(Square::from_index(i + 8))
        }
    }

    /// Returns the square one rank down, or `None` on the first rank.
    pub fn down(self) -> (r: Option<Square>)
        ensures
            r.is_none() <==> rank_of(self.idx()) == 0,
            r matches Some(t) ==> t.idx() == self.idx() - 8,
    {
        let i = self.index();
        if i < 8 {
            None
        } else {
            Some(Square::from_index(i - 8))
        }
    }

    /// Returns the square one file to the right, or `None` on file H.
    pub fn right(self) -> (r: Option<Square>)
        ensures
            r.is_none() <==> file_of(self.idx()) == 7,
            r matches Some(t) ==> t.idx() == self.idx() + 1,
    {
        let i = self.index();
        if i % 8 == 7 {
            None
        } else {
            Some(Square::from_index(i + 1))
        }
    }

    /// Returns the square one file to the left, or `None` on file A.
    pub fn left(self) -> (r: Option<Square>)
        ensures
            r.is_none() <==> file_of(self.idx()) == 0,
            r matches Some(t) ==> t.idx() == self.idx() - 1,
    {
        let i = self.index();
        if i % 8 == 0 {
            None
        } else {
            Some(Square::from_index(i - 1))
        }
    }

    /// Returns the square on the file of `self` and the rank of `other`.
    pub fn combine(self, other: Square) -> (r: Square)
        ensures
            r.idx() == sq_at(file_of(self.idx()), rank_of(other.idx())),
    {
        Square::from_index(other.index() / 8 * 8 + self.index() % 8)
    }

    /// Returns the color of `self` on the board: A1 is black, B1 white.
    pub fn color(self) -> (r: Color)
        ensures
            r == if (file_of(self.idx()) + rank_of(self.idx())) % 2 == 0 {
                Color::Black
            } else {
                Color::White
            },
    {
        let i = self.index();
        if (i % 8 + i / 8) % 2 == 0 {
            Color::Black
        } else {
            Color::White
        }
    }

    /// Returns whether `self` and `other` have the same color on the board.
    pub fn color_eq(self, other: Square) -> (r: bool)
        ensures
            r == ((file_of(self.idx()) + rank_of(self.idx())) % 2 == (file_of(other.idx())
                + rank_of(other.idx())) % 2),
    {
        let (a, b) = (self.index(), other.index());
        (a % 8 + a / 8) % 2 == (b % 8 + b / 8) % 2
    }

    /// Returns the Chebyshev distance between `self` and `other`: the number of
    /// moves a king needs to go from one to the other.
    pub fn distance(self, other: Square) -> (r: usize)
        ensures
            r == max(
                abs(file_of(self.idx()) - file_of(other.idx())),
                abs(rank_of(self.idx()) - rank_of(other.idx())),
            ),
    {
        let df = self.file().distance(other.file());
        let dr = self.rank().distance(other.rank());
        if df < dr {
            dr
        } else {
            df
        }
    }

    /// Returns the Manhattan distance between `self` and `other`: the number of
    /// horizontal and vertical steps from one to the other.
    pub fn man_distance(self, other: Square) -> (r: usize)
        ensures
            r == abs(file_of(self.idx()) - file_of(other.idx())) + abs(rank_of(self.idx())
                - rank_of(other.idx())),
    {
        self.file().distance(other.file()) + self.rank().distance(other.rank())
    }

    /// Returns the Chebyshev distance between `self` and the center of the board.
    pub fn center_distance(self) -> (r: usize)
        ensures
            r == max(center_offset(file_of(self.idx())), center_offset(rank_of(self.idx()))),
    {
        let i = self.index();
        let (f, k) = (i % 8, i / 8);
        let cf: u8 = if f <= 3 {
            3 - f
        } else {
            f - 4
        };
        let ck: u8 = if k <= 3 {
            3 - k
        } else {
            k - 4
        };
        if cf < ck {
            ck as usize
        } else {
            cf as usize
        }
    }

    /// Returns the Manhattan distance between `self` and the center of the board.
    pub fn center_man_distance(self) -> (r: usize)
        ensures
            r == center_offset(file_of(self.idx())) + center_offset(rank_of(self.idx())),
    {
        let i = self.index();
        let (f, k) = (i % 8, i / 8);
        let cf: u8 = if f <= 3 {
            3 - f
        } else {
            f - 4
        };
        let ck: u8 = if k <= 3 {
            3 - k
        } else {
            k - 4
        };
        (cf + ck) as usize
    }

    /// Returns the index of the unordered pair `{self, other}` in a table of
    /// `64 * 65 / 2` entries, computed without a branch.
    pub fn tri_index(self, other: Square) -> (r: usize)
        ensures
            r == tri(self.idx(), other.idx()),
            r < 2080,
    {
        let mut a = self.index() as i64;
        let mut b = other.index() as i64;
        let mut d = a - b;
        proof {
            assert(-64 < d < 64 ==> d & (d >> 31u64) == if d < 0 {
                d
            } else {
                0
            }) by (bit_vector);
        }
        d = d & (d >> 31u64);
        b = b + d;
        a = a - d;
        proof {
            assert(0 <= b < 64 ==> b ^ 127 == 127 - b) by (bit_vector);
            assert(0 <= b * (127 - b) <= 4032) by (nonlinear_arith)
                requires
                    0 <= b < 64,
            ;
        }
        b = b * (b ^ 127);
        proof {
            assert(0 <= b ==> b >> 1u64 == b / 2) by (bit_vector);
        }
        ((b >> 1u64) + a) as usize
    }

    /// Returns the entry of `table` that belongs to the unordered pair `{self, other}`.
    pub fn tri<'a, T>(self, other: Square, table: &'a [T; 2080]) -> (r: &'a T)
        ensures
            *r == table@[tri(self.idx(), other.idx())],
    {
        &table[self.tri_index(other)]
    }

    /// Returns the entry of `table` that belongs to the unordered pair
    /// `{self, other}`, to change it.
    pub fn tri_mut<'a, T>(self, other: Square, table: &'a mut [T; 2080]) -> (r: &'a mut T)
        ensures
            *r == old(table)@[tri(self.idx(), other.idx())],
            final(table)@ == old(table)@.update(tri(self.idx(), other.idx()), *final(r)),
    {
        &mut table[self.tri_index(other)]
    }

    /// Returns whether `self` lies on the line through `a` and `b`, which must
    /// share a file, a rank or a diagonal.
    pub fn is_aligned(self, a: Square, b: Square) -> (r: bool)
        ensures
            r == on_line(a.idx(), b.idx(), self.idx()),
    {
        let (ia, ib, is) = (a.index() as i32, b.index() as i32, self.index() as i32);
        let df = ib % 8 - ia % 8;
        let dr = ib / 8 - ia / 8;
        let diag = df == dr || df == -dr;
        if ia == ib || !(df == 0 || dr == 0 || diag) {
            false
        } else {
            proof {
                assert(-8 < is % 8 - ia % 8 < 8 && -8 < dr < 8 && -8 < is / 8 - ia / 8 < 8 && -8
                    < df < 8);
                assert(-64 < (is % 8 - ia % 8) * dr < 64) by (nonlinear_arith)
                    requires
                        -8 < is % 8 - ia % 8 < 8,
                        -8 < dr < 8,
                ;
                assert(-64 < (is / 8 - ia / 8) * df < 64) by (nonlinear_arith)
                    requires
                        -8 < is / 8 - ia / 8 < 8,
                        -8 < df < 8,
                ;
            }
            (is % 8 - ia % 8) * dr == (is / 8 - ia / 8) * df
        }
    }

    /// Returns whether `self` lies strictly between `a` and `b`, which must
    /// share a file, a rank or a diagonal.
    pub fn is_between(self, a: Square, b: Square) -> (r: bool)
        ensures
            r == strictly_between(a.idx(), b.idx(), self.idx()),
    {
        let (ia, ib, is) = (a.index(), b.index(), self.index());
        if !self.is_aligned(a, b) || is == ia || is == ib {
            false
        } else {
            let (fa, fb, fs) = (ia % 8, ib % 8, is % 8);
            let (ra, rb, rs) = (ia / 8, ib / 8, is / 8);
            ((fa <= fs && fs <= fb) || (fb <= fs && fs <= fa)) && ((ra <= rs && rs <= rb) || (rb
                <= rs && rs <= ra))
        }
    }
}

/// The error returned when a text names no square.
#[derive(Copy, Clone, Debug, PartialEq, Eq, Structural)]
pub struct FromStrError;

/// The square that a two-character text names: a file letter `a` to `h` in
/// either case, then a rank digit `1` to `8`.
pub open spec fn parse_square(s: Seq<char>) -> Option<int> {
    if s.len() == 2 && 'a' <= lower(s[0]) <= 'h' && '1' <= s[1] <= '8' {
        Some(sq_at(lower(s[0]) as int - 'a' as int, s[1] as int - '1' as int))
    } else {
        None
    }
}

impl Square {
    /// Parses a square from a file letter, in either case, and a rank digit.
    pub fn parse(s: &str) -> (r: Result<Square, FromStrError>)
        ensures
            r is Ok <==> parse_square(s@) is Some,
            r matches Ok(sq) ==> parse_square(s@) == Some(sq.idx()),
    {
        if s.unicode_len() != 2 {
            return Err(FromStrError);
        }
        let (a, b) = (s.get_char(0), s.get_char(1));
        match (File::from_char(a), Rank::from_char(b)) {
            (Some(f), Some(k)) => Ok(Square::new(f, k)),
            _ => Err(FromStrError),
        }
    }

    /// Returns the name of `self`: its upper-case file letter and its rank digit.
    pub fn to_string(self) -> (r: String)
        ensures
            r@.len() == 2,
            r@[0] as int == 'A' as int + file_of(self.idx()),
            r@[1] as int == '1' as int + rank_of(self.idx()),
    {
        proof {
            reveal_strlit("A");
            reveal_strlit("B");
            reveal_strlit("C");
            reveal_strlit("D");
            reveal_strlit("E");
            reveal_strlit("F");
            reveal_strlit("G");
            reveal_strlit("H");
            reveal_strlit("1");
            reveal_strlit("2");
            reveal_strlit("3");
            reveal_strlit("4");
            reveal_strlit("5");
            reveal_strlit("6");
            reveal_strlit("7");
            reveal_strlit("8");
        }
        let mut r = String::from_str(
            match self.file() {
                File::A => "A",
                File::B => "B",
                File::C => "C",
                File::D => "D",
                File::E => "E",
                File::F => "F",
                File::G => "G",
                File::H => "H",
            },
        );
        r.append(
            match self.rank() {
                Rank::One => "1",
                Rank::Two => "2",
                Rank::Three => "3",
                Rank::Four => "4",
                Rank::Five => "5",
                Rank::Six => "6",
                Rank::Seven => "7",
                Rank::Eight => "8",
            },
        );
        r
    }
}

impl core::str::FromStr for Square {
    type Err = FromStrError;

    fn from_str(s: &str) -> Result<Square, FromStrError> {
        Square::parse(s)
    }
}

/// The triangular index does not depend on the order of the two squares,
/// and always falls within a table of `64 * 65 / 2 = 2080` entries.
pub proof fn lemma_tri_symmetric(a: Square, b: Square)
    ensures
        tri(a.idx(), b.idx()) == tri(b.idx(), a.idx()),
        0 <= tri(a.idx(), b.idx()) < 2080,
{
    let (x, y) = (a.idx(), b.idx());
    let lo = if x < y {
        x
    } else {
        y
    };
    assert(0 <= lo * (127 - lo) <= 4032) by (nonlinear_arith)
        requires
            0 <= lo < 64,
    ;
}

/// A square is at distance zero from itself, and so are its file and rank:
/// for the Chebyshev distance, the Manhattan distance and the file and rank
/// distances alike.
pub proof fn lemma_distance_to_self(s: Square)
    ensures
        abs(s.file_idx() - s.file_idx()) == 0,
        abs(s.rank_idx() - s.rank_idx()) == 0,
        max(abs(file_of(s.idx()) - file_of(s.idx())), abs(rank_of(s.idx()) - rank_of(s.idx()))) == 0,
        abs(file_of(s.idx()) - file_of(s.idx())) + abs(rank_of(s.idx()) - rank_of(s.idx())) == 0,
{
}

impl Square {
    /// The index of the file of the square.
    pub open spec fn file_idx(self) -> int {
        file_of(self.idx())
    }

    /// The index of the rank of the square.
    pub open spec fn rank_idx(self) -> int {
        rank_of(self.idx())
    }
}

} // verus!
