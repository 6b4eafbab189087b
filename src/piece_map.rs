//! A board held square by square: which piece, if any, stands on each square.

use vstd::prelude::*;

use crate::bitboard::{Bitboard, bit, group_bits, lemma_bit_ops};
use crate::color::Color;
use crate::multi_board::MultiBoard;
use crate::piece::{Piece, PieceKind};
use crate::square::{Square, file_of, group_index, rank_of};

verus! {

broadcast use {group_bits, group_index};

/// The kind of the piece that starts on file `f` of a back rank.
pub open spec fn back_rank_kind(f: int) -> PieceKind {
    if f == 0 || f == 7 {
        PieceKind::Rook
    } else if f == 1 || f == 6 {
        PieceKind::Knight
    } else if f == 2 || f == 5 {
        PieceKind::Bishop
    } else if f == 3 {
        PieceKind::Queen
    } else {
        PieceKind::King
    }
}

/// The piece on the square of index `i` in the standard starting position.
pub open spec fn standard_at(i: int) -> Option<Piece> {
    let f = file_of(i);
    let r = rank_of(i);
    if r == 0 {
        Some(piece_of(back_rank_kind(f), Color::White))
    } else if r == 1 {
        Some(Piece::WhitePawn)
    } else if r == 6 {
        Some(Piece::BlackPawn)
    } else if r == 7 {
        Some(piece_of(back_rank_kind(f), Color::Black))
    } else {
        None
    }
}

/// The piece of `kind` and `color`.
pub open spec fn piece_of(kind: PieceKind, color: Color) -> Piece {
    match (kind, color) {
        (PieceKind::Pawn, Color::White) => Piece::WhitePawn,
        (PieceKind::Pawn, Color::Black) => Piece::BlackPawn,
        (PieceKind::Knight, Color::White) => Piece::WhiteKnight,
        (PieceKind::Knight, Color::Black) => Piece::BlackKnight,
        (PieceKind::Bishop, Color::White) => Piece::WhiteBishop,
        (PieceKind::Bishop, Color::Black) => Piece::BlackBishop,
        (PieceKind::Rook, Color::White) => Piece::WhiteRook,
        (PieceKind::Rook, Color::Black) => Piece::BlackRook,
        (PieceKind::Queen, Color::White) => Piece::WhiteQueen,
        (PieceKind::Queen, Color::Black) => Piece::BlackQueen,
        (PieceKind::King, Color::White) => Piece::WhiteKing,
        (PieceKind::King, Color::Black) => Piece::BlackKing,
    }
}

/// The square of index `i` holds on `board` what it holds on `map`: it is on
/// the board of a kind, or of a color, exactly when the piece on it is of
/// that kind, or of that color.
pub open spec fn mirrors_at(board: MultiBoard, map: PieceMap, i: int) -> bool {
    (forall|k: PieceKind| #[trigger]
        bit(board.kind_bits(k), i as u64) == (map.at(i) matches Some(p) && p.spec_kind() == k))
        && (forall|c: Color| #[trigger]
        bit(board.color_bits(c), i as u64) == (map.at(i) matches Some(p) && p.spec_color() == c))
}

/// `board` and `map` describe the same placement of pieces.
pub open spec fn mirrors(board: MultiBoard, map: PieceMap) -> bool {
    forall|i: int| 0 <= i < 64 ==> #[trigger] mirrors_at(board, map, i)
}

/// The pieces of a board, square by square.
#[derive(Copy, Clone, Debug, Hash)]
pub struct PieceMap {
    squares: [Option<Piece>; 64],
}

impl PieceMap {
    /// The piece on the square of index `i`, if any.
    pub closed spec fn at(self, i: int) -> Option<Piece> {
        self.squares@[i]
    }

    /// Returns the map with no piece.
    pub fn new() -> (r: PieceMap)
        ensures
            forall|i: int| 0 <= i < 64 ==> #[trigger] r.at(i) == None::<Piece>,
    {
        PieceMap { squares: [None; 64] }
    }

    /// Returns the map of the standard starting position.
    pub fn standard() -> (r: PieceMap)
        ensures
            forall|i: int| 0 <= i < 64 ==> #[trigger] r.at(i) == standard_at(i),
    {
        let mut m = PieceMap::new();
        let mut f: usize = 0;
        while f < 8
            invariant
                f <= 8,
                forall|j: int|
                    0 <= j < 64 ==> #[trigger] m.at(j) == if file_of(j) < f {
                        standard_at(j)
                    } else {
                        None
                    },
            decreases 8 - f,
        {
            let kind = match f {
                0 | 7 => PieceKind::Rook,
                1 | 6 => PieceKind::Knight,
                2 | 5 => PieceKind::Bishop,
                3 => PieceKind::Queen,
                _ => PieceKind::King,
            };
            let white = Piece::new(kind, Color::White);
            let black = Piece::new(kind, Color::Black);
            assert(white == piece_of(back_rank_kind(f as int), Color::White));
            assert(black == piece_of(back_rank_kind(f as int), Color::Black));
            let ghost m0 = m;
            m.squares[f] = Some(white);
            m.squares[8 + f] = Some(Piece::WhitePawn);
            m.squares[48 + f] = Some(Piece::BlackPawn);
            m.squares[56 + f] = Some(black);
            assert forall|j: int| 0 <= j < 64 implies #[trigger] m.at(j) == if file_of(j) < f + 1 {
                standard_at(j)
            } else {
                None
            } by {
                if file_of(j) == f {
                    assert(j == rank_of(j) * 8 + f);
                }
                if j != f && j != 8 + f && j != 48 + f && j != 56 + f {
                    assert(m.at(j) == m0.at(j));
                }
            }
            f = f + 1;
        }
        m
    }

    /// Returns the piece on `square`, if any.
    pub fn get(&self, square: Square) -> (r: Option<Piece>)
        ensures
            r == self.at(square.idx()),
    {
        self.squares[square.index() as usize]
    }

    /// Returns whether a piece stands on `square`.
    pub fn contains(&self, square: Square) -> (r: bool)
        ensures
            r == self.at(square.idx()).is_some(),
    {
        self.squares[square.index() as usize].is_some()
    }

    /// Places `piece` on `square`, and returns what stood there.
    pub fn insert(&mut self, square: Square, piece: Piece) -> (r: Option<Piece>)
        ensures
            r == old(self).at(square.idx()),
            final(self).at(square.idx()) == Some(piece),
            forall|i: int|
                0 <= i < 64 && i != square.idx() ==> #[trigger] final(self).at(i) == old(self).at(i),
    {
        let i = square.index() as usize;
        let prev = self.squares[i];
        self.squares[i] = Some(piece);
        prev
    }

    /// Takes the piece off `square`, and returns it.
    pub fn remove(&mut self, square: Square) -> (r: Option<Piece>)
        ensures
            r == old(self).at(square.idx()),
            final(self).at(square.idx()) == None::<Piece>,
            forall|i: int|
                0 <= i < 64 && i != square.idx() ==> #[trigger] final(self).at(i) == old(self).at(i),
    {
        let i = square.index() as usize;
        let prev = self.squares[i];
        self.squares[i] = None;
        prev
    }
}

impl PartialEq for PieceMap {
    fn eq(&self, other: &PieceMap) -> (r: bool) {
        let mut i: usize = 0;
        while i < 64
            invariant
                i <= 64,
                forall|j: int| 0 <= j < i ==> #[trigger] self.at(j) == other.at(j),
            decreases 64 - i,
        {
            let same = match (self.squares[i], other.squares[i]) {
                (Some(a), Some(b)) => a == b,
                (None, None) => true,
                _ => false,
            };
            if !same {
                assert(self.at(i as int) != other.at(i as int));
                return false;
            }
            i = i + 1;
        }
        true
    }
}

impl vstd::std_specs::cmp::PartialEqSpecImpl for PieceMap {
    open spec fn obeys_eq_spec() -> bool {
        true
    }

    open spec fn eq_spec(&self, other: &PieceMap) -> bool {
        forall|i: int| 0 <= i < 64 ==> #[trigger] self.at(i) == other.at(i)
    }
}

impl Eq for PieceMap {

}

impl MultiBoard {
    /// Returns the board that holds the pieces of `map`.
    pub fn from_map(map: &PieceMap) -> (r: MultiBoard)
        ensures
            mirrors(r, *map),
    {
        let mut board = MultiBoard::empty();
        let mut i: u8 = 0;
        while i < 64
            invariant
                i <= 64,
                forall|j: int| 0 <= j < i ==> #[trigger] mirrors_at(board, *map, j),
                forall|j: int, k: PieceKind|
                    i <= j < 64 ==> !#[trigger] bit(board.kind_bits(k), j as u64),
                forall|j: int, c: Color|
                    i <= j < 64 ==> !#[trigger] bit(board.color_bits(c), j as u64),
            decreases 64 - i,
        {
            let square = Square::from_index(i);
            let ghost before = board;
            match map.get(square) {
                Some(p) => {
                    let b = Bitboard::from_square(square);
                    board.insert_unchecked(b, p);
                    assert forall|j: int, k: PieceKind| 0 <= j < 64 implies #[trigger] bit(
                        board.kind_bits(k),
                        j as u64,
                    ) == (bit(before.kind_bits(k), j as u64) || (k == p.spec_kind() && j
                        == i)) by {
                        assert(b.has(j) == (j == i));
                        lemma_bit_ops(before.kind_bits(k), b.0, j as u64);
                    }
                    assert forall|j: int, c: Color| 0 <= j < 64 implies #[trigger] bit(
                        board.color_bits(c),
                        j as u64,
                    ) == (bit(before.color_bits(c), j as u64) || (c == p.spec_color() && j
                        == i)) by {
                        assert(b.has(j) == (j == i));
                        lemma_bit_ops(before.color_bits(c), b.0, j as u64);
                    }
                },
                None => {},
            }
            assert forall|j: int| 0 <= j <= i implies #[trigger] mirrors_at(board, *map, j) by {
                if j < i {
                    assert(mirrors_at(before, *map, j));
                }
            }
            i = i + 1;
        }
        board
    }
}

} // verus!
