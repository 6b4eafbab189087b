//! A chess board held as bitboards: one per piece kind and one per color.

use vstd::prelude::*;

use crate::bitboard::{Bitboard, group_bits};
use crate::castle::CastleRight;
use crate::color::Color;
use crate::piece::{Piece, PieceKind};

verus! {

broadcast use group_bits;

/// The squares E1 and G1: where the king stands before and after white's king-side castle.
pub const KING_WHITE_KINGSIDE: u64 = 0x50;

/// The squares H1 and F1: where the rook stands before and after white's king-side castle.
pub const ROOK_WHITE_KINGSIDE: u64 = 0xA0;

/// The squares E1 and C1: where the king stands before and after white's queen-side castle.
pub const KING_WHITE_QUEENSIDE: u64 = 0x14;

/// The squares A1 and D1: where the rook stands before and after white's queen-side castle.
pub const ROOK_WHITE_QUEENSIDE: u64 = 0x09;

/// The squares E8 and G8: where the king stands before and after black's king-side castle.
pub const KING_BLACK_KINGSIDE: u64 = 0x5000_0000_0000_0000;

/// The squares H8 and F8: where the rook stands before and after black's king-side castle.
pub const ROOK_BLACK_KINGSIDE: u64 = 0xA000_0000_0000_0000;

/// The squares E8 and C8: where the king stands before and after black's queen-side castle.
pub const KING_BLACK_QUEENSIDE: u64 = 0x1400_0000_0000_0000;

/// The squares A8 and D8: where the rook stands before and after black's queen-side castle.
pub const ROOK_BLACK_QUEENSIDE: u64 = 0x0900_0000_0000_0000;

/// The king squares that castling with `right` toggles.
pub open spec fn castle_king_mask(right: CastleRight) -> u64 {
    match right {
        CastleRight::WhiteKingside => KING_WHITE_KINGSIDE,
        CastleRight::WhiteQueenside => KING_WHITE_QUEENSIDE,
        CastleRight::BlackKingside => KING_BLACK_KINGSIDE,
        CastleRight::BlackQueenside => KING_BLACK_QUEENSIDE,
    }
}

/// The rook squares that castling with `right` toggles.
pub open spec fn castle_rook_mask(right: CastleRight) -> u64 {
    match right {
        CastleRight::WhiteKingside => ROOK_WHITE_KINGSIDE,
        CastleRight::WhiteQueenside => ROOK_WHITE_QUEENSIDE,
        CastleRight::BlackKingside => ROOK_BLACK_KINGSIDE,
        CastleRight::BlackQueenside => ROOK_BLACK_QUEENSIDE,
    }
}

/// The index of a color: 0 for white, 1 for black.
pub open spec fn color_idx(c: Color) -> int {
    match c {
        Color::White => 0,
        Color::Black => 1,
    }
}

fn color_index(c: Color) -> (r: usize)
    ensures
        r == color_idx(c),
{
    match c {
        Color::White => 0,
        Color::Black => 1,
    }
}

/// A full chess board, held as six bitboards by piece kind and two by color.
///
/// A square holds a piece of kind `k` and color `c` when it is in the board
/// of `k` and in the board of `c`. A board is sound when no square is in two
/// kind boards or in both color boards, and the squares of the kind boards
/// are those of the color boards; the blind operations do not check this.
#[derive(Copy, Clone, Debug, Hash)]
pub struct MultiBoard {
    pieces: [Bitboard; 6],
    colors: [Bitboard; 2],
}

/// The segmented board: the same bitboards by piece kind and by color.
pub type SegBoard = MultiBoard;

impl MultiBoard {
    /// The board of the pieces of kind `k`.
    pub closed spec fn kind_bits(self, k: PieceKind) -> u64 {
        self.pieces@[k.idx()].0
    }

    /// The board of the pieces of color `c`.
    pub closed spec fn color_bits(self, c: Color) -> u64 {
        self.colors@[color_idx(c)].0
    }

    /// The squares of the pieces `p`.
    pub open spec fn piece_bits(self, p: Piece) -> u64 {
        self.color_bits(p.spec_color()) & self.kind_bits(p.spec_kind())
    }

    /// The occupied squares: those of the two color boards.
    pub open spec fn occupied(self) -> u64 {
        self.color_bits(Color::White) | self.color_bits(Color::Black)
    }

    /// Whether `self` and `other` hold the same eight bitboards.
    pub open spec fn same_boards(self, other: MultiBoard) -> bool {
        (forall|k: PieceKind| #[trigger] self.kind_bits(k) == other.kind_bits(k)) && (forall|
            c: Color,
        | #[trigger] self.color_bits(c) == other.color_bits(c))
    }

    /// Returns the board with no piece.
    pub fn empty() -> (r: MultiBoard)
        ensures
            forall|k: PieceKind| #[trigger] r.kind_bits(k) == 0,
            forall|c: Color| #[trigger] r.color_bits(c) == 0,
    {
        MultiBoard { pieces: [Bitboard(0); 6], colors: [Bitboard(0); 2] }
    }

    /// Returns the board of the standard starting position.
    pub fn standard() -> (r: MultiBoard)
        ensures
            r.kind_bits(PieceKind::Pawn) == 0x00FF_0000_0000_FF00u64,
            r.kind_bits(PieceKind::Knight) == 0x4200_0000_0000_0042u64,
            r.kind_bits(PieceKind::Bishop) == 0x2400_0000_0000_0024u64,
            r.kind_bits(PieceKind::Rook) == 0x8100_0000_0000_0081u64,
            r.kind_bits(PieceKind::Queen) == 0x0800_0000_0000_0008u64,
            r.kind_bits(PieceKind::King) == 0x1000_0000_0000_0010u64,
            r.color_bits(Color::White) == 0x0000_0000_0000_FFFFu64,
            r.color_bits(Color::Black) == 0xFFFF_0000_0000_0000u64,
    {
        MultiBoard {
            pieces: [
                Bitboard(0x00FF_0000_0000_FF00),
                Bitboard(0x4200_0000_0000_0042),
                Bitboard(0x2400_0000_0000_0024),
                Bitboard(0x8100_0000_0000_0081),
                Bitboard(0x0800_0000_0000_0008),
                Bitboard(0x1000_0000_0000_0010),
            ],
            colors: [Bitboard(0x0000_0000_0000_FFFF), Bitboard(0xFFFF_0000_0000_0000)],
        }
    }

    /// Returns the board of the pieces of kind `kind`.
    pub fn kind_board(&self, kind: PieceKind) -> (r: Bitboard)
        ensures
            r.0 == self.kind_bits(kind),
    {
        self.pieces[kind.index()]
    }

    /// Returns the board of the pieces of `color`.
    pub fn color_board(&self, color: Color) -> (r: Bitboard)
        ensures
            r.0 == self.color_bits(color),
    {
        self.colors[color_index(color)]
    }

    /// Clears `self` of all pieces.
    pub fn clear(&mut self)
        ensures
            forall|k: PieceKind| #[trigger] final(self).kind_bits(k) == 0,
            forall|c: Color| #[trigger] final(self).color_bits(c) == 0,
    {
        *self = MultiBoard::empty();
    }

    /// Returns whether `self` holds no piece.
    pub fn is_empty(&self) -> (r: bool)
        ensures
            r == (self.occupied() == 0),
    {
        self.all_bits().is_empty()
    }

    /// Returns the number of pieces on `self`.
    pub fn len(&self) -> (r: usize)
        ensures
            r == Bitboard(self.occupied()).count(),
    {
        self.all_bits().len()
    }

    /// Returns the occupied squares of `self`.
    pub fn all_bits(&self) -> (r: Bitboard)
        ensures
            r.0 == self.occupied(),
    {
        self.colors[0].union(self.colors[1])
    }

    /// Returns the board of `value`: a color, a piece kind or a piece.
    pub fn bitboard<T: Index>(&self, value: T) -> (r: Bitboard)
        ensures
            r.0 == value.spec_bitboard(*self),
    {
        value.bitboard(self)
    }

    /// Returns the number of squares on the board of `value`.
    pub fn count<T: Index>(&self, value: T) -> (r: usize)
        ensures
            r == Bitboard(value.spec_bitboard(*self)).count(),
    {
        self.bitboard(value).len()
    }

    /// Returns whether every square of `bits` is on the board of `value`.
    pub fn contains<T: Index>(&self, bits: Bitboard, value: T) -> (r: bool)
        ensures
            r == (value.spec_bitboard(*self) & bits.0 == bits.0),
    {
        self.bitboard(value).contains_all(bits)
    }

    fn mask_kinds(&mut self, keep: u64)
        ensures
            forall|k: PieceKind| #[trigger] final(self).kind_bits(k) == old(self).kind_bits(k) & keep,
            forall|c: Color| #[trigger] final(self).color_bits(c) == old(self).color_bits(c),
    {
        self.pieces[0] = Bitboard(self.pieces[0].0 & keep);
        self.pieces[1] = Bitboard(self.pieces[1].0 & keep);
        self.pieces[2] = Bitboard(self.pieces[2].0 & keep);
        self.pieces[3] = Bitboard(self.pieces[3].0 & keep);
        self.pieces[4] = Bitboard(self.pieces[4].0 & keep);
        self.pieces[5] = Bitboard(self.pieces[5].0 & keep);
    }

    fn mask_colors(&mut self, keep: u64)
        ensures
            forall|k: PieceKind| #[trigger] final(self).kind_bits(k) == old(self).kind_bits(k),
            forall|c: Color| #[trigger] final(self).color_bits(c) == old(self).color_bits(c) & keep,
    {
        self.colors[0] = Bitboard(self.colors[0].0 & keep);
        self.colors[1] = Bitboard(self.colors[1].0 & keep);
    }

    fn mask_kind(&mut self, kind: PieceKind, keep: u64)
        ensures
            forall|k: PieceKind| #[trigger]
                final(self).kind_bits(k) == if k == kind {
                    old(self).kind_bits(k) & keep
                } else {
                    old(self).kind_bits(k)
                },
            forall|c: Color| #[trigger] final(self).color_bits(c) == old(self).color_bits(c),
    {
        let i = kind.index();
        self.pieces[i] = Bitboard(self.pieces[i].0 & keep);
    }

    fn mask_color(&mut self, color: Color, keep: u64)
        ensures
            forall|k: PieceKind| #[trigger] final(self).kind_bits(k) == old(self).kind_bits(k),
            forall|c: Color| #[trigger]
                final(self).color_bits(c) == if c == color {
                    old(self).color_bits(c) & keep
                } else {
                    old(self).color_bits(c)
                },
    {
        let i = color_index(color);
        self.colors[i] = Bitboard(self.colors[i].0 & keep);
    }

    fn toggle_kind(&mut self, kind: PieceKind, bits: u64)
        ensures
            forall|k: PieceKind| #[trigger]
                final(self).kind_bits(k) == if k == kind {
                    old(self).kind_bits(k) ^ bits
                } else {
                    old(self).kind_bits(k)
                },
            forall|c: Color| #[trigger] final(self).color_bits(c) == old(self).color_bits(c),
    {
        let i = kind.index();
        self.pieces[i] = Bitboard(self.pieces[i].0 ^ bits);
    }

    fn toggle_color(&mut self, color: Color, bits: u64)
        ensures
            forall|k: PieceKind| #[trigger] final(self).kind_bits(k) == old(self).kind_bits(k),
            forall|c: Color| #[trigger]
                final(self).color_bits(c) == if c == color {
                    old(self).color_bits(c) ^ bits
                } else {
                    old(self).color_bits(c)
                },
    {
        let i = color_index(color);
        self.colors[i] = Bitboard(self.colors[i].0 ^ bits);
    }

    /// Places `piece` on each square of `bits`, after removing whatever stood there.
    pub fn insert(&mut self, bits: Bitboard, piece: Piece)
        ensures
            forall|k: PieceKind| #[trigger]
                final(self).kind_bits(k) == if k == piece.spec_kind() {
                    (old(self).kind_bits(k) & !bits.0) | bits.0
                } else {
                    old(self).kind_bits(k) & !bits.0
                },
            forall|c: Color| #[trigger]
                final(self).color_bits(c) == if c == piece.spec_color() {
                    (old(self).color_bits(c) & !bits.0) | bits.0
                } else {
                    old(self).color_bits(c) & !bits.0
                },
    {
        self.remove_all(bits);
        self.insert_unchecked(bits, piece);
    }

    /// Places `piece` on each square of `bits` **blindly**: whatever stood
    /// there stays on its boards. Use it only where `bits` is known to be empty.
    pub fn insert_unchecked(&mut self, bits: Bitboard, piece: Piece)
        ensures
            forall|k: PieceKind| #[trigger]
                final(self).kind_bits(k) == if k == piece.spec_kind() {
                    old(self).kind_bits(k) | bits.0
                } else {
                    old(self).kind_bits(k)
                },
            forall|c: Color| #[trigger]
                final(self).color_bits(c) == if c == piece.spec_color() {
                    old(self).color_bits(c) | bits.0
                } else {
                    old(self).color_bits(c)
                },
    {
        let c = color_index(piece.color());
        let k = piece.kind().index();
        self.colors[c] = Bitboard(self.colors[c].0 | bits.0);
        self.pieces[k] = Bitboard(self.pieces[k].0 | bits.0);
    }

    /// Removes from the squares of `bits` the pieces that `value` (a color, a
    /// piece kind or a piece) names: each square of `bits` that holds such a
    /// piece is cleared on its color board and its kind board, and every
    /// other square stays as it was.
    pub fn remove<T: Index>(&mut self, bits: Bitboard, value: T)
        ensures
            value.removes(bits.0, *old(self), *final(self)),
    {
        value.remove(bits, self);
    }

    /// Removes `value` (a color, a piece kind or a piece) from the squares of
    /// `bits` **blindly**: it does not check what else stands there.
    pub fn remove_unchecked<T: Index>(&mut self, bits: Bitboard, value: T)
        ensures
            value.removes_unchecked(bits.0, *old(self), *final(self)),
    {
        value.remove_unchecked(bits, self);
    }

    /// Removes every piece from the squares of `bits`.
    pub fn remove_all(&mut self, bits: Bitboard)
        ensures
            forall|k: PieceKind| #[trigger] final(self).kind_bits(k) == old(self).kind_bits(k) & !bits.0,
            forall|c: Color| #[trigger] final(self).color_bits(c) == old(self).color_bits(c) & !bits.0,
    {
        self.mask_kinds(!bits.0);
        self.mask_colors(!bits.0);
    }

    /// Returns the color boards and the piece-kind boards of `self`.
    pub fn split(&self) -> (r: (&[Bitboard; 2], &[Bitboard; 6]))
        ensures
            forall|c: Color| #[trigger] r.0@[color_idx(c)].0 == self.color_bits(c),
            forall|k: PieceKind| #[trigger] r.1@[k.idx()].0 == self.kind_bits(k),
    {
        (&self.colors, &self.pieces)
    }

    /// Returns the color boards and the piece-kind boards of `self`, to change them.
    pub fn split_mut(&mut self) -> (r: (&mut [Bitboard; 2], &mut [Bitboard; 6]))
        ensures
            forall|c: Color| #[trigger] r.0@[color_idx(c)].0 == old(self).color_bits(c),
            forall|k: PieceKind| #[trigger] r.1@[k.idx()].0 == old(self).kind_bits(k),
            forall|c: Color| #[trigger] final(self).color_bits(c) == final(r.0)@[color_idx(c)].0,
            forall|k: PieceKind| #[trigger] final(self).kind_bits(k) == final(r.1)@[k.idx()].0,
    {
        (&mut self.colors, &mut self.pieces)
    }

    /// Castles **blindly** with `right`: toggles the king's and the rook's
    /// start and end squares on their color board and on the king and rook
    /// boards. On a board where the king and rook stand on their start
    /// squares and the squares between are empty, this makes the castling
    /// move; on any other board the toggles are made all the same. Castling
    /// twice with one right gives back the board.
    pub fn castle(&mut self, right: CastleRight)
        ensures
            castled(*old(self), *final(self), right),
    {
        let (king, rook): (u64, u64) = match right {
            CastleRight::WhiteKingside => (KING_WHITE_KINGSIDE, ROOK_WHITE_KINGSIDE),
            CastleRight::WhiteQueenside => (KING_WHITE_QUEENSIDE, ROOK_WHITE_QUEENSIDE),
            CastleRight::BlackKingside => (KING_BLACK_KINGSIDE, ROOK_BLACK_KINGSIDE),
            CastleRight::BlackQueenside => (KING_BLACK_QUEENSIDE, ROOK_BLACK_QUEENSIDE),
        };
        self.toggle_color(right.color(), king | rook);
        self.toggle_kind(PieceKind::King, king);
        self.toggle_kind(PieceKind::Rook, rook);
    }
}

/// `after` is `before` castled blindly with `right`.
pub open spec fn castled(before: MultiBoard, after: MultiBoard, right: CastleRight) -> bool {
    let king = castle_king_mask(right);
    let rook = castle_rook_mask(right);
    (forall|c: Color| #[trigger]
        after.color_bits(c) == if c == right.spec_color() {
            before.color_bits(c) ^ (king | rook)
        } else {
            before.color_bits(c)
        }) && (forall|k: PieceKind| #[trigger]
        after.kind_bits(k) == if k == PieceKind::King {
            before.kind_bits(k) ^ king
        } else if k == PieceKind::Rook {
            before.kind_bits(k) ^ rook
        } else {
            before.kind_bits(k)
        })
}

/// Castling twice with the same right gives back the board: the toggles of
/// the second castle undo those of the first.
pub proof fn lemma_castle_involution(
    board: MultiBoard,
    once: MultiBoard,
    twice: MultiBoard,
    right: CastleRight,
)
    requires
        castled(board, once, right),
        castled(once, twice, right),
    ensures
        twice.same_boards(board),
{
    assert forall|x: u64, m: u64| #[trigger] ((x ^ m) ^ m) == x by {
        assert((x ^ m) ^ m == x) by (bit_vector);
    }
    assert forall|c: Color| #[trigger] twice.color_bits(c) == board.color_bits(c) by {
        if c == right.spec_color() {
            let m = castle_king_mask(right) | castle_rook_mask(right);
            assert((board.color_bits(c) ^ m) ^ m == board.color_bits(c));
        }
    }
    assert forall|k: PieceKind| #[trigger] twice.kind_bits(k) == board.kind_bits(k) by {
        if k == PieceKind::King {
            let m = castle_king_mask(right);
            assert((board.kind_bits(k) ^ m) ^ m == board.kind_bits(k));
        } else if k == PieceKind::Rook {
            let m = castle_rook_mask(right);
            assert((board.kind_bits(k) ^ m) ^ m == board.kind_bits(k));
        }
    }
}

/// Placing a piece on some squares and then removing that piece from them
/// leaves those squares empty on the piece's color board and kind board.
pub proof fn lemma_insert_remove(
    board: MultiBoard,
    inserted: MultiBoard,
    removed: MultiBoard,
    bits: u64,
    piece: Piece,
)
    requires
        forall|k: PieceKind| #[trigger]
            inserted.kind_bits(k) == if k == piece.spec_kind() {
                (board.kind_bits(k) & !bits) | bits
            } else {
                board.kind_bits(k) & !bits
            },
        forall|c: Color| #[trigger]
            inserted.color_bits(c) == if c == piece.spec_color() {
                (board.color_bits(c) & !bits) | bits
            } else {
                board.color_bits(c) & !bits
            },
        piece.removes(bits, inserted, removed),
    ensures
        removed.color_bits(piece.spec_color()) & bits == 0,
        removed.kind_bits(piece.spec_kind()) & bits == 0,
{
    let (c0, k0) = (board.color_bits(piece.spec_color()), board.kind_bits(piece.spec_kind()));
    let c = inserted.color_bits(piece.spec_color());
    let k = inserted.kind_bits(piece.spec_kind());
    assert((c & !(c & k & bits)) & bits == 0 && (k & !(c & k & bits)) & bits == 0) by (bit_vector)
        requires
            c == (c0 & !bits) | bits,
            k == (k0 & !bits) | bits,
    ;
}

/// A value whose squares a [`MultiBoard`] can give and remove: a color, a
/// piece kind or a piece.
pub trait Index: Sized + Copy {
    /// The squares of `self` on `board`.
    spec fn spec_bitboard(self, board: MultiBoard) -> u64;

    /// Whether `after` is `before` with `self` removed from the squares of `bits`.
    spec fn removes(self, bits: u64, before: MultiBoard, after: MultiBoard) -> bool;

    /// Whether `after` is `before` with `self` removed blindly from the squares of `bits`.
    spec fn removes_unchecked(self, bits: u64, before: MultiBoard, after: MultiBoard) -> bool;

    /// Returns the squares of `self` on `board`.
    fn bitboard(self, board: &MultiBoard) -> (r: Bitboard)
        ensures
            r.0 == self.spec_bitboard(*board),
    ;

    /// Removes from the squares of `bits` what `self` has there.
    fn remove(self, bits: Bitboard, board: &mut MultiBoard)
        ensures
            self.removes(bits.0, *old(board), *final(board)),
    ;

    /// Removes `self` blindly from the squares of `bits`.
    fn remove_unchecked(self, bits: Bitboard, board: &mut MultiBoard)
        ensures
            self.removes_unchecked(bits.0, *old(board), *final(board)),
    ;
}

impl Index for Color {
    open spec fn spec_bitboard(self, board: MultiBoard) -> u64 {
        board.color_bits(self)
    }

    /// The squares of `bits` that hold a piece of the color are cleared on
    /// its color board and on every kind board.
    open spec fn removes(self, bits: u64, before: MultiBoard, after: MultiBoard) -> bool {
        self.removes_unchecked(before.color_bits(self) & bits, before, after)
    }

    /// The squares of `bits` are cleared on the color's board and on every kind board.
    open spec fn removes_unchecked(self, bits: u64, before: MultiBoard, after: MultiBoard) -> bool {
        (forall|c: Color| #[trigger]
            after.color_bits(c) == if c == self {
                before.color_bits(c) & !bits
            } else {
                before.color_bits(c)
            }) && (forall|k: PieceKind| #[trigger]
            after.kind_bits(k) == before.kind_bits(k) & !bits)
    }

    fn bitboard(self, board: &MultiBoard) -> (r: Bitboard) {
        board.color_board(self)
    }

    fn remove(self, bits: Bitboard, board: &mut MultiBoard) {
        let b = board.color_board(self).intersection(bits);
        self.remove_unchecked(b, board);
    }

    fn remove_unchecked(self, bits: Bitboard, board: &mut MultiBoard) {
        board.mask_color(self, !bits.0);
        board.mask_kinds(!bits.0);
    }
}

impl Index for PieceKind {
    open spec fn spec_bitboard(self, board: MultiBoard) -> u64 {
        board.kind_bits(self)
    }

    /// The squares of `bits` that hold a piece of the kind are cleared on
    /// its kind board and on both color boards.
    open spec fn removes(self, bits: u64, before: MultiBoard, after: MultiBoard) -> bool {
        self.removes_unchecked(before.kind_bits(self) & bits, before, after)
    }

    /// The squares of `bits` are cleared on the kind's board and on both color boards.
    open spec fn removes_unchecked(self, bits: u64, before: MultiBoard, after: MultiBoard) -> bool {
        (forall|k: PieceKind| #[trigger]
            after.kind_bits(k) == if k == self {
                before.kind_bits(k) & !bits
            } else {
                before.kind_bits(k)
            }) && (forall|c: Color| #[trigger]
            after.color_bits(c) == before.color_bits(c) & !bits)
    }

    fn bitboard(self, board: &MultiBoard) -> (r: Bitboard) {
        board.kind_board(self)
    }

    fn remove(self, bits: Bitboard, board: &mut MultiBoard) {
        let b = board.kind_board(self).intersection(bits);
        self.remove_unchecked(b, board);
    }

    fn remove_unchecked(self, bits: Bitboard, board: &mut MultiBoard) {
        board.mask_kind(self, !bits.0);
        board.mask_colors(!bits.0);
    }
}

impl Index for Piece {
    open spec fn spec_bitboard(self, board: MultiBoard) -> u64 {
        board.piece_bits(self)
    }

    /// The squares of `bits` that hold the piece are cleared on its color
    /// board and on its kind board; every other square stays as it was.
    open spec fn removes(self, bits: u64, before: MultiBoard, after: MultiBoard) -> bool {
        self.removes_unchecked(before.piece_bits(self) & bits, before, after)
    }

    /// The squares of `bits` are cleared on the piece's color board and kind board.
    open spec fn removes_unchecked(self, bits: u64, before: MultiBoard, after: MultiBoard) -> bool {
        (forall|c: Color| #[trigger]
            after.color_bits(c) == if c == self.spec_color() {
                before.color_bits(c) & !bits
            } else {
                before.color_bits(c)
            }) && (forall|k: PieceKind| #[trigger]
            after.kind_bits(k) == if k == self.spec_kind() {
                before.kind_bits(k) & !bits
            } else {
                before.kind_bits(k)
            })
    }

    fn bitboard(self, board: &MultiBoard) -> (r: Bitboard) {
        board.color_board(self.color()).intersection(board.kind_board(self.kind()))
    }

    fn remove(self, bits: Bitboard, board: &mut MultiBoard) {
        let b = board.color_board(self.color()).intersection(board.kind_board(self.kind()))
            .intersection(bits);
        self.remove_unchecked(b, board);
    }

    fn remove_unchecked(self, bits: Bitboard, board: &mut MultiBoard) {
        board.mask_color(self.color(), !bits.0);
        board.mask_kind(self.kind(), !bits.0);
    }
}

impl PartialEq for MultiBoard {
    fn eq(&self, other: &MultiBoard) -> (r: bool) {
        let mut i: usize = 0;
        while i < 6
            invariant
                i <= 6,
                forall|j: int| 0 <= j < i ==> #[trigger] self.pieces@[j] == other.pieces@[j],
            decreases 6 - i,
        {
            if self.pieces[i].0 != other.pieces[i].0 {
                let k = PieceKind::from_index(i as u8);
                assert(self.kind_bits(k) != other.kind_bits(k));
                return false;
            }
            i = i + 1;
        }
        if self.colors[0].0 != other.colors[0].0 {
            assert(self.color_bits(Color::White) != other.color_bits(Color::White));
            return false;
        }
        if self.colors[1].0 != other.colors[1].0 {
            assert(self.color_bits(Color::Black) != other.color_bits(Color::Black));
            return false;
        }
        assert(self.same_boards(*other));
        true
    }
}

impl vstd::std_specs::cmp::PartialEqSpecImpl for MultiBoard {
    open spec fn obeys_eq_spec() -> bool {
        true
    }

    open spec fn eq_spec(&self, other: &MultiBoard) -> bool {
        self.same_boards(*other)
    }
}

impl Eq for MultiBoard {

}

impl Default for MultiBoard {
    fn default() -> (r: MultiBoard)
        ensures
            forall|k: PieceKind| #[trigger] r.kind_bits(k) == 0,
            forall|c: Color| #[trigger] r.color_bits(c) == 0,
    {
        MultiBoard::empty()
    }
}

} // verus!
