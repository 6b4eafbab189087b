//! A chess position: the pieces, the side to move, castling rights and the
//! en passant square, with the castling legality check.

use vstd::prelude::*;

use crate::attacks::{
    bishop_reaches, king_reaches, knight_reaches, lemma_bishop_symmetric, lemma_rook_symmetric,
    pawn_reaches, rook_reaches,
};
use crate::bitboard::{Bitboard, bit, group_bits, lemma_bit_one, lemma_bit_ops, lemma_bits_ext};
use crate::castle::{CastleRight, CastleRights};
use crate::color::Color;
use crate::multi_board::MultiBoard;
use crate::mv::{Move, MoveKind};
use crate::piece::{Piece, PieceKind};
use crate::piece_map::{PieceMap, mirrors, mirrors_at, piece_of, standard_at};
use crate::square::{Square, group_index};

verus! {

broadcast use {group_bits, group_index};

/// Whether a piece of kind `k` and color `c` stands on the square of index `t`.
pub open spec fn holds(board: MultiBoard, c: Color, k: PieceKind, t: int) -> bool {
    Bitboard(board.color_bits(c)).has(t) && Bitboard(board.kind_bits(k)).has(t)
}

/// Whether a piece of the opponent of `player` on the square of index `t`
/// attacks the square of index `s`. Rooks and queens attack along ranks and
/// files, bishops and queens along diagonals, through empty squares only.
pub open spec fn attacker_at(board: MultiBoard, s: int, player: Color, t: int) -> bool {
    let e = player.other();
    let occ = Bitboard(board.occupied());
    let queen = holds(board, e, PieceKind::Queen, t);
    let pawn = holds(board, e, PieceKind::Pawn, t) && pawn_reaches(e, t, s);
    let knight = holds(board, e, PieceKind::Knight, t) && knight_reaches(t, s);
    let king = holds(board, e, PieceKind::King, t) && king_reaches(t, s);
    let rook = (holds(board, e, PieceKind::Rook, t) || queen) && rook_reaches(t, occ, s);
    let bishop = (holds(board, e, PieceKind::Bishop, t) || queen) && bishop_reaches(t, occ, s);
    pawn || knight || king || rook || bishop
}

/// Whether the square of index `s` is attacked on `board` by a piece of the
/// opponent of `player`.
#[verifier::opaque]
pub open spec fn attacked(board: MultiBoard, s: int, player: Color) -> bool {
    exists|t: int| 0 <= t < 64 && #[trigger] attacker_at(board, s, player, t)
}

/// Whether the word `b` has exactly one bit set among the 64.
pub open spec fn one_square(b: u64) -> bool {
    b != 0 && forall|s: int, t: int|
        #[trigger] Bitboard(b).has(s) && #[trigger] Bitboard(b).has(t) ==> s == t
}

/// A set is non-empty exactly when it has a member.
proof fn lemma_nonzero(b: Bitboard)
    ensures
        b.0 != 0 <==> exists|t: int| #[trigger] b.has(t),
{
    if b.0 != 0 {
        vstd::std_specs::bits::axiom_u64_trailing_zeros(b.0);
        let i = vstd::std_specs::bits::u64_trailing_zeros(b.0) as int;
        assert(b.has(i));
    }
}

/// Returns whether `b` has exactly one bit set.
fn is_one_square(b: u64) -> (r: bool)
    ensures
        r == one_square(b),
{
    let r = b != 0 && b & (b - 1) == 0;
    proof {
        if r {
            assert forall|s: int, t: int|
                #[trigger] Bitboard(b).has(s) && #[trigger] Bitboard(b).has(t) implies s == t by {
                let (i, j) = (s as u64, t as u64);
                assert(b != 0 && b & vstd::prelude::sub(b, 1) == 0 && i < 64 && j < 64 && bit(b, i)
                    && bit(b, j) ==> i == j) by (bit_vector);
            }
        }
        if one_square(b) {
            vstd::std_specs::bits::axiom_u64_trailing_zeros(b);
            let s = vstd::std_specs::bits::u64_trailing_zeros(b) as int;
            assert(Bitboard(b).has(s));
            let c = 1u64 << (s as u64);
            assert forall|i: u64| i < 64 implies #[trigger] bit(b, i) == bit(c, i) by {
                lemma_bit_one(s as u64, i);
                if bit(b, i) {
                    assert(Bitboard(b).has(i as int));
                }
            }
            lemma_bits_ext(b, c);
            let j = s as u64;
            assert(j < 64 ==> (1u64 << j) != 0 && (1u64 << j) & vstd::prelude::sub(1u64 << j, 1)
                == 0) by (bit_vector);
        }
    }
    r
}

impl MultiBoard {
    /// Returns whether `square` is attacked by the pieces of the opponent of `player`.
    pub fn is_attacked(&self, square: Square, player: Color) -> (r: bool)
        ensures
            r == attacked(*self, square.idx(), player),
    {
        let enemy = self.color_board(player.not());
        let occ = self.all_bits();
        let queens = self.kind_board(PieceKind::Queen);
        let pawns = square.pawn_attacks(player).intersection(self.kind_board(PieceKind::Pawn));
        let knights = square.knight_attacks().intersection(self.kind_board(PieceKind::Knight));
        let kings = square.king_attacks().intersection(self.kind_board(PieceKind::King));
        let rooks = square.rook_attacks(occ).intersection(
            self.kind_board(PieceKind::Rook).union(queens),
        );
        let bishops = square.bishop_attacks(occ).intersection(
            self.kind_board(PieceKind::Bishop).union(queens),
        );
        let hits = pawns.union(knights).union(kings).union(rooks).union(bishops).intersection(
            enemy,
        );
        proof {
            reveal(attacked);
            lemma_nonzero(hits);
            let s = square.idx();
            let e = player.other();
            assert forall|t: int| 0 <= t < 64 implies (#[trigger] hits.has(t) <==> attacker_at(
                *self,
                s,
                player,
                t,
            )) by {
                assert(enemy.has(t) == Bitboard(self.color_bits(e)).has(t));
                assert(pawns.has(t) == (pawn_reaches(player, s, t) && Bitboard(
                    self.kind_bits(PieceKind::Pawn),
                ).has(t)));
                assert(knights.has(t) == (knight_reaches(s, t) && Bitboard(
                    self.kind_bits(PieceKind::Knight),
                ).has(t)));
                assert(kings.has(t) == (king_reaches(s, t) && Bitboard(
                    self.kind_bits(PieceKind::King),
                ).has(t)));
                assert(rooks.has(t) == (rook_reaches(s, occ, t) && (Bitboard(
                    self.kind_bits(PieceKind::Rook),
                ).has(t) || queens.has(t))));
                assert(bishops.has(t) == (bishop_reaches(s, occ, t) && (Bitboard(
                    self.kind_bits(PieceKind::Bishop),
                ).has(t) || queens.has(t))));
                assert(occ == Bitboard(self.occupied()));
                lemma_rook_symmetric(s, occ, t);
                lemma_bishop_symmetric(s, occ, t);
            }
            if attacked(*self, s, player) {
                let t = choose|t: int| 0 <= t < 64 && #[trigger] attacker_at(*self, s, player, t);
                assert(hits.has(t));
            }
            if hits.0 != 0 {
                let t = choose|t: int| #[trigger] hits.has(t);
                assert(0 <= t < 64);
                assert(attacker_at(*self, s, player, t));
            }
        }
        !hits.is_empty()
    }
}

/// The position's board and square-by-square map agree, and each color has exactly one king.
pub open spec fn sound(board: MultiBoard, pieces: PieceMap) -> bool {
    mirrors(board, pieces) && one_square(board.piece_bits(Piece::WhiteKing)) && one_square(
        board.piece_bits(Piece::BlackKing),
    )
}

/// The squares of the pieces `p` on a board that mirrors `map` are those where `map` holds `p`.
proof fn lemma_piece_bits(board: MultiBoard, map: PieceMap, p: Piece, t: int)
    requires
        mirrors(board, map),
        0 <= t < 64,
    ensures
        Bitboard(board.piece_bits(p)).has(t) <==> map.at(t) == Some(p),
{
    assert(mirrors_at(board, map, t));
    lemma_bit_ops(board.color_bits(p.spec_color()), board.kind_bits(p.spec_kind()), t as u64);
}

/// The fields of a text description of a position (Forsyth-Edwards notation).
#[derive(Copy, Clone, Debug)]
pub struct Fen {
    /// The pieces on the board.
    pub pieces: PieceMap,
    /// The side to move.
    pub color: Color,
    /// The castling rights.
    pub castling: CastleRights,
    /// The en passant target square.
    pub en_passant: Option<Square>,
    /// The number of halfmoves since the last capture or pawn advance.
    pub halfmoves: u32,
    /// The fullmove number.
    pub fullmoves: u32,
}

/// The castling rights and the en passant square of a position.
#[derive(Copy, Clone, Debug, PartialEq, Eq, Structural)]
pub struct State {
    rights: CastleRights,
    en_passant: Option<Square>,
}

/// A chess position. It holds the pieces twice, square by square and as
/// bitboards, and the two always agree.
#[derive(Copy, Clone, Debug)]
pub struct Position {
    state: State,
    pieces: PieceMap,
    board: MultiBoard,
    player: Color,
}

/// The castling right that a castling move to the square of index `to` uses:
/// G1, C1, G8 and C8 are the king's destinations.
pub open spec fn castle_right_to(to: int) -> Option<CastleRight> {
    if to == 6 {
        Some(CastleRight::WhiteKingside)
    } else if to == 2 {
        Some(CastleRight::WhiteQueenside)
    } else if to == 62 {
        Some(CastleRight::BlackKingside)
    } else if to == 58 {
        Some(CastleRight::BlackQueenside)
    } else {
        None
    }
}

impl Position {
    #[verifier::type_invariant]
    spec fn inv(self) -> bool {
        sound(self.board, self.pieces)
    }

    /// The pieces, square by square.
    pub closed spec fn spec_pieces(self) -> PieceMap {
        self.pieces
    }

    /// The pieces, as bitboards.
    pub closed spec fn spec_board(self) -> MultiBoard {
        self.board
    }

    /// The side to move.
    pub closed spec fn spec_player(self) -> Color {
        self.player
    }

    /// The castling rights of both sides.
    pub closed spec fn spec_rights(self) -> CastleRights {
        self.state.rights
    }

    /// The en passant target square.
    pub closed spec fn spec_en_passant(self) -> Option<Square> {
        self.state.en_passant
    }

    /// The square of the king of `color`.
    pub open spec fn spec_king_square(self, color: Color) -> int {
        choose|s: int| Bitboard(self.spec_board().piece_bits(piece_of(PieceKind::King, color))).has(s)
    }

    /// Whether the castling move `mv` is legal: the king of the side to move
    /// is not in check, the side holds the right that the move uses, and no
    /// square between its king and rook is attacked.
    pub open spec fn castle_is_legal(self, mv: Move) -> bool {
        let board = self.spec_board();
        let player = self.spec_player();
        !attacked(board, self.spec_king_square(player), player) && match castle_right_to(
            mv.spec_to(),
        ) {
            Some(right) => right.spec_color() == player && self.spec_rights().has(right) && forall|
                t: int,
            | #[trigger] Bitboard(right.spec_path()).has(t) ==> !attacked(board, t, player),
            None => false,
        }
    }

    /// Returns the position described by `fen`, or `None` unless each color
    /// has exactly one king on it.
    pub fn from_fen(fen: &Fen) -> (r: Option<Position>)
        ensures
            r.is_some() <==> one_on(fen.pieces, Piece::WhiteKing) && one_on(
                fen.pieces,
                Piece::BlackKing,
            ),
            r matches Some(p) ==> p.spec_pieces() == fen.pieces && p.spec_player() == fen.color
                && p.spec_rights() == fen.castling && p.spec_en_passant() == fen.en_passant,
    {
        let board = MultiBoard::from_map(&fen.pieces);
        let white = board.bitboard(Piece::WhiteKing);
        let black = board.bitboard(Piece::BlackKing);
        proof {
            lemma_one_on(board, fen.pieces, Piece::WhiteKing);
            lemma_one_on(board, fen.pieces, Piece::BlackKing);
        }
        if is_one_square(white.0) && is_one_square(black.0) {
            Some(
                Position {
                    state: State { rights: fen.castling, en_passant: fen.en_passant },
                    pieces: fen.pieces,
                    board,
                    player: fen.color,
                },
            )
        } else {
            None
        }
    }

    /// Returns the position of the standard start of a game: white to move,
    /// all castling rights, no en passant square.
    pub fn standard() -> (r: Position)
        ensures
            forall|i: int| 0 <= i < 64 ==> #[trigger] r.spec_pieces().at(i) == standard_at(i),
            r.spec_player() == Color::White,
            r.spec_rights().bits() == 15,
            r.spec_en_passant().is_none(),
    {
        let pieces = PieceMap::standard();
        let board = MultiBoard::from_map(&pieces);
        proof {
            lemma_one_on(board, pieces, Piece::WhiteKing);
            lemma_one_on(board, pieces, Piece::BlackKing);
            assert forall|t: int| 0 <= t < 64 implies (pieces.at(t) == Some(Piece::WhiteKing)
                <==> t == 4) by {
                assert(t == t / 8 * 8 + t % 8);
            }
            assert forall|t: int| 0 <= t < 64 implies (pieces.at(t) == Some(Piece::BlackKing)
                <==> t == 60) by {
                assert(t == t / 8 * 8 + t % 8);
            }
            assert(pieces.at(4) == Some(Piece::WhiteKing));
            assert(pieces.at(60) == Some(Piece::BlackKing));
            assert(one_on(pieces, Piece::WhiteKing));
            assert(one_on(pieces, Piece::BlackKing));
        }
        Position {
            state: State { rights: CastleRights::full(), en_passant: None },
            pieces,
            board,
            player: Color::White,
        }
    }

    /// Returns the pieces of `self`, square by square.
    pub fn pieces(&self) -> (r: &PieceMap)
        ensures
            *r == self.spec_pieces(),
    {
        &self.pieces
    }

    /// Returns the pieces of `self`, as bitboards.
    pub fn board(&self) -> (r: &MultiBoard)
        ensures
            *r == self.spec_board(),
            mirrors(*r, self.spec_pieces()),
    {
        proof {
            use_type_invariant(self);
        }
        &self.board
    }

    /// Returns the side to move.
    pub fn player(&self) -> (r: Color)
        ensures
            r == self.spec_player(),
    {
        self.player
    }

    /// Returns the squares of the pieces of the side to move.
    pub fn player_bitboard(&self) -> (r: Bitboard)
        ensures
            r.0 == self.spec_board().color_bits(self.spec_player()),
    {
        self.board.color_board(self.player)
    }

    /// Returns the side not to move.
    pub fn opponent(&self) -> (r: Color)
        ensures
            r == self.spec_player().other(),
    {
        self.player.not()
    }

    /// Returns the squares of the pieces of the side not to move.
    pub fn opponent_bitboard(&self) -> (r: Bitboard)
        ensures
            r.0 == self.spec_board().color_bits(self.spec_player().other()),
    {
        self.board.color_board(self.player.not())
    }

    /// Returns the en passant target square, if any.
    pub fn en_passant(&self) -> (r: Option<Square>)
        ensures
            r == self.spec_en_passant(),
    {
        self.state.en_passant
    }

    /// Returns the castling rights of both sides.
    pub fn rights(&self) -> (r: CastleRights)
        ensures
            r == self.spec_rights(),
    {
        self.state.rights
    }

    /// Returns the square of the king of `color`.
    pub fn king_square(&self, color: Color) -> (r: Square)
        ensures
            r.idx() == self.spec_king_square(color),
            self.spec_pieces().at(r.idx()) == Some(piece_of(PieceKind::King, color)),
            forall|t: int|
                #![trigger self.spec_pieces().at(t)]
                0 <= t < 64 && self.spec_pieces().at(t) == Some(piece_of(PieceKind::King, color))
                    ==> t == r.idx(),
    {
        proof {
            use_type_invariant(self);
        }
        let piece = Piece::new(PieceKind::King, color);
        let kings = self.board.bitboard(piece);
        proof {
            lemma_one_on(self.board, self.pieces, piece);
        }
        let r = kings.lsb_unchecked();
        proof {
            lemma_piece_bits(self.board, self.pieces, piece, r.idx());
            assert forall|t: int|
                #![trigger self.spec_pieces().at(t)]
                0 <= t < 64 && self.spec_pieces().at(t) == Some(piece_of(PieceKind::King, color))
                    implies t == r.idx() by {
                lemma_piece_bits(self.board, self.pieces, piece, t);
            }
        }
        r
    }

    /// Returns whether `value` (a square, a piece, a piece kind or a color)
    /// is on the board of `self`.
    pub fn contains<T: Contained>(&self, value: T) -> (r: bool)
        ensures
            r == value.spec_contained_in(*self),
    {
        value.contained_in(self)
    }

    /// Returns whether `mv`, a castling move, is legal in `self`. The right
    /// it uses is found from the king's destination: G1, C1, G8 or C8; a
    /// castling move to any other square is not legal. Legality of the other
    /// kinds of moves is not decided here.
    pub fn is_legal(&self, mv: Move) -> (r: bool)
        requires
            mv.spec_kind() == MoveKind::Castle.idx(),
        ensures
            r == self.castle_is_legal(mv),
    {
        let player = self.player;
        let king = self.king_square(player);
        let board = &self.board;
        let checked = board.is_attacked(king, player);
        if checked {
            return false;
        }
        let to = mv.to().index();
        let right = if to == 6 {
            CastleRight::WhiteKingside
        } else if to == 2 {
            CastleRight::WhiteQueenside
        } else if to == 62 {
            CastleRight::BlackKingside
        } else if to == 58 {
            CastleRight::BlackQueenside
        } else {
            return false;
        };
        if right.color() != player || !self.state.rights.contains(right) {
            return false;
        }
        let path = right.path();
        let mut i: u8 = 0;
        while i < 64
            invariant
                i <= 64,
                path.0 == right.spec_path(),
                *board == self.spec_board(),
                player == self.spec_player(),
                !attacked(self.spec_board(), self.spec_king_square(player), player),
                castle_right_to(mv.spec_to()) == Some(right),
                right.spec_color() == player,
                self.spec_rights().has(right),
                forall|t: int| 0 <= t < i && #[trigger] path.has(t) ==> !attacked(*board, t, player),
            decreases 64 - i,
        {
            let sq = Square::from_index(i);
            if path.contains(sq) && board.is_attacked(sq, player) {
                return false;
            }
            i = i + 1;
        }
        true
    }
}

/// Exactly one square of `map` holds `p`.
pub open spec fn one_on(map: PieceMap, p: Piece) -> bool {
    (exists|s: int| 0 <= s < 64 && #[trigger] map.at(s) == Some(p)) && forall|s: int, t: int|
        0 <= s < 64 && 0 <= t < 64 && #[trigger] map.at(s) == Some(p) && #[trigger] map.at(t)
            == Some(p) ==> s == t
}

proof fn lemma_one_on(board: MultiBoard, map: PieceMap, p: Piece)
    requires
        mirrors(board, map),
    ensures
        one_square(board.piece_bits(p)) <==> one_on(map, p),
{
    let b = Bitboard(board.piece_bits(p));
    assert forall|t: int| 0 <= t < 64 implies (#[trigger] b.has(t) <==> map.at(t) == Some(p)) by {
        lemma_piece_bits(board, map, p, t);
    }
    lemma_nonzero(b);
    if one_square(b.0) {
        let s = choose|s: int| #[trigger] b.has(s);
        assert(map.at(s) == Some(p));
        assert forall|s: int, t: int|
            0 <= s < 64 && 0 <= t < 64 && #[trigger] map.at(s) == Some(p) && #[trigger] map.at(t)
                == Some(p) implies s == t by {
            assert(b.has(s) && b.has(t));
        }
    }
    if one_on(map, p) {
        let s = choose|s: int| 0 <= s < 64 && #[trigger] map.at(s) == Some(p);
        assert(b.has(s));
        assert forall|s: int, t: int| #[trigger] b.has(s) && #[trigger] b.has(t) implies s == t by {
            assert(map.at(s) == Some(p) && map.at(t) == Some(p));
        }
    }
}

impl PartialEq for Position {
    /// Two positions are equal when their pieces, side to move and state
    /// are; the bitboards are not compared, since the pieces determine them.
    fn eq(&self, other: &Position) -> (r: bool) {
        let same_square = match (self.state.en_passant, other.state.en_passant) {
            (Some(a), Some(b)) => a == b,
            (None, None) => true,
            _ => false,
        };
        let same_pieces = self.pieces == other.pieces;
        assert(same_pieces == (forall|i: int|
            0 <= i < 64 ==> #[trigger] self.spec_pieces().at(i) == other.spec_pieces().at(i)));
        let same_rights = self.state.rights == other.state.rights;
        assert(same_rights == (self.spec_rights() == other.spec_rights()));
        assert(same_square == (self.spec_en_passant() == other.spec_en_passant()));
        same_pieces && self.player == other.player && same_rights && same_square
    }
}

impl vstd::std_specs::cmp::PartialEqSpecImpl for Position {
    open spec fn obeys_eq_spec() -> bool {
        true
    }

    open spec fn eq_spec(&self, other: &Position) -> bool {
        (forall|i: int| 0 <= i < 64 ==> #[trigger] self.spec_pieces().at(i) == other.spec_pieces().at(i))
            && self.spec_player() == other.spec_player() && self.spec_rights()
            == other.spec_rights() && self.spec_en_passant() == other.spec_en_passant()
    }
}

impl Eq for Position {

}

impl Default for Position {
    fn default() -> (r: Position)
        ensures
            forall|i: int| 0 <= i < 64 ==> #[trigger] r.spec_pieces().at(i) == standard_at(i),
            r.spec_player() == Color::White,
            r.spec_rights().bits() == 15,
            r.spec_en_passant().is_none(),
    {
        Position::standard()
    }
}

/// A value that a [`Position`] may contain: a square (occupied or not), a
/// piece, a piece kind or a color.
pub trait Contained: Sized + Copy {
    /// Whether `self` is on the board of `pos`.
    spec fn spec_contained_in(self, pos: Position) -> bool;

    /// Returns whether `self` is on the board of `pos`.
    fn contained_in(self, pos: &Position) -> (r: bool)
        ensures
            r == self.spec_contained_in(*pos),
    ;
}

impl Contained for Square {
    /// A piece stands on the square.
    open spec fn spec_contained_in(self, pos: Position) -> bool {
        pos.spec_pieces().at(self.idx()).is_some()
    }

    fn contained_in(self, pos: &Position) -> (r: bool) {
        pos.pieces().contains(self)
    }
}

impl Contained for Piece {
    /// Some square holds the piece.
    open spec fn spec_contained_in(self, pos: Position) -> bool {
        pos.spec_board().piece_bits(self) != 0
    }

    fn contained_in(self, pos: &Position) -> (r: bool) {
        !pos.board().bitboard(self).is_empty()
    }
}

impl Contained for PieceKind {
    /// Some square holds a piece of the kind.
    open spec fn spec_contained_in(self, pos: Position) -> bool {
        pos.spec_board().kind_bits(self) != 0
    }

    fn contained_in(self, pos: &Position) -> (r: bool) {
        !pos.board().bitboard(self).is_empty()
    }
}

impl Contained for Color {
    /// Some square holds a piece of the color.
    open spec fn spec_contained_in(self, pos: Position) -> bool {
        pos.spec_board().color_bits(self) != 0
    }

    fn contained_in(self, pos: &Position) -> (r: bool) {
        !pos.board().bitboard(self).is_empty()
    }
}

} // verus!
