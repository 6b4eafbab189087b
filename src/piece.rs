//! Chess pieces and their kinds.

use vstd::prelude::*;
use vstd::string::*;

use crate::color::Color;
use crate::text::{lower, matches_ignore_case, matches_word, to_lower};

verus! {

/// A chess piece: a kind and a color.
#[derive(Copy, Clone, Debug, Hash, PartialEq, Eq, Structural)]
#[allow(missing_docs)]
pub enum Piece {
    WhitePawn,
    BlackPawn,
    WhiteKnight,
    BlackKnight,
    WhiteBishop,
    BlackBishop,
    WhiteRook,
    BlackRook,
    WhiteQueen,
    BlackQueen,
    WhiteKing,
    BlackKing,
}

/// A kind of chess piece.
#[derive(Copy, Clone, Debug, Hash, PartialEq, Eq, Structural)]
#[allow(missing_docs)]
pub enum PieceKind {
    Pawn,
    Knight,
    Bishop,
    Rook,
    Queen,
    King,
}

/// A piece kind that a pawn may promote to.
#[derive(Copy, Clone, Debug, Hash, PartialEq, Eq, Structural)]
#[allow(missing_docs)]
pub enum Promotion {
    Knight,
    Bishop,
    Rook,
    Queen,
}

impl Piece {
    /// The kind of the piece.
    pub open spec fn spec_kind(self) -> PieceKind {
        match self {
            Piece::WhitePawn | Piece::BlackPawn => PieceKind::Pawn,
            Piece::WhiteKnight | Piece::BlackKnight => PieceKind::Knight,
            Piece::WhiteBishop | Piece::BlackBishop => PieceKind::Bishop,
            Piece::WhiteRook | Piece::BlackRook => PieceKind::Rook,
            Piece::WhiteQueen | Piece::BlackQueen => PieceKind::Queen,
            Piece::WhiteKing | Piece::BlackKing => PieceKind::King,
        }
    }

    /// The color of the piece.
    pub open spec fn spec_color(self) -> Color {
        match self {
            Piece::WhitePawn | Piece::WhiteKnight | Piece::WhiteBishop | Piece::WhiteRook
            | Piece::WhiteQueen | Piece::WhiteKing => Color::White,
            _ => Color::Black,
        }
    }

    /// The letter of the piece in board notation: upper case for white, lower case for black.
    pub open spec fn spec_char(self) -> char {
        let c = self.spec_kind().spec_char();
        if self.spec_color() == Color::White {
            c
        } else {
            lower(c)
        }
    }

    /// Returns the piece of `kind` and `color`.
    pub fn new(kind: PieceKind, color: Color) -> (r: Piece)
        ensures
            r.spec_kind() == kind,
            r.spec_color() == color,
    {
        match (kind, color) {
            (PieceKind::Pawn, Color::White) => Piece::WhitePawn,
            (PieceKind::Pawn, Color::Black) => Piece::BlackPawn,
            (PieceKind::Knight, Color::White) => Piece::WhiteKnight,
            (PieceKind::Knight, Color::Black) => Piece::BlackKnight,
            (PieceKind::Bishop, Color::White) => Piece::WhiteBishop,
            (PieceKind::Bishop, Color::Black) => Piece::BlackBishop,
            (PieceKind::Rook, Color::White) => Piece::WhiteRook,
            (PieceKind::Rook, Color::Black) => Piece::BlackRook,
            (PieceKind::Queen, Color::White) => Piece::WhiteQueen,
            (PieceKind::Queen, Color::Black) => Piece::BlackQueen,
            (PieceKind::King, Color::White) => Piece::WhiteKing,
            (PieceKind::King, Color::Black) => Piece::BlackKing,
        }
    }

    /// Returns the kind of `self`.
    pub fn kind(&self) -> (r: PieceKind)
        ensures
            r == self.spec_kind(),
    {
        match self {
            Piece::WhitePawn | Piece::BlackPawn => PieceKind::Pawn,
            Piece::WhiteKnight | Piece::BlackKnight => PieceKind::Knight,
            Piece::WhiteBishop | Piece::BlackBishop => PieceKind::Bishop,
            Piece::WhiteRook | Piece::BlackRook => PieceKind::Rook,
            Piece::WhiteQueen | Piece::BlackQueen => PieceKind::Queen,
            Piece::WhiteKing | Piece::BlackKing => PieceKind::King,
        }
    }

    /// Returns the color of `self`.
    pub fn color(&self) -> (r: Color)
        ensures
            r == self.spec_color(),
    {
        match self {
            Piece::WhitePawn | Piece::WhiteKnight | Piece::WhiteBishop | Piece::WhiteRook
            | Piece::WhiteQueen | Piece::WhiteKing => Color::White,
            _ => Color::Black,
        }
    }

    /// Returns the letter of `self`: upper case for white, lower case for black.
    pub fn into_char(self) -> (r: char)
        ensures
            r == self.spec_char(),
    {
        let c = self.kind().into_char();
        match self.color() {
            Color::White => c,
            Color::Black => to_lower(c),
        }
    }
}

impl PieceKind {
    /// The upper-case letter of the kind.
    pub open spec fn spec_char(self) -> char {
        match self {
            PieceKind::Pawn => 'P',
            PieceKind::Knight => 'N',
            PieceKind::Bishop => 'B',
            PieceKind::Rook => 'R',
            PieceKind::Queen => 'Q',
            PieceKind::King => 'K',
        }
    }

    /// The lower-case name of the kind.
    pub open spec fn spec_name(self) -> Seq<char> {
        match self {
            PieceKind::Pawn => "pawn"@,
            PieceKind::Knight => "knight"@,
            PieceKind::Bishop => "bishop"@,
            PieceKind::Rook => "rook"@,
            PieceKind::Queen => "queen"@,
            PieceKind::King => "king"@,
        }
    }

    /// The index of the kind, from 0 (pawn) to 5 (king).
    pub open spec fn idx(self) -> int {
        match self {
            PieceKind::Pawn => 0,
            PieceKind::Knight => 1,
            PieceKind::Bishop => 2,
            PieceKind::Rook => 3,
            PieceKind::Queen => 4,
            PieceKind::King => 5,
        }
    }

    /// Whether a pawn may promote to the kind.
    pub open spec fn spec_is_promotion(self) -> bool {
        self != PieceKind::Pawn && self != PieceKind::King
    }

    /// Returns the index of `self`.
    pub fn index(self) -> (r: usize)
        ensures
            r == self.idx(),
    {
        match self {
            PieceKind::Pawn => 0,
            PieceKind::Knight => 1,
            PieceKind::Bishop => 2,
            PieceKind::Rook => 3,
            PieceKind::Queen => 4,
            PieceKind::King => 5,
        }
    }

    /// Returns the kind of index `i`.
    pub fn from_index(i: u8) -> (r: PieceKind)
        requires
            i < 6,
        ensures
            r.idx() == i,
    {
        match i {
            0 => PieceKind::Pawn,
            1 => PieceKind::Knight,
            2 => PieceKind::Bishop,
            3 => PieceKind::Rook,
            4 => PieceKind::Queen,
            _ => PieceKind::King,
        }
    }

    /// Returns the kind whose letter is `ch`, in either case.
    pub fn from_char(ch: char) -> (r: Option<PieceKind>)
        ensures
            r matches Some(k) ==> lower(ch) == lower(k.spec_char()),
            r.is_none() ==> forall|k: PieceKind| lower(ch) != lower(#[trigger] k.spec_char()),
    {
        match to_lower(ch) {
            'p' => Some(PieceKind::Pawn),
            'n' => Some(PieceKind::Knight),
            'b' => Some(PieceKind::Bishop),
            'r' => Some(PieceKind::Rook),
            'q' => Some(PieceKind::Queen),
            'k' => Some(PieceKind::King),
            _ => None,
        }
    }

    /// Returns the capitalized name of `self`.
    pub fn into_str(self) -> (r: &'static str)
        ensures
            r@ == match self {
                PieceKind::Pawn => "Pawn"@,
                PieceKind::Knight => "Knight"@,
                PieceKind::Bishop => "Bishop"@,
                PieceKind::Rook => "Rook"@,
                PieceKind::Queen => "Queen"@,
                PieceKind::King => "King"@,
            },
            matches_word(r@, self.spec_name()),
    {
        proof {
            reveal_strlit("Pawn");
            reveal_strlit("pawn");
            reveal_strlit("Knight");
            reveal_strlit("knight");
            reveal_strlit("Bishop");
            reveal_strlit("bishop");
            reveal_strlit("Rook");
            reveal_strlit("rook");
            reveal_strlit("Queen");
            reveal_strlit("queen");
            reveal_strlit("King");
            reveal_strlit("king");
        }
        match self {
            PieceKind::Pawn => "Pawn",
            PieceKind::Knight => "Knight",
            PieceKind::Bishop => "Bishop",
            PieceKind::Rook => "Rook",
            PieceKind::Queen => "Queen",
            PieceKind::King => "King",
        }
    }

    /// Returns the upper-case letter of `self`.
    pub fn into_char(self) -> (r: char)
        ensures
            r == self.spec_char(),
    {
        match self {
            PieceKind::Pawn => 'P',
            PieceKind::Knight => 'N',
            PieceKind::Bishop => 'B',
            PieceKind::Rook => 'R',
            PieceKind::Queen => 'Q',
            PieceKind::King => 'K',
        }
    }

    /// Returns whether a pawn may promote to `self`.
    pub fn is_promotion(&self) -> (r: bool)
        ensures
            r == self.spec_is_promotion(),
    {
        match self {
            PieceKind::Knight | PieceKind::Bishop | PieceKind::Rook | PieceKind::Queen => true,
            _ => false,
        }
    }

    /// Parses a piece kind from its name or its letter, in any case.
    pub fn parse(s: &str) -> (r: Option<PieceKind>)
        ensures
            r matches Some(k) ==> matches_word(s@, k.spec_name()) || (s@.len() == 1 && lower(s@[0])
                == lower(k.spec_char())),
            r.is_none() ==> forall|k: PieceKind|
                !matches_word(s@, #[trigger] k.spec_name()) && !(s@.len() == 1 && lower(s@[0])
                    == lower(k.spec_char())),
    {
        proof {
            reveal_strlit("pawn");
            reveal_strlit("knight");
            reveal_strlit("bishop");
            reveal_strlit("rook");
            reveal_strlit("queen");
            reveal_strlit("king");
        }
        if s.unicode_len() == 1 {
            return PieceKind::from_char(s.get_char(0));
        }
        if matches_ignore_case(s, "pawn") {
            Some(PieceKind::Pawn)
        } else if matches_ignore_case(s, "knight") {
            Some(PieceKind::Knight)
        } else if matches_ignore_case(s, "bishop") {
            Some(PieceKind::Bishop)
        } else if matches_ignore_case(s, "rook") {
            Some(PieceKind::Rook)
        } else if matches_ignore_case(s, "queen") {
            Some(PieceKind::Queen)
        } else if matches_ignore_case(s, "king") {
            Some(PieceKind::King)
        } else {
            None
        }
    }
}

impl Promotion {
    /// The piece kind of the promotion.
    pub open spec fn spec_kind(self) -> PieceKind {
        match self {
            Promotion::Knight => PieceKind::Knight,
            Promotion::Bishop => PieceKind::Bishop,
            Promotion::Rook => PieceKind::Rook,
            Promotion::Queen => PieceKind::Queen,
        }
    }

    /// Returns the promotion to `kind`, or `None` if a pawn cannot promote to it.
    pub fn from_kind(kind: PieceKind) -> (r: Option<Promotion>)
        ensures
            r.is_some() == kind.spec_is_promotion(),
            r matches Some(p) ==> p.spec_kind() == kind,
    {
        match kind {
            PieceKind::Knight => Some(Promotion::Knight),
            PieceKind::Bishop => Some(Promotion::Bishop),
            PieceKind::Rook => Some(Promotion::Rook),
            PieceKind::Queen => Some(Promotion::Queen),
            _ => None,
        }
    }

    /// Returns the piece kind of `self`.
    pub fn kind(self) -> (r: PieceKind)
        ensures
            r == self.spec_kind(),
    {
        match self {
            Promotion::Knight => PieceKind::Knight,
            Promotion::Bishop => PieceKind::Bishop,
            Promotion::Rook => PieceKind::Rook,
            Promotion::Queen => PieceKind::Queen,
        }
    }
}

impl core::str::FromStr for PieceKind {
    type Err = ();

    fn from_str(s: &str) -> Result<PieceKind, ()> {
        match PieceKind::parse(s) {
            Some(k) => Ok(k),
            None => Err(()),
        }
    }
}

} // verus!
