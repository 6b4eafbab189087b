//! Board representation and attack/legality engine for a chess program.
//!
//! The board is held twice: as bitboards (64-bit sets of squares) by piece
//! kind and color, and square by square. The library gives the squares that
//! each piece attacks, the castling rights and their text, a packed move, and
//! a position that keeps both boards in agreement and decides whether a
//! castling move is legal. It also holds the decisions of the engine's text
//! protocol and its transposition table.

pub mod attacks;
pub mod bitboard;
pub mod castle;
pub mod color;
pub mod engine;
pub mod multi_board;
pub mod mv;
pub mod piece;
pub mod piece_map;
pub mod position;
pub mod square;
pub mod table;
pub mod text;

pub use bitboard::Bitboard;
pub use castle::{CastleRight, CastleRights, CastleSide};
pub use color::Color;
pub use engine::{Command, Engine, Limits, OptionRequest, Options, Uci};
pub use multi_board::{Index, MultiBoard, SegBoard};
pub use mv::{Move, MoveKind, MoveVec};
pub use piece::{Piece, PieceKind, Promotion};
pub use piece_map::PieceMap;
pub use position::{Contained, Fen, Position, State};
pub use square::{File, Rank, Square};
pub use table::Table;
