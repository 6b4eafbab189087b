use hexe::castle::FromStrError as RightsError;
use hexe::{
    Bitboard, CastleRight, CastleRights, Color, Fen, File, Move, MoveKind, MultiBoard, Piece,
    PieceKind, PieceMap, Position, Promotion, Rank, Square,
};

fn sq(i: u8) -> Square {
    Square::from_index(i)
}

fn bits(squares: &[Square]) -> Bitboard {
    let mut b = Bitboard::empty();
    for &s in squares {
        b = b.union(Bitboard::from(s));
    }
    b
}

#[test]
fn single_square_sets() {
    for i in 0..64u8 {
        let b = Bitboard::from(sq(i));
        assert_eq!(b.len(), 1);
        for j in 0..64u8 {
            assert_eq!(b.contains(sq(j)), i == j);
        }
        assert_eq!(b.lsb(), Some(sq(i)));
    }
    assert_eq!(Bitboard::from(Square::E4).0, 1u64 << 28);
}

#[test]
fn bitboard_operations() {
    let a = Bitboard(0b1100);
    let b = Bitboard(0b1010);
    assert_eq!(a.union(b).0, 0b1110);
    assert_eq!(a.intersection(b).0, 0b1000);
    assert_eq!(a.difference(b).0, 0b0100);
    assert_eq!(a.symmetric_difference(b).0, 0b0110);
    assert_eq!(Bitboard::empty().complement().0, u64::MAX);
    assert_eq!(a.shl(2).0, 0b110000);
    assert_eq!(a.shr(2).0, 0b11);
    assert_eq!(a.shl(64).0, 0);
    assert_eq!(a.shr(100).0, 0);
    assert_eq!(Bitboard::full().shl(63).0, 1u64 << 63);
    assert!(Bitboard::empty().is_empty());
    assert_eq!(Bitboard::empty().lsb(), None);
    assert_eq!(Bitboard::full().len(), 64);
    assert!(a.contains_all(Bitboard(0b0100)));
    assert!(!a.contains_all(b));
    assert_eq!(Bitboard::from(File::B).0, 0x0202_0202_0202_0202);
    assert_eq!(Bitboard::from(Rank::Two).0, 0xFF00);
    assert_eq!(Bitboard::from_color(Color::White).0, 0x0000_0000_FFFF_FFFF);
    assert_eq!(Bitboard::from_color(Color::Black).0, 0xFFFF_FFFF_0000_0000);
    assert_eq!(u64::from(Bitboard::from(0x42u64)), 0x42);
}

#[test]
fn castle_twice_restores() {
    let rights = [
        CastleRight::WhiteKingside,
        CastleRight::WhiteQueenside,
        CastleRight::BlackKingside,
        CastleRight::BlackQueenside,
    ];
    for &right in rights.iter() {
        let mut board = MultiBoard::standard();
        let clone = board.clone();
        board.castle(right);
        assert!(board != clone);
        board.castle(right);
        assert!(board == clone);
    }
}

#[test]
fn castle_moves_king_and_rook() {
    let mut board = MultiBoard::standard();
    board.remove_all(bits(&[Square::B1, Square::C1, Square::D1]));
    board.castle(CastleRight::WhiteQueenside);
    assert!(board.contains(Bitboard::from(Square::C1), Piece::WhiteKing));
    assert!(board.contains(Bitboard::from(Square::D1), Piece::WhiteRook));
    assert!(!board.contains(Bitboard::from(Square::E1), Piece::WhiteKing));
    assert!(!board.contains(Bitboard::from(Square::A1), Piece::WhiteRook));
}

#[test]
fn tri_index_symmetric() {
    for i in 0..64u8 {
        for j in 0..64u8 {
            let t = sq(i).tri_index(sq(j));
            assert_eq!(t, sq(j).tri_index(sq(i)));
            assert!(t < 2080);
        }
    }
    assert_eq!(Square::A1.tri_index(Square::A1), 0);
    assert_eq!(Square::A1.tri_index(Square::H8), 63);
    assert_eq!(Square::H8.tri_index(Square::H8), 2079);
    assert_eq!(Square::B1.tri_index(Square::B1), 64);
}

#[test]
fn distance_to_self() {
    for i in 0..64u8 {
        let s = sq(i);
        assert_eq!(s.file().distance(s.file()), 0);
        assert_eq!(s.rank().distance(s.rank()), 0);
        assert_eq!(s.distance(s), 0);
        assert_eq!(s.man_distance(s), 0);
    }
    assert_eq!(Square::A1.distance(Square::H8), 7);
    assert_eq!(Square::A1.man_distance(Square::H8), 14);
    assert_eq!(Square::B1.distance(Square::C3), 2);
    assert_eq!(Square::B1.man_distance(Square::C3), 3);
    assert_eq!(Square::A1.center_distance(), 3);
    assert_eq!(Square::D4.center_distance(), 0);
    assert_eq!(Square::A1.center_man_distance(), 6);
}

#[test]
fn rights_text_round_trip() {
    for b in 0..16u8 {
        let rights = CastleRights::from_bits(b);
        let text = rights.to_string();
        let parsed: CastleRights = text.parse().unwrap();
        assert_eq!(parsed, rights);
        assert_eq!(parsed.to_string(), text);
    }
    assert_eq!(CastleRights::parse("x"), Err(RightsError));
    assert_eq!(CastleRights::parse("KQx"), Err(RightsError));
    assert_eq!(CastleRights::parse("-").unwrap(), CastleRights::empty());
    assert_eq!(CastleRights::parse("").unwrap(), CastleRights::empty());
    assert_eq!(CastleRights::parse("qK").unwrap().to_bits(), 0b1001);
    assert_eq!(CastleRights::from_bits(0xFF).to_bits(), 15);
}

#[test]
fn standard_position() {
    let pos = Position::default();
    assert_eq!(pos.king_square(Color::White), Square::E1);
    assert_eq!(pos.king_square(Color::Black), Square::E8);
    let board = MultiBoard::standard();
    assert_eq!(board.len(), 32);
    assert_eq!(board.count(Color::Black), 16);
    assert_eq!(board.count(Piece::WhiteRook), 2);
    assert_eq!(board.count(PieceKind::Queen), 2);
    assert!(board.contains(Bitboard::from(Square::C7), Color::Black));
    assert!(board.contains(Bitboard::from(Square::H1), Piece::WhiteRook));
    assert!(!board.contains(Bitboard::from(Square::H8), Piece::BlackPawn));
    assert_eq!(board.all_bits().0, 0xFFFF_0000_0000_FFFF);
    assert!(*pos.board() == board);
    assert_eq!(pos.player(), Color::White);
    assert_eq!(pos.opponent(), Color::Black);
    assert_eq!(pos.player_bitboard().0, 0xFFFF);
    assert_eq!(pos.opponent_bitboard().0, 0xFFFF_0000_0000_0000);
    assert_eq!(pos.en_passant(), None);
    assert_eq!(pos.rights(), CastleRights::full());
    assert!(pos.contains(Square::E2));
    assert!(!pos.contains(Square::E4));
    assert!(pos.contains(Piece::BlackQueen));
    assert!(pos.contains(PieceKind::Knight));
    assert!(pos.contains(Color::White));
    assert!(MultiBoard::default().is_empty());
    assert!(!board.is_empty());
}

fn castle_position(extra: &[(Square, Piece)]) -> Position {
    let mut pieces = PieceMap::standard();
    pieces.remove(Square::B1);
    pieces.remove(Square::C1);
    pieces.remove(Square::D1);
    for &(s, p) in extra {
        pieces.insert(s, p);
    }
    let fen = Fen {
        pieces,
        color: Color::White,
        castling: CastleRights::full(),
        en_passant: None,
        halfmoves: 0,
        fullmoves: 1,
    };
    Position::from_fen(&fen).unwrap()
}

fn queen_side() -> Move {
    Move::new(Square::E1, Square::C1, Promotion::Knight, MoveKind::Castle)
}

#[test]
fn castling_legality() {
    assert!(castle_position(&[]).is_legal(queen_side()));
    // a knight on E3 attacks D1, a square of the path
    assert!(!castle_position(&[(Square::E3, Piece::BlackKnight)]).is_legal(queen_side()));
    // a knight on D3 attacks E1: the king is in check
    assert!(!castle_position(&[(Square::D3, Piece::BlackKnight)]).is_legal(queen_side()));
    // the squares of the king side are attacked by nothing either
    let king_side = Move::new(Square::E1, Square::G1, Promotion::Knight, MoveKind::Castle);
    assert!(castle_position(&[]).is_legal(king_side));
    let black = Move::new(Square::E8, Square::C8, Promotion::Knight, MoveKind::Castle);
    assert!(!castle_position(&[]).is_legal(black));
    let elsewhere = Move::new(Square::E1, Square::D1, Promotion::Knight, MoveKind::Castle);
    assert!(!castle_position(&[]).is_legal(elsewhere));
}

#[test]
fn castling_needs_the_right() {
    let mut pieces = PieceMap::standard();
    pieces.remove(Square::B1);
    pieces.remove(Square::C1);
    pieces.remove(Square::D1);
    let fen = Fen {
        pieces,
        color: Color::White,
        castling: CastleRights::from_right(CastleRight::WhiteKingside),
        en_passant: None,
        halfmoves: 0,
        fullmoves: 1,
    };
    let pos = Position::from_fen(&fen).unwrap();
    assert!(!pos.is_legal(queen_side()));
}

#[test]
fn fen_needs_one_king_each() {
    let mut pieces = PieceMap::standard();
    pieces.remove(Square::E8);
    let fen = Fen {
        pieces,
        color: Color::White,
        castling: CastleRights::empty(),
        en_passant: None,
        halfmoves: 0,
        fullmoves: 1,
    };
    assert!(Position::from_fen(&fen).is_none());
    let mut two = PieceMap::standard();
    two.insert(Square::E4, Piece::WhiteKing);
    let fen = Fen { pieces: two, ..fen };
    assert!(Position::from_fen(&fen).is_none());
    let fen = Fen { pieces: PieceMap::standard(), ..fen };
    let pos = Position::from_fen(&fen).unwrap();
    assert!(*pos.pieces() == PieceMap::standard());
    assert_eq!(pos.rights(), CastleRights::empty());
    assert!(pos != Position::default());
    let fen = Fen { castling: CastleRights::full(), ..fen };
    assert!(Position::from_fen(&fen).unwrap() == Position::default());
}

#[test]
fn insert_then_remove() {
    let mut board = MultiBoard::standard();
    let b = bits(&[Square::E4, Square::E2, Square::D8]);
    board.insert(b, Piece::WhiteQueen);
    assert!(board.contains(b, Piece::WhiteQueen));
    assert_eq!(board.count(PieceKind::Pawn), 15);
    assert_eq!(board.count(PieceKind::Queen), 4);
    board.remove(b, Piece::WhiteQueen);
    assert_eq!(board.color_board(Color::White).intersection(b).0, 0);
    assert_eq!(board.kind_board(PieceKind::Queen).intersection(b).0, 0);

    let mut board = MultiBoard::standard();
    board.remove(bits(&[Square::A1, Square::A8]), Color::White);
    assert!(!board.contains(Bitboard::from(Square::A1), PieceKind::Rook));
    assert!(board.contains(Bitboard::from(Square::A8), Piece::BlackRook));
    board.remove(Bitboard::from(Square::A8), PieceKind::Rook);
    assert!(!board.contains(Bitboard::from(Square::A8), Color::Black));
    board.remove_unchecked(Bitboard::from(Square::H8), Piece::BlackRook);
    assert_eq!(board.count(PieceKind::Rook), 1);
    board.insert_unchecked(Bitboard::from(Square::E4), Piece::BlackKnight);
    assert!(board.contains(Bitboard::from(Square::E4), Piece::BlackKnight));
    board.clear();
    assert!(board.is_empty());
}

#[test]
fn remove_piece_keeps_other_pieces() {
    let mut board = MultiBoard::standard();
    board.remove(Bitboard::from(Square::B1), Piece::WhiteKing);
    assert!(board == MultiBoard::standard());
    board.remove(bits(&[Square::B1, Square::E1, Square::E2]), Piece::WhiteKing);
    assert!(board.contains(Bitboard::from(Square::B1), Piece::WhiteKnight));
    assert!(board.contains(Bitboard::from(Square::E2), Piece::WhitePawn));
    assert_eq!(board.count(PieceKind::King), 1);
    assert_eq!(board.count(Color::White), 15);
}

#[test]
fn attack_sets() {
    let occ = bits(&[Square::A3, Square::C1]);
    let exp = bits(&[Square::A2, Square::B1, Square::A3, Square::C1]);
    assert_eq!(Square::A1.rook_attacks(occ), exp);
    let exp = bits(&[Square::B2, Square::C3]);
    assert_eq!(Square::A1.bishop_attacks(Bitboard::from(Square::C3)), exp);
    assert_eq!(Square::A1.knight_attacks(), bits(&[Square::B3, Square::C2]));
    assert_eq!(
        Square::E1.king_attacks(),
        bits(&[Square::D1, Square::F1, Square::D2, Square::E2, Square::F2])
    );
    assert_eq!(Square::E4.pawn_attacks(Color::White), bits(&[Square::D5, Square::F5]));
    assert_eq!(Square::E4.pawn_attacks(Color::Black), bits(&[Square::D3, Square::F3]));
    assert_eq!(Square::A2.pawn_attacks(Color::White), bits(&[Square::B3]));
    assert_eq!(Square::D4.queen_attacks(Bitboard::full()).len(), 8);
    assert_eq!(Square::D4.queen_attacks(Bitboard::empty()).len(), 27);
    for i in 0..64u8 {
        let s = sq(i);
        for j in 0..64u8 {
            if s.knight_attacks().contains(sq(j)) {
                assert_eq!(s.distance(sq(j)), 2);
                assert_eq!(s.man_distance(sq(j)), 3);
            }
        }
    }
}

#[test]
fn square_geometry() {
    assert_eq!(Square::new(File::B, Rank::Five), Square::B5);
    assert_eq!(Square::B5.file(), File::B);
    assert_eq!(Square::B5.rank(), Rank::Five);
    assert_eq!(Square::B2.rev_file(), Square::G2);
    assert_eq!(Square::B2.rev_rank(), Square::B7);
    assert_eq!(Square::B5.combine(Square::C7), Square::B7);
    assert_eq!(Square::C7.combine(Square::B5), Square::C5);
    assert_eq!(Square::A1.color(), Color::Black);
    assert_eq!(Square::B5.color(), Color::White);
    assert!(Square::A1.color_eq(Square::H8));
    assert!(!Square::A1.color_eq(Square::A2));
    assert!(Square::A3.is_aligned(Square::C5, Square::F8));
    assert!(!Square::A4.is_aligned(Square::C5, Square::F8));
    assert!(Square::D4.is_between(Square::B2, Square::G7));
    assert!(!Square::H8.is_between(Square::B2, Square::G7));
    assert_eq!(Square::H8.up(), None);
    assert_eq!(Square::E4.up(), Some(Square::E5));
    assert_eq!(Square::E4.down(), Some(Square::E3));
    assert_eq!(Square::A1.down(), None);
    assert_eq!(Square::H4.right(), None);
    assert_eq!(Square::E4.right(), Some(Square::F4));
    assert_eq!(Square::A4.left(), None);
    assert_eq!(Square::E4.left(), Some(Square::D4));
    assert_eq!(File::C.adjacent_mask(), Bitboard::from(File::B).union(Bitboard::from(File::D)));
    assert_eq!(File::A.adjacent_mask(), Bitboard::from(File::B));
    assert_eq!(Rank::Five.adjacent_mask(), Bitboard::from(Rank::Four).union(Bitboard::from(Rank::Six)));
    assert_eq!(Rank::Three.rem_distance(Color::White), 5);
    assert_eq!(Rank::Three.rem_distance(Color::Black), 2);
    assert_eq!(Rank::first(Color::Black), Rank::Eight);
    assert_eq!(Rank::last(Color::White), Rank::Eight);
    assert_eq!(File::C.not(), File::F);
    assert_eq!(Rank::Two.not(), Rank::Seven);
    assert_eq!(File::from_char('g'), Some(File::G));
    assert_eq!(File::from_char('H'), Some(File::H));
    assert_eq!(File::from_char('i'), None);
    assert_eq!(Rank::from_char('8'), Some(Rank::Eight));
    assert_eq!(Rank::from_char('9'), None);
    assert_eq!(File::E.into_char(), 'E');
    assert_eq!(Rank::Four.into_char(), '4');
}

#[test]
fn square_text() {
    assert_eq!("e4".parse::<Square>().unwrap(), Square::E4);
    assert_eq!("H8".parse::<Square>().unwrap(), Square::H8);
    assert!("i1".parse::<Square>().is_err());
    assert!("e9".parse::<Square>().is_err());
    assert!("e".parse::<Square>().is_err());
    assert!("e44".parse::<Square>().is_err());
    assert_eq!(Square::A5.to_string(), "A5");
    assert_eq!(Square::H1.to_string(), "H1");
}

#[test]
fn packed_move() {
    let m = Move::new(Square::E7, Square::E8, Promotion::Queen, MoveKind::Promotion);
    assert_eq!(m.from(), Square::E7);
    assert_eq!(m.to(), Square::E8);
    assert_eq!(m.promotion(), Promotion::Queen);
    assert_eq!(m.kind(), MoveKind::Promotion);
    let m = Move::new(Square::H8, Square::A1, Promotion::Knight, MoveKind::EnPassant);
    assert_eq!(m.from(), Square::H8);
    assert_eq!(m.to(), Square::A1);
    assert_eq!(m.promotion(), Promotion::Knight);
    assert_eq!(m.kind(), MoveKind::EnPassant);
    let moves = hexe::MoveVec::new();
    assert_eq!(moves.len(), 0);
    assert!(moves.clone() == moves);
    assert!(hexe::MoveVec::default() == moves);
}

#[test]
fn pieces_and_kinds() {
    assert_eq!(Piece::new(PieceKind::Rook, Color::Black), Piece::BlackRook);
    assert_eq!(Piece::BlackRook.kind(), PieceKind::Rook);
    assert_eq!(Piece::BlackRook.color(), Color::Black);
    assert_eq!(Piece::BlackRook.into_char(), 'r');
    assert_eq!(Piece::WhiteKing.into_char(), 'K');
    assert_eq!(PieceKind::Knight.into_str(), "Knight");
    assert!(PieceKind::Queen.is_promotion());
    assert!(!PieceKind::King.is_promotion());
    assert_eq!(Promotion::from_kind(PieceKind::Bishop), Some(Promotion::Bishop));
    assert_eq!(Promotion::from_kind(PieceKind::Pawn), None);
    assert_eq!(Promotion::Rook.kind(), PieceKind::Rook);
    assert_eq!("QUEEN".parse::<PieceKind>(), Ok(PieceKind::Queen));
    assert_eq!("n".parse::<PieceKind>(), Ok(PieceKind::Knight));
    assert_eq!("queens".parse::<PieceKind>(), Err(()));
    assert_eq!("x".parse::<PieceKind>(), Err(()));
    assert_eq!(PieceKind::from_char('k'), Some(PieceKind::King));
    assert_eq!(Color::White.not(), Color::Black);
    assert_eq!(Color::Black.into_str(), "Black");
    assert_eq!(CastleRight::from_char('x'), None);
    assert_eq!(CastleRights::from_color(Color::Black).to_string(), "kq");
    assert_eq!(
        CastleRights::full().difference(CastleRights::from_color(Color::White)).to_string(),
        "kq"
    );
    let mut table = [0u32; 16];
    *CastleRights::from_bits(5).extract_mut(&mut table) = 7;
    assert_eq!(*CastleRights::from_bits(5).extract(&table), 7);
    assert_eq!(table[5], 7);
}
