use hexe::castle::{PATH_BLACK_KINGSIDE, PATH_BLACK_QUEENSIDE, PATH_WHITE_KINGSIDE, PATH_WHITE_QUEENSIDE};
use hexe::Color::{Black, White};
use hexe::{CastleRight, CastleRights, CastleSide, Color, PieceKind, Position, Square};

const ALL_RIGHTS: [CastleRight; 4] = [
    CastleRight::WhiteKingside,
    CastleRight::WhiteQueenside,
    CastleRight::BlackKingside,
    CastleRight::BlackQueenside,
];

#[test]
fn castle_right_new() {
    for &side in &[CastleSide::King, CastleSide::Queen] {
        for &color in &[Color::White, Color::Black] {
            let right = CastleRight::new(color, side);
            assert_eq!(right.side(), side);
            assert_eq!(right.color(), color);
        }
    }
}

#[test]
fn castle_right_char() {
    for &right in ALL_RIGHTS.iter() {
        assert!(CastleRights::full().contains(right));
        let ch = right.into_char();
        assert_eq!(Some(right), CastleRight::from_char(ch));
    }
}

#[test]
fn castle_right_path() {
    fn path(right: CastleRight) -> u64 {
        match right {
            CastleRight::WhiteKingside => PATH_WHITE_KINGSIDE,
            CastleRight::BlackKingside => PATH_BLACK_KINGSIDE,
            CastleRight::WhiteQueenside => PATH_WHITE_QUEENSIDE,
            CastleRight::BlackQueenside => PATH_BLACK_QUEENSIDE,
        }
    }
    for &right in ALL_RIGHTS.iter() {
        assert_eq!(right.path().0, path(right));
    }
}

#[test]
fn castle_rights_string() {
    let pairs = [
        (CastleRights::full(), "KQkq"),
        (CastleRights::empty(), "-"),
        (CastleRights::from_right(CastleRight::BlackKingside), "k"),
        (
            CastleRights::from_right(CastleRight::BlackKingside)
                .union(CastleRights::from_right(CastleRight::WhiteQueenside)),
            "Qk",
        ),
    ];

    for &(rights, exp) in &pairs {
        let s = rights.to_string();
        assert_eq!(s, exp);
        assert_eq!(rights, s.parse::<CastleRights>().unwrap());
    }
}

#[test]
fn from_str() {
    let strings: &[(&str, Color)] = &[
        ("white", White), ("black", Black),
        ("WHITE", White), ("BLACK", Black),
        ("wHiTe", White), ("BlAcK", Black),
        ("w", White),     ("b", Black),
        ("W", White),     ("B", Black),
    ];

    let fails: &[&str] = &[
        "whit",  "blac",
        "whits", "block",
        "a", "c", "d"
    ];

    for &(s, c) in strings {
        assert_eq!(s.parse().ok(), Some(c));
    }

    for &f in fails {
        assert_eq!(f.parse::<Color>().ok(), None);
    }
}

const CHARS: [char; 6] = ['P', 'N', 'B', 'R', 'Q', 'K'];

#[test]
fn piece_kind_char() {
    for i in 0..6 {
        let ch = CHARS[i];
        let pk = PieceKind::from_index(i as u8);
        assert_eq!(pk.into_char(), ch);
    }
}

#[test]
fn piece_kind_from_str() {
    for pk in (0..6u8).map(PieceKind::from_index) {
        let s = format!("{:?}", pk);
        assert_eq!(Some(pk), s.parse().ok());
    }

    for (i, ch) in CHARS.iter().enumerate() {
        assert_eq!(
            Some(PieceKind::from_index(i as u8)),
            ch.encode_utf8(&mut [0; 1]).parse().ok()
        );
    }
}

#[test]
fn initial_pieces() {
    let pos = Position::default();
    let all = pos.board().all_bits();

    for i in 0..64u8 {
        let square = Square::from_index(i);
        if let Some(piece) = pos.pieces().get(square) {
            assert!(all.contains(square));

            let board = pos.board();
            let bits = hexe::Bitboard::from(square);
            assert!(board.contains(bits, piece));
            assert!(board.contains(bits, piece.kind()));
            assert!(board.contains(bits, piece.color()));
        } else {
            let (a, b) = pos.board().split();
            for slice in [&a[..], &b[..]] {
                for &bitboard in slice {
                    assert!(!bitboard.contains(square));
                }
            }
        }
    }
}
