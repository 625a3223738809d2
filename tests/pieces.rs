use chess_core::castling_rights::{CastlingRight, CastlingRights};
use chess_core::color::Color;
use chess_core::piece::Piece;

#[test]
fn from_char() {
    assert_eq!(Piece::from_char('P'), Some(Piece::WhitePawn));
    assert_eq!(Piece::from_char('p'), Some(Piece::BlackPawn));

    assert_eq!(Piece::from_char('N'), Some(Piece::WhiteKnight));
    assert_eq!(Piece::from_char('n'), Some(Piece::BlackKnight));

    assert_eq!(Piece::from_char('B'), Some(Piece::WhiteBishop));
    assert_eq!(Piece::from_char('b'), Some(Piece::BlackBishop));

    assert_eq!(Piece::from_char('R'), Some(Piece::WhiteRook));
    assert_eq!(Piece::from_char('r'), Some(Piece::BlackRook));

    assert_eq!(Piece::from_char('Q'), Some(Piece::WhiteQueen));
    assert_eq!(Piece::from_char('q'), Some(Piece::BlackQueen));

    assert_eq!(Piece::from_char('K'), Some(Piece::WhiteKing));
    assert_eq!(Piece::from_char('k'), Some(Piece::BlackKing));

    assert_eq!(Piece::from_char('-'), None);
}

#[test]
fn piece_letters_round_trip() {
    for i in 0..12u8 {
        let p = Piece::new(i);
        assert_eq!(Piece::from_char(p.char().unwrap()), Some(p));
    }
    for c in ['1', '8', '-', '/', ' ', 'x', 'A', 'z'] {
        assert_eq!(Piece::from_char(c), None);
    }
    assert_eq!(Piece::NoPiece.char(), None);
}

#[test]
fn piece_colors() {
    assert_eq!(Piece::WhitePawn.get_color(), Color::White);
    assert_eq!(Piece::WhiteKing.get_color(), Color::White);
    assert_eq!(Piece::BlackPawn.get_color(), Color::Black);
    assert_eq!(Piece::BlackQueen.get_color(), Color::Black);
    for i in 0..12u8 {
        let expected = if i % 2 == 0 { Color::White } else { Color::Black };
        assert_eq!(Piece::new(i).get_color(), expected);
    }
}

#[test]
fn recolor_keeps_kind() {
    assert_eq!(Piece::WhiteRook.with_color(Color::Black), Piece::BlackRook);
    assert_eq!(Piece::BlackKnight.with_color(Color::White), Piece::WhiteKnight);
    assert_eq!(Piece::WhiteQueen.with_color(Color::White), Piece::WhiteQueen);
    assert_eq!(Piece::NoPiece.with_color(Color::Black), Piece::NoPiece);
}

#[test]
fn color_other_and_char() {
    assert_eq!(Color::White.other(), Color::Black);
    assert_eq!(Color::Black.other(), Color::White);
    assert_eq!(Color::White.char(), 'w');
    assert_eq!(Color::Black.char(), 'b');
    assert_eq!(Color::new(1), Color::Black);
}

#[test]
fn castling_rights_text() {
    assert_eq!(CastlingRights::none().to_string(), "-");
    assert_eq!(CastlingRights::all().to_string(), "KkQq");
    let mut c = CastlingRights::none();
    c.add(CastlingRight::BlackQueenside);
    c.add(CastlingRight::WhiteKingside);
    assert_eq!(c.to_string(), "Kq");
    assert!(c.can_castle(CastlingRight::WhiteKingside));
    assert!(!c.can_castle(CastlingRight::BlackKingside));
    c.remove(CastlingRight::WhiteKingside);
    assert_eq!(c.to_string(), "q");
    c.remove(CastlingRight::BlackQueenside);
    assert_eq!(c, CastlingRights::none());
    assert_eq!(CastlingRight::WhiteQueenside.char(), 'Q');
}

#[test]
fn defaults_are_the_empty_values() {
    assert_eq!(Piece::default(), Piece::NoPiece);
    assert_eq!(Color::default(), Color::White);
    assert_eq!(CastlingRights::default(), CastlingRights::none());
    assert_eq!(chess_core::square::Square::default(), chess_core::square::Square::NoSquare);
    assert_eq!(chess_core::bitboard::Bitboard::default(), chess_core::bitboard::Bitboard(0));
    assert_eq!(chess_core::board::BOARD_SIZE, 8);
}
