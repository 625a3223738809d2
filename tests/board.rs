use chess_core::bitboard::Bitboard;
use chess_core::board::Board;
use chess_core::castling_rights::{CastlingRight, CastlingRights};
use chess_core::color::Color;
use chess_core::piece::Piece;
use chess_core::square::Square;

const START: &str = "rnbqkbnr/pppppppp/8/8/8/8/PPPPPPPP/RNBQKBNR w KQkq - 0 1";

#[test]
fn from_fen_basic() {
    let board = Board::from_fen("rnbqkbnr/pppppppp/8/8/8/8/PPPPPPPP/RNBQKBNR w KQkq - 0 1");

    assert!(board.is_ok());
    let board = board.unwrap();

    assert_eq!(board.color_bitboard(Color::White), Bitboard(65535));
    assert_eq!(
        board.color_bitboard(Color::Black),
        Bitboard(18446462598732840960)
    );

    assert_eq!(board.half_moves(), 0);
    assert_eq!(board.full_moves(), 1);

    assert_eq!(board.en_passant_square(), Square::NoSquare);

    assert_eq!(board.current_color(), Color::White);

    assert_eq!(board.castling_rights(), CastlingRights::all());
}

#[test]
fn start_position_pieces_and_bitboards() {
    let board = Board::from_fen(START).unwrap();
    assert_eq!(board.piece_at(Square::E1), Piece::WhiteKing);
    assert_eq!(board.piece_at(Square::D8), Piece::BlackQueen);
    assert_eq!(board.piece_at(Square::E4), Piece::NoPiece);
    assert_eq!(board.piece_bitboard(Piece::WhitePawn), Bitboard(0xff00));
    assert_eq!(board.piece_bitboard(Piece::BlackPawn), Bitboard(0x00ff_0000_0000_0000));
    assert_eq!(board.piece_bitboard(Piece::WhiteRook), Bitboard(0x81));
    assert_eq!(board.piece_bitboard(Piece::BlackKing), Bitboard(1 << 60));
}

#[test]
fn fen_of_start_position_lists_castling_in_fixed_order() {
    let board = Board::from_fen(START).unwrap();
    assert_eq!(board.fen(), "rnbqkbnr/pppppppp/8/8/8/8/PPPPPPPP/RNBQKBNR w KkQq - 0 1");
}

#[test]
fn fen_round_trip_is_stable() {
    let inputs = [
        START,
        "r3k2r/pp1p1ppp/8/1Bp1p3/4P3/5N2/PPPP1PPP/R3K2R b KQkq - 0 1",
        "8/8/8/8/8/8/8/8 w - -",
        "4k3/8/8/3pP3/8/8/8/4K3 w k d6 12 345",
        "rnbqkbnr/pp1ppppp/8/2p5/4P3/8/PPPP1PPP/RNBQKBNR w qK c6 0 2",
        "44/8/8/8/8/8/8/8 b Xq e9 x y",
    ];
    for s in inputs {
        let first = Board::from_fen(s).unwrap().fen();
        let second = Board::from_fen(&first).unwrap().fen();
        assert_eq!(first, second);
    }
}

#[test]
fn fen_normalises_optional_and_lenient_fields() {
    let board = Board::from_fen("8/8/8/8/8/8/8/8 w - -").unwrap();
    assert_eq!(board.fen(), "8/8/8/8/8/8/8/8 w - - 0 1");
    let board = Board::from_fen("44/8/8/8/8/8/8/8 b Xq e9 x y").unwrap();
    assert_eq!(board.fen(), "8/8/8/8/8/8/8/8 b q - 0 1");
    let board = Board::from_fen("8/8/8/8/8/8/8/8 w qK - 7").unwrap();
    assert_eq!(board.fen(), "8/8/8/8/8/8/8/8 w Kq - 7 1");
}

#[test]
fn fen_counters_and_en_passant() {
    let board = Board::from_fen("4k3/8/8/3pP3/8/8/8/4K3 w k d6 12 345").unwrap();
    assert_eq!(board.en_passant_square(), Square::D6);
    assert_eq!(board.half_moves(), 12);
    assert_eq!(board.full_moves(), 345);
    assert_eq!(board.fen(), "4k3/8/8/3pP3/8/8/8/4K3 w k d6 12 345");
    assert!(board.castling_rights().can_castle(CastlingRight::BlackKingside));
    assert!(!board.castling_rights().can_castle(CastlingRight::WhiteKingside));
}

#[test]
fn fen_rejects_bad_piece_letter() {
    assert!(Board::from_fen("rnbqkbnx/pppppppp/8/8/8/8/PPPPPPPP/RNBQKBNR w KQkq - 0 1").is_err());
}

#[test]
fn fen_rejects_bad_active_color() {
    assert!(Board::from_fen("8/8/8/8/8/8/8/8 x - - 0 1").is_err());
    assert!(Board::from_fen("8/8/8/8/8/8/8/8 ww - - 0 1").is_err());
}

#[test]
fn fen_rejects_missing_fields() {
    assert!(Board::from_fen("8/8/8/8/8/8/8/8 w -").is_err());
    assert!(Board::from_fen("").is_err());
}

#[test]
fn fen_rejects_piece_past_the_board() {
    assert!(Board::from_fen("8/8/8/8/8/8/8/8/K w - - 0 1").is_err());
}

#[test]
fn fen_reports_ignored_castling_letters() {
    let (board, ignored) = Board::from_fen_with_warnings("8/8/8/8/8/8/8/8 w KxQ- - 0 1").unwrap();
    assert_eq!(ignored, vec!['x']);
    assert_eq!(board.fen(), "8/8/8/8/8/8/8/8 w KQ - 0 1");
}

#[test]
fn malformed_counters_take_defaults() {
    let board = Board::from_fen("8/8/8/8/8/8/8/8 w - - abc -3").unwrap();
    assert_eq!(board.half_moves(), 0);
    assert_eq!(board.full_moves(), 1);
    let board = Board::from_fen("8/8/8/8/8/8/8/8 w - - 99999999999999999999999 5").unwrap();
    assert_eq!(board.half_moves(), 0);
    assert_eq!(board.full_moves(), 5);
}

#[test]
fn add_piece_keeps_bitboards_in_step() {
    let mut board = Board::default();
    board.add_piece(Piece::WhiteKnight, Square::B1);
    assert_eq!(board.piece_bitboard(Piece::WhiteKnight), Bitboard(1 << 1));
    assert_eq!(board.color_bitboard(Color::White), Bitboard(1 << 1));
    board.add_piece(Piece::BlackBishop, Square::B1);
    assert_eq!(board.piece_at(Square::B1), Piece::BlackBishop);
    assert_eq!(board.piece_bitboard(Piece::WhiteKnight), Bitboard(0));
    assert_eq!(board.color_bitboard(Color::White), Bitboard(0));
    assert_eq!(board.piece_bitboard(Piece::BlackBishop), Bitboard(1 << 1));
    assert_eq!(board.color_bitboard(Color::Black), Bitboard(1 << 1));
    board.add_piece(Piece::NoPiece, Square::B1);
    assert_eq!(board.color_bitboard(Color::Black), Bitboard(0));
    assert_eq!(board.fen(), "8/8/8/8/8/8/8/8 w - - 0 1");
}

#[test]
fn reparsed_board_equals_parsed_board() {
    let board = Board::from_fen("r3k2r/pp1p1ppp/8/1Bp1p3/4P3/5N2/PPPP1PPP/R3K2R b KQkq e3 3 17").unwrap();
    let again = Board::from_fen(&board.fen()).unwrap();
    assert_eq!(board, again);
}

#[test]
fn counts_accept_a_leading_plus() {
    let board = Board::from_fen("8/8/8/8/8/8/8/8 w - - +5 +12").unwrap();
    assert_eq!(board.half_moves(), 5);
    assert_eq!(board.full_moves(), 12);
    let board = Board::from_fen("8/8/8/8/8/8/8/8 w - - + ++3").unwrap();
    assert_eq!(board.half_moves(), 0);
    assert_eq!(board.full_moves(), 1);
    let board = Board::from_fen("8/8/8/8/8/8/8/8 w - - -5 +").unwrap();
    assert_eq!(board.half_moves(), 0);
    assert_eq!(board.full_moves(), 1);
}
