use chess_core::moves::{Move, MoveType};
use chess_core::piece::Piece;
use chess_core::square::Square;

const TYPES: [MoveType; 13] = [
    MoveType::Normal,
    MoveType::DoublePush,
    MoveType::Castling,
    MoveType::Capture,
    MoveType::EnPassant,
    MoveType::PromotionKnight,
    MoveType::PromotionBishop,
    MoveType::PromotionRook,
    MoveType::PromotionQueen,
    MoveType::PromotionCaptureKnight,
    MoveType::PromotionCaptureBishop,
    MoveType::PromotionCaptureRook,
    MoveType::PromotionCaptureQueen,
];

#[test]
fn move_packing_round_trip() {
    for f in 0..64u8 {
        for t in [0u8, 1, 17, 42, 63] {
            for ty in TYPES {
                let m = Move::new(Square::new(f), Square::new(t), ty);
                assert_eq!(m.from(), Square::new(f));
                assert_eq!(m.to(), Square::new(t));
                assert_eq!(m.ty(), ty);
            }
        }
    }
}

#[test]
fn castling_rook_squares() {
    assert_eq!(
        Move::new(Square::E8, Square::G8, MoveType::Castling).get_rook_from_to_square_castling(),
        (Square::H8, Square::F8)
    );
    assert_eq!(
        Move::new(Square::E1, Square::G1, MoveType::Castling).get_rook_from_to_square_castling(),
        (Square::H1, Square::F1)
    );
    assert_eq!(
        Move::new(Square::E1, Square::C1, MoveType::Castling).get_rook_from_to_square_castling(),
        (Square::A1, Square::D1)
    );
    assert_eq!(
        Move::new(Square::E8, Square::C8, MoveType::Castling).get_rook_from_to_square_castling(),
        (Square::A8, Square::D8)
    );
    assert_eq!(
        Move::new(Square::E1, Square::E2, MoveType::Castling).get_rook_from_to_square_castling(),
        (Square::NoSquare, Square::NoSquare)
    );
}

#[test]
fn promotion_capture_queen() {
    let m = Move::new(Square::B7, Square::A8, MoveType::PromotionCaptureQueen);
    assert_eq!(m.get_promotion(), Some(Piece::WhiteQueen));
    assert_ne!(m.ty().bits() & 0b0100, 0);
    assert_ne!(m.ty().bits() & 0b1000, 0);
}

#[test]
fn promotion_pieces() {
    let p = |ty| Move::new(Square::A7, Square::A8, ty).get_promotion();
    assert_eq!(p(MoveType::PromotionKnight), Some(Piece::WhiteKnight));
    assert_eq!(p(MoveType::PromotionCaptureKnight), Some(Piece::WhiteKnight));
    assert_eq!(p(MoveType::PromotionBishop), Some(Piece::WhiteBishop));
    assert_eq!(p(MoveType::PromotionRook), Some(Piece::WhiteRook));
    assert_eq!(p(MoveType::PromotionCaptureRook), Some(Piece::WhiteRook));
    assert_eq!(p(MoveType::Normal), None);
    assert_eq!(p(MoveType::Capture), None);
    assert_eq!(p(MoveType::EnPassant), None);
}

#[test]
fn move_type_bits() {
    assert_eq!(MoveType::from_bits(0b0011), None);
    assert_eq!(MoveType::from_bits(0b0110), None);
    assert_eq!(MoveType::from_bits(16), None);
    for ty in TYPES {
        assert_eq!(MoveType::from_bits(ty.bits()), Some(ty));
    }
    assert_eq!(MoveType::EnPassant.bits(), 0b0101);
}
