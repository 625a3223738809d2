use chess_core::bitboard::Bitboard;
use chess_core::square::Square;

#[test]
fn file_and_rank_round_trip() {
    for i in 0..64u8 {
        let s = Square::new(i);
        assert_eq!(Square::from_file_and_rank(s.file(), s.rank()), s);
    }
    assert_eq!(Square::from_file_and_rank(4, 3), Square::E4);
    assert_eq!(Square::E4.file(), 4);
    assert_eq!(Square::E4.rank(), 3);
}

#[test]
fn algebraic_round_trip() {
    for f in ['a', 'b', 'c', 'd', 'e', 'f', 'g', 'h'] {
        for r in ['1', '2', '3', '4', '5', '6', '7', '8'] {
            let t = format!("{f}{r}");
            let s = Square::from_algebraic_notation(&t);
            assert_ne!(s, Square::NoSquare);
            assert_eq!(s.to_algebraic_notation(), Some(t));
        }
    }
    assert_eq!(Square::from_algebraic_notation("e4"), Square::E4);
    assert_eq!(Square::from_algebraic_notation("h8"), Square::H8);
    for bad in ["", "e", "e44", "i1", "a0", "a9", "-", "E4", "4e"] {
        assert_eq!(Square::from_algebraic_notation(bad), Square::NoSquare);
    }
    assert_eq!(Square::NoSquare.to_algebraic_notation(), None);
}

#[test]
fn square_bitboard_is_single_bit() {
    assert_eq!(Square::A1.bitboard(), Bitboard(1));
    assert_eq!(Square::H8.bitboard(), Bitboard(1 << 63));
    assert_eq!(Square::E4.index(), 28);
}

#[test]
fn bitboard_add_and_remove() {
    let mut b = Bitboard::empty();
    assert!(b.is_empty());
    b.add(Square::C3);
    assert!(b.has(Square::C3));
    assert_eq!(b.pop_count(), 1);
    b.add(Square::C3);
    assert_eq!(b.pop_count(), 1);
    b.add(Square::H8);
    assert_eq!(b.pop_count(), 2);
    assert!(b.is_not_empty());
    b.remove(Square::C3);
    assert!(!b.has(Square::C3));
    assert!(b.has(Square::H8));
    assert_eq!(b.pop_count(), 1);
    assert!(b.has_any(&[Square::A1, Square::H8]));
    assert!(!b.has_any(&[Square::A1, Square::B2]));
    assert!(!b.has_any(&[]));
}

#[test]
fn bitboard_iterates_in_order() {
    let b = Bitboard::new(0x8000_0000_0000_0105);
    let mut it = b.into_iter();
    assert_eq!(it.len(), 4);
    assert_eq!(it.next(), Some(Square::A1));
    assert_eq!(it.next(), Some(Square::C1));
    assert_eq!(it.len(), 2);
    assert_eq!(it.next(), Some(Square::A2));
    assert_eq!(it.next(), Some(Square::H8));
    assert_eq!(it.next(), None);
    assert_eq!(it.len(), 0);
    assert_eq!(b.squares(), vec![Square::A1, Square::C1, Square::A2, Square::H8]);
    assert_eq!(Bitboard::empty().squares(), vec![]);
    assert_eq!(Bitboard::new(u64::MAX).pop_count(), 64);
    assert_eq!(Bitboard::new(u64::MAX).squares().len(), 64);
}

#[test]
fn bitboard_algebra() {
    let a = Bitboard(0b1100);
    let b = Bitboard(0b1010);
    assert_eq!(a.bitand(b), Bitboard(0b1000));
    assert_eq!(a.bitor(b), Bitboard(0b1110));
    assert_eq!(a.bitxor(b), Bitboard(0b0110));
    assert_eq!(Bitboard(0).not(), Bitboard(u64::MAX));
    assert_eq!(a.shl(8), Bitboard(0b1100 << 8));
    assert_eq!(a.shr(2), Bitboard(0b11));
    let mut c = a;
    c.bitand_assign(b);
    assert_eq!(c, Bitboard(0b1000));
    c.bitor_assign(Bitboard(1));
    assert_eq!(c, Bitboard(0b1001));
    c.bitxor_assign(Bitboard(0b1111));
    assert_eq!(c, Bitboard(0b0110));
}

#[test]
fn checked_conversions_reject_out_of_range() {
    assert_eq!(Square::try_new(0), Some(Square::A1));
    assert_eq!(Square::try_new(64), Some(Square::NoSquare));
    assert_eq!(Square::try_new(65), None);
    assert_eq!(chess_core::piece::Piece::try_new(12), Some(chess_core::piece::Piece::NoPiece));
    assert_eq!(chess_core::piece::Piece::try_new(13), None);
    assert_eq!(chess_core::color::Color::try_new(0), Some(chess_core::color::Color::White));
    assert_eq!(chess_core::color::Color::try_new(2), None);
}
