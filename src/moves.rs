use vstd::prelude::*;

use crate::piece::Piece;
use crate::square::Square;

verus! {

/// The kind of a move, held in four bits: `0b1000` marks a promotion, `0b0100` a capture,
/// and for promotions the two low bits give the piece promoted to.
#[derive(Clone, Copy, Debug, PartialEq, Eq, Structural)]
pub enum MoveType {
    Normal,
    DoublePush,
    Castling,
    Capture,
    EnPassant,
    PromotionKnight,
    PromotionBishop,
    PromotionRook,
    PromotionQueen,
    PromotionCaptureKnight,
    PromotionCaptureBishop,
    PromotionCaptureRook,
    PromotionCaptureQueen,
}

impl MoveType {
    /// The four-bit pattern of the kind.
    pub open spec fn spec_bits(self) -> u8 {
        match self {
            MoveType::Normal => 0b0000,
            MoveType::DoublePush => 0b0001,
            MoveType::Castling => 0b0010,
            MoveType::Capture => 0b0100,
            MoveType::EnPassant => 0b0101,
            MoveType::PromotionKnight => 0b1000,
            MoveType::PromotionBishop => 0b1001,
            MoveType::PromotionRook => 0b1010,
            MoveType::PromotionQueen => 0b1011,
            MoveType::PromotionCaptureKnight => 0b1100,
            MoveType::PromotionCaptureBishop => 0b1101,
            MoveType::PromotionCaptureRook => 0b1110,
            MoveType::PromotionCaptureQueen => 0b1111,
        }
    }

    /// The four-bit pattern of the kind.
    #[verifier::when_used_as_spec(spec_bits)]
    pub fn bits(self) -> (r: u8)
        ensures
            r == self.spec_bits(),
    {
        match self {
            MoveType::Normal => 0b0000,
            MoveType::DoublePush => 0b0001,
            MoveType::Castling => 0b0010,
            MoveType::Capture => 0b0100,
            MoveType::EnPassant => 0b0101,
            MoveType::PromotionKnight => 0b1000,
            MoveType::PromotionBishop => 0b1001,
            MoveType::PromotionRook => 0b1010,
            MoveType::PromotionQueen => 0b1011,
            MoveType::PromotionCaptureKnight => 0b1100,
            MoveType::PromotionCaptureBishop => 0b1101,
            MoveType::PromotionCaptureRook => 0b1110,
            MoveType::PromotionCaptureQueen => 0b1111,
        }
    }

    /// The kind whose pattern is `bits`, or `None` when no kind has that pattern.
    pub fn from_bits(bits: u8) -> (r: Option<MoveType>)
        ensures
            r == type_of_bits(bits),
            r is Some ==> r->0.spec_bits() == bits,
            r is None <==> !is_tag(bits),
    {
        match bits {
            0b0000 => Some(MoveType::Normal),
            0b0001 => Some(MoveType::DoublePush),
            0b0010 => Some(MoveType::Castling),
            0b0100 => Some(MoveType::Capture),
            0b0101 => Some(MoveType::EnPassant),
            0b1000 => Some(MoveType::PromotionKnight),
            0b1001 => Some(MoveType::PromotionBishop),
            0b1010 => Some(MoveType::PromotionRook),
            0b1011 => Some(MoveType::PromotionQueen),
            0b1100 => Some(MoveType::PromotionCaptureKnight),
            0b1101 => Some(MoveType::PromotionCaptureBishop),
            0b1110 => Some(MoveType::PromotionCaptureRook),
            0b1111 => Some(MoveType::PromotionCaptureQueen),
            _ => None,
        }
    }
}

/// The kind whose pattern is `b`, if any.
pub open spec fn type_of_bits(b: u8) -> Option<MoveType> {
    if b == 0b0000 {
        Some(MoveType::Normal)
    } else if b == 0b0001 {
        Some(MoveType::DoublePush)
    } else if b == 0b0010 {
        Some(MoveType::Castling)
    } else if b == 0b0100 {
        Some(MoveType::Capture)
    } else if b == 0b0101 {
        Some(MoveType::EnPassant)
    } else if b == 0b1000 {
        Some(MoveType::PromotionKnight)
    } else if b == 0b1001 {
        Some(MoveType::PromotionBishop)
    } else if b == 0b1010 {
        Some(MoveType::PromotionRook)
    } else if b == 0b1011 {
        Some(MoveType::PromotionQueen)
    } else if b == 0b1100 {
        Some(MoveType::PromotionCaptureKnight)
    } else if b == 0b1101 {
        Some(MoveType::PromotionCaptureBishop)
    } else if b == 0b1110 {
        Some(MoveType::PromotionCaptureRook)
    } else if b == 0b1111 {
        Some(MoveType::PromotionCaptureQueen)
    } else {
        None
    }
}

/// Whether `b` is the pattern of some move kind.
pub open spec fn is_tag(b: u8) -> bool {
    b < 16 && b != 0b0011 && b != 0b0110 && b != 0b0111
}

/// The piece a move of kind `t` promotes to, given in White, or `None` for a kind that
/// does not promote.
pub open spec fn promotion_of(t: MoveType) -> Option<Piece> {
    match t {
        MoveType::PromotionKnight | MoveType::PromotionCaptureKnight => Some(Piece::WhiteKnight),
        MoveType::PromotionBishop | MoveType::PromotionCaptureBishop => Some(Piece::WhiteBishop),
        MoveType::PromotionRook | MoveType::PromotionCaptureRook => Some(Piece::WhiteRook),
        MoveType::PromotionQueen | MoveType::PromotionCaptureQueen => Some(Piece::WhiteQueen),
        _ => None,
    }
}

/// Where the rook goes from and to when the king castles to `to`; the sentinel pair for
/// a square that is not a castling destination.
pub open spec fn rook_castling_squares(to: Square) -> (Square, Square) {
    match to {
        Square::G1 => (Square::H1, Square::F1),
        Square::C1 => (Square::A1, Square::D1),
        Square::G8 => (Square::H8, Square::F8),
        Square::C8 => (Square::A8, Square::D8),
        _ => (Square::NoSquare, Square::NoSquare),
    }
}

/// A move packed in 16 bits: from-square in bits 0-5, to-square in bits 6-11, kind in
/// bits 12-15.
#[derive(Clone, Copy, Debug, PartialEq, Eq, Hash, Structural)]
pub struct Move(u16);

impl Move {
    #[verifier::type_invariant]
    spec fn tag_is_valid(self) -> bool {
        is_tag((self.0 >> 12u16) as u8)
    }

    /// The packed word of the move built from `from`, `to` and `ty`.
    pub open spec fn pack(from: Square, to: Square, ty: MoveType) -> u16 {
        (from.spec_index() as u16) | ((to.spec_index() as u16) << 6u16) | ((ty.spec_bits() as u16) << 12u16)
    }

    /// The packed word.
    pub closed spec fn raw(self) -> u16 {
        self.0
    }

    /// The from-square held in a packed word.
    pub open spec fn from_of(w: u16) -> Square {
        Square::spec_from_index((w & 0b111111u16) as int)
    }

    /// The to-square held in a packed word.
    pub open spec fn to_of(w: u16) -> Square {
        Square::spec_from_index(((w >> 6u16) & 0b111111u16) as int)
    }

    /// The pattern of the kind held in a packed word.
    pub open spec fn tag_of(w: u16) -> u8 {
        (w >> 12u16) as u8
    }

    /// The kind held in a packed word whose pattern is valid.
    pub open spec fn ty_of(w: u16) -> MoveType {
        type_of_bits(Move::tag_of(w))->0
    }

    /// Packs a move; both squares must be real squares.
    pub fn new(from: Square, to: Square, ty: MoveType) -> (r: Move)
        requires
            from.spec_index() < 64,
            to.spec_index() < 64,
        ensures
            r.raw() == Move::pack(from, to, ty),
    {
        let f = from.index() as u16;
        let t = to.index() as u16;
        let b = ty.bits() as u16;
        let w = f | (t << 6) | (b << 12);
        assert((w >> 12u16) as u8 == b) by (bit_vector)
            requires
                f < 64,
                t < 64,
                b < 16,
                w == f | (t << 6u16) | (b << 12u16),
        ;
        Move(w)
    }

    /// The square the move starts from.
    pub fn from(self) -> (r: Square)
        ensures
            r == Move::from_of(self.raw()),
            r.spec_index() < 64,
    {
        let w = self.0;
        let f = w & 0b111111;
        assert(f < 64) by (bit_vector)
            requires
                f == w & 0b111111u16,
        ;
        proof {
            crate::square::lemma_from_index(f as int);
        }
        Square::new(f as u8)
    }

    /// The square the move goes to.
    pub fn to(self) -> (r: Square)
        ensures
            r == Move::to_of(self.raw()),
            r.spec_index() < 64,
    {
        let w = self.0;
        let t = (w & (0b111111 << 6)) >> 6;
        assert(t == (w >> 6u16) & 0b111111u16 && t < 64) by (bit_vector)
            requires
                t == (w & (0b111111u16 << 6u16)) >> 6u16,
        ;
        proof {
            crate::square::lemma_from_index(t as int);
        }
        Square::new(t as u8)
    }

    /// The kind of the move.
    pub fn ty(self) -> (r: MoveType)
        ensures
            r == Move::ty_of(self.raw()),
            r.spec_bits() == Move::tag_of(self.raw()),
    {
        proof {
            use_type_invariant(&self);
        }
        let b = (self.0 >> 12) as u8;
        match MoveType::from_bits(b) {
            Some(t) => t,
            None => {
                proof {
                    assert(false);
                }
                MoveType::Normal
            },
        }
    }

    /// For a castling move, the squares the rook moves from and to, looked up by the
    /// king's destination; the sentinel pair for any other destination.
    pub fn get_rook_from_to_square_castling(&self) -> (r: (Square, Square))
        ensures
            r == rook_castling_squares(Move::to_of(self.raw())),
    {
        match self.to() {
            Square::G1 => (Square::H1, Square::F1),
            Square::C1 => (Square::A1, Square::D1),
            Square::G8 => (Square::H8, Square::F8),
            Square::C8 => (Square::A8, Square::D8),
            _ => (Square::NoSquare, Square::NoSquare),
        }
    }

    /// The piece the move promotes to, given in White, or `None` when it does not promote.
    pub fn get_promotion(&self) -> (r: Option<Piece>)
        ensures
            r == promotion_of(Move::ty_of(self.raw())),
    {
        let t = self.ty();
        match t {
            MoveType::PromotionKnight | MoveType::PromotionCaptureKnight => Some(Piece::WhiteKnight),
            MoveType::PromotionBishop | MoveType::PromotionCaptureBishop => Some(Piece::WhiteBishop),
            MoveType::PromotionRook | MoveType::PromotionCaptureRook => Some(Piece::WhiteRook),
            MoveType::PromotionQueen | MoveType::PromotionCaptureQueen => Some(Piece::WhiteQueen),
            _ => None,
        }
    }
}

/// Unpacking a packed move gives back its from-square, to-square and kind.
pub proof fn lemma_move_round_trip(from: Square, to: Square, ty: MoveType)
    requires
        from.spec_index() < 64,
        to.spec_index() < 64,
    ensures
        Move::from_of(Move::pack(from, to, ty)) == from,
        Move::to_of(Move::pack(from, to, ty)) == to,
        Move::tag_of(Move::pack(from, to, ty)) == ty.spec_bits(),
        Move::ty_of(Move::pack(from, to, ty)) == ty,
{
    let f = from.spec_index() as u16;
    let t = to.spec_index() as u16;
    let b = ty.spec_bits() as u16;
    let w = Move::pack(from, to, ty);
    assert(w & 0b111111u16 == f && (w >> 6u16) & 0b111111u16 == t && (w >> 12u16) as u8 == b) by (bit_vector)
        requires
            f < 64,
            t < 64,
            b < 16,
            w == f | (t << 6u16) | (b << 12u16),
    ;
    crate::square::lemma_index_from(from);
    crate::square::lemma_index_from(to);
}

} // verus!
