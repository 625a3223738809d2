use vstd::prelude::*;

use crate::color::Color;

verus! {

/// A piece: kind and color packed in one ordinal whose lowest bit is the color
/// (0 for White, 1 for Black) and whose other bits are the kind (pawn, knight, bishop,
/// rook, queen, king). `NoPiece` marks an empty square.
#[derive(Clone, Copy, Debug, PartialEq, Eq, Structural)]
pub enum Piece {
    WhitePawn,
    BlackPawn,
    WhiteKnight,
    BlackKnight,
    WhiteBishop,
    BlackBishop,
    WhiteRook,
    BlackRook,
    WhiteQueen,
    BlackQueen,
    WhiteKing,
    BlackKing,
    NoPiece,
}

impl Piece {
    /// The ordinal of the piece, 0 to 12.
    pub open spec fn spec_index(self) -> u8 {
        match self {
            Piece::WhitePawn => 0,
            Piece::BlackPawn => 1,
            Piece::WhiteKnight => 2,
            Piece::BlackKnight => 3,
            Piece::WhiteBishop => 4,
            Piece::BlackBishop => 5,
            Piece::WhiteRook => 6,
            Piece::BlackRook => 7,
            Piece::WhiteQueen => 8,
            Piece::BlackQueen => 9,
            Piece::WhiteKing => 10,
            Piece::BlackKing => 11,
            Piece::NoPiece => 12,
        }
    }

    /// The piece with ordinal `i`, for `i` in 0 to 12.
    pub open spec fn spec_from_index(i: int) -> Piece {
        if i == 0 {
            Piece::WhitePawn
        } else if i == 1 {
            Piece::BlackPawn
        } else if i == 2 {
            Piece::WhiteKnight
        } else if i == 3 {
            Piece::BlackKnight
        } else if i == 4 {
            Piece::WhiteBishop
        } else if i == 5 {
            Piece::BlackBishop
        } else if i == 6 {
            Piece::WhiteRook
        } else if i == 7 {
            Piece::BlackRook
        } else if i == 8 {
            Piece::WhiteQueen
        } else if i == 9 {
            Piece::BlackQueen
        } else if i == 10 {
            Piece::WhiteKing
        } else if i == 11 {
            Piece::BlackKing
        } else {
            Piece::NoPiece
        }
    }

    /// The color of a real piece, read from its name.
    pub open spec fn spec_color(self) -> Option<Color> {
        match self {
            Piece::WhitePawn | Piece::WhiteKnight | Piece::WhiteBishop | Piece::WhiteRook
            | Piece::WhiteQueen | Piece::WhiteKing => Some(Color::White),
            Piece::NoPiece => None,
            _ => Some(Color::Black),
        }
    }

    /// The piece with ordinal `value`; 12 is `NoPiece`.
    pub fn new(value: u8) -> (r: Piece)
        requires
            value < 13,
        ensures
            r.spec_index() == value,
            r == Piece::spec_from_index(value as int),
    {
        match value {
            0 => Piece::WhitePawn,
            1 => Piece::BlackPawn,
            2 => Piece::WhiteKnight,
            3 => Piece::BlackKnight,
            4 => Piece::WhiteBishop,
            5 => Piece::BlackBishop,
            6 => Piece::WhiteRook,
            7 => Piece::BlackRook,
            8 => Piece::WhiteQueen,
            9 => Piece::BlackQueen,
            10 => Piece::WhiteKing,
            11 => Piece::BlackKing,
            _ => Piece::NoPiece,
        }
    }

    /// The piece with ordinal `value`, or `None` when `value` is past `NoPiece`.
    pub fn try_new(value: u8) -> (r: Option<Piece>)
        ensures
            value < 13 ==> r == Some(Piece::spec_from_index(value as int)),
            value >= 13 ==> r is None,
    {
        if value < 13 {
            Some(Piece::new(value))
        } else {
            None
        }
    }

    /// The ordinal of the piece, 0 to 12.
    #[verifier::when_used_as_spec(spec_index)]
    pub fn index(self) -> (r: u8)
        ensures
            r == self.spec_index(),
    {
        match self {
            Piece::WhitePawn => 0,
            Piece::BlackPawn => 1,
            Piece::WhiteKnight => 2,
            Piece::BlackKnight => 3,
            Piece::WhiteBishop => 4,
            Piece::BlackBishop => 5,
            Piece::WhiteRook => 6,
            Piece::BlackRook => 7,
            Piece::WhiteQueen => 8,
            Piece::BlackQueen => 9,
            Piece::WhiteKing => 10,
            Piece::BlackKing => 11,
            Piece::NoPiece => 12,
        }
    }

    /// The same kind of piece in `color`; `NoPiece` stays `NoPiece`.
    pub fn with_color(self, color: Color) -> (r: Piece)
        ensures
            self == Piece::NoPiece ==> r == Piece::NoPiece,
            self != Piece::NoPiece ==> r.spec_index() / 2 == self.spec_index() / 2
                && r.spec_color() == Some(color),
    {
        if self == Piece::NoPiece {
            return Piece::NoPiece;
        }
        let i = self.index();
        let j = match color {
            Color::White => i & 0b11111110,
            Color::Black => i | 1,
        };
        assert(i & 0b11111110u8 == i / 2 * 2 && i | 1u8 == i / 2 * 2 + 1) by (bit_vector)
            requires
                i < 12,
        ;
        Piece::new(j)
    }

    /// The color of the piece, read from the lowest bit of its ordinal.
    pub fn get_color(&self) -> (r: Color)
        ensures
            r.spec_index() == self.spec_index() % 2,
            *self != Piece::NoPiece ==> Some(r) == self.spec_color(),
    {
        let i = self.index();
        assert(i & 1u8 == i % 2) by (bit_vector);
        Color::new(i & 1)
    }

    /// The piece of a FEN letter, or `None` for any other character.
    pub fn from_char(c: char) -> (r: Option<Piece>)
        ensures
            r == piece_of_char(c),
    {
        match c {
            'P' => Some(Piece::WhitePawn),
            'p' => Some(Piece::BlackPawn),
            'N' => Some(Piece::WhiteKnight),
            'n' => Some(Piece::BlackKnight),
            'B' => Some(Piece::WhiteBishop),
            'b' => Some(Piece::BlackBishop),
            'R' => Some(Piece::WhiteRook),
            'r' => Some(Piece::BlackRook),
            'Q' => Some(Piece::WhiteQueen),
            'q' => Some(Piece::BlackQueen),
            'K' => Some(Piece::WhiteKing),
            'k' => Some(Piece::BlackKing),
            _ => None,
        }
    }

    /// The FEN letter of the piece, or `None` for `NoPiece`.
    pub fn char(&self) -> (r: Option<char>)
        ensures
            r == piece_char(*self),
    {
        match self {
            Piece::WhitePawn => Some('P'),
            Piece::BlackPawn => Some('p'),
            Piece::WhiteKnight => Some('N'),
            Piece::BlackKnight => Some('n'),
            Piece::WhiteBishop => Some('B'),
            Piece::BlackBishop => Some('b'),
            Piece::WhiteRook => Some('R'),
            Piece::BlackRook => Some('r'),
            Piece::WhiteQueen => Some('Q'),
            Piece::BlackQueen => Some('q'),
            Piece::WhiteKing => Some('K'),
            Piece::BlackKing => Some('k'),
            Piece::NoPiece => None,
        }
    }
}

/// The piece that a FEN letter stands for: upper case for White, lower case for Black,
/// `P N B R Q K` for the kinds.
pub open spec fn piece_of_char(c: char) -> Option<Piece> {
    if c == 'P' {
        Some(Piece::WhitePawn)
    } else if c == 'p' {
        Some(Piece::BlackPawn)
    } else if c == 'N' {
        Some(Piece::WhiteKnight)
    } else if c == 'n' {
        Some(Piece::BlackKnight)
    } else if c == 'B' {
        Some(Piece::WhiteBishop)
    } else if c == 'b' {
        Some(Piece::BlackBishop)
    } else if c == 'R' {
        Some(Piece::WhiteRook)
    } else if c == 'r' {
        Some(Piece::BlackRook)
    } else if c == 'Q' {
        Some(Piece::WhiteQueen)
    } else if c == 'q' {
        Some(Piece::BlackQueen)
    } else if c == 'K' {
        Some(Piece::WhiteKing)
    } else if c == 'k' {
        Some(Piece::BlackKing)
    } else {
        None
    }
}

/// The FEN letter of a piece; `NoPiece` has none.
pub open spec fn piece_char(p: Piece) -> Option<char> {
    match p {
        Piece::WhitePawn => Some('P'),
        Piece::BlackPawn => Some('p'),
        Piece::WhiteKnight => Some('N'),
        Piece::BlackKnight => Some('n'),
        Piece::WhiteBishop => Some('B'),
        Piece::BlackBishop => Some('b'),
        Piece::WhiteRook => Some('R'),
        Piece::BlackRook => Some('r'),
        Piece::WhiteQueen => Some('Q'),
        Piece::BlackQueen => Some('q'),
        Piece::WhiteKing => Some('K'),
        Piece::BlackKing => Some('k'),
        Piece::NoPiece => None,
    }
}

/// The letters of the twelve pieces, in the order of their ordinals.
pub open spec fn piece_letters() -> Seq<char> {
    seq!['P', 'p', 'N', 'n', 'B', 'b', 'R', 'r', 'Q', 'q', 'K', 'k']
}

/// Two pieces with the same ordinal are the same piece.
pub proof fn lemma_piece_index_injective(a: Piece, b: Piece)
    ensures
        a.spec_index() == b.spec_index() ==> a == b,
        Piece::spec_from_index(a.spec_index() as int) == a,
{
}

/// Every real piece reads back from its letter; a character that is not one of the
/// twelve letters names no piece.
pub proof fn lemma_piece_char_round_trip(p: Piece, c: char)
    ensures
        p != Piece::NoPiece ==> piece_char(p) is Some && piece_of_char(piece_char(p)->0) == Some(p),
        !piece_letters().contains(c) ==> piece_of_char(c) is None,
{
    if !piece_letters().contains(c) {
        assert(piece_letters()[0] == 'P' && piece_letters()[1] == 'p' && piece_letters()[2] == 'N'
            && piece_letters()[3] == 'n' && piece_letters()[4] == 'B' && piece_letters()[5] == 'b'
            && piece_letters()[6] == 'R' && piece_letters()[7] == 'r' && piece_letters()[8] == 'Q'
            && piece_letters()[9] == 'q' && piece_letters()[10] == 'K' && piece_letters()[11] == 'k');
    }
}

/// `NoPiece` has no letter, and the color read from a real piece's ordinal is the color in
/// its name.
pub proof fn lemma_piece_colors(p: Piece)
    ensures
        piece_char(Piece::NoPiece) is None,
        p != Piece::NoPiece ==> p.spec_color() == Some(
            if p.spec_index() % 2 == 0 { Color::White } else { Color::Black },
        ),
{
}

impl Default for Piece {
    /// The empty square's piece, `NoPiece`.
    fn default() -> (r: Piece)
        ensures
            r == Piece::NoPiece,
    {
        Piece::NoPiece
    }
}

} // verus!
