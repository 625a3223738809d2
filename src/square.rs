use vstd::prelude::*;

use crate::bitboard::{Bitboard, bit_of};
use crate::text::push_char;

verus! {

/// A cell of the board, numbered `file + 8 * rank` so that a1 is 0 and h8 is 63.
/// `NoSquare` (64) is the sentinel for "no square".
#[derive(Clone, Copy, Debug, PartialEq, Eq, Structural)]
pub enum Square {
    A1, B1, C1, D1, E1, F1, G1, H1,
    A2, B2, C2, D2, E2, F2, G2, H2,
    A3, B3, C3, D3, E3, F3, G3, H3,
    A4, B4, C4, D4, E4, F4, G4, H4,
    A5, B5, C5, D5, E5, F5, G5, H5,
    A6, B6, C6, D6, E6, F6, G6, H6,
    A7, B7, C7, D7, E7, F7, G7, H7,
    A8, B8, C8, D8, E8, F8, G8, H8,
    NoSquare,
}

/// Number of files (and of ranks) on the board.
pub const BOARD_SIZE: u8 = 8;

impl Square {
    /// The ordinal of the square, 0 to 64.
    pub open spec fn spec_index(self) -> u8 {
        match self {
            Square::A1 => 0,
            Square::B1 => 1,
            Square::C1 => 2,
            Square::D1 => 3,
            Square::E1 => 4,
            Square::F1 => 5,
            Square::G1 => 6,
            Square::H1 => 7,
            Square::A2 => 8,
            Square::B2 => 9,
            Square::C2 => 10,
            Square::D2 => 11,
            Square::E2 => 12,
            Square::F2 => 13,
            Square::G2 => 14,
            Square::H2 => 15,
            Square::A3 => 16,
            Square::B3 => 17,
            Square::C3 => 18,
            Square::D3 => 19,
            Square::E3 => 20,
            Square::F3 => 21,
            Square::G3 => 22,
            Square::H3 => 23,
            Square::A4 => 24,
            Square::B4 => 25,
            Square::C4 => 26,
            Square::D4 => 27,
            Square::E4 => 28,
            Square::F4 => 29,
            Square::G4 => 30,
            Square::H4 => 31,
            Square::A5 => 32,
            Square::B5 => 33,
            Square::C5 => 34,
            Square::D5 => 35,
            Square::E5 => 36,
            Square::F5 => 37,
            Square::G5 => 38,
            Square::H5 => 39,
            Square::A6 => 40,
            Square::B6 => 41,
            Square::C6 => 42,
            Square::D6 => 43,
            Square::E6 => 44,
            Square::F6 => 45,
            Square::G6 => 46,
            Square::H6 => 47,
            Square::A7 => 48,
            Square::B7 => 49,
            Square::C7 => 50,
            Square::D7 => 51,
            Square::E7 => 52,
            Square::F7 => 53,
            Square::G7 => 54,
            Square::H7 => 55,
            Square::A8 => 56,
            Square::B8 => 57,
            Square::C8 => 58,
            Square::D8 => 59,
            Square::E8 => 60,
            Square::F8 => 61,
            Square::G8 => 62,
            Square::H8 => 63,
            Square::NoSquare => 64,
        }
    }

    /// The square with ordinal `i`, for `i` in 0 to 64.
    pub open spec fn spec_from_index(i: int) -> Square {
        if i == 0 { Square::A1 } else
        if i == 1 { Square::B1 } else
        if i == 2 { Square::C1 } else
        if i == 3 { Square::D1 } else
        if i == 4 { Square::E1 } else
        if i == 5 { Square::F1 } else
        if i == 6 { Square::G1 } else
        if i == 7 { Square::H1 } else
        if i == 8 { Square::A2 } else
        if i == 9 { Square::B2 } else
        if i == 10 { Square::C2 } else
        if i == 11 { Square::D2 } else
        if i == 12 { Square::E2 } else
        if i == 13 { Square::F2 } else
        if i == 14 { Square::G2 } else
        if i == 15 { Square::H2 } else
        if i == 16 { Square::A3 } else
        if i == 17 { Square::B3 } else
        if i == 18 { Square::C3 } else
        if i == 19 { Square::D3 } else
        if i == 20 { Square::E3 } else
        if i == 21 { Square::F3 } else
        if i == 22 { Square::G3 } else
        if i == 23 { Square::H3 } else
        if i == 24 { Square::A4 } else
        if i == 25 { Square::B4 } else
        if i == 26 { Square::C4 } else
        if i == 27 { Square::D4 } else
        if i == 28 { Square::E4 } else
        if i == 29 { Square::F4 } else
        if i == 30 { Square::G4 } else
        if i == 31 { Square::H4 } else
        if i == 32 { Square::A5 } else
        if i == 33 { Square::B5 } else
        if i == 34 { Square::C5 } else
        if i == 35 { Square::D5 } else
        if i == 36 { Square::E5 } else
        if i == 37 { Square::F5 } else
        if i == 38 { Square::G5 } else
        if i == 39 { Square::H5 } else
        if i == 40 { Square::A6 } else
        if i == 41 { Square::B6 } else
        if i == 42 { Square::C6 } else
        if i == 43 { Square::D6 } else
        if i == 44 { Square::E6 } else
        if i == 45 { Square::F6 } else
        if i == 46 { Square::G6 } else
        if i == 47 { Square::H6 } else
        if i == 48 { Square::A7 } else
        if i == 49 { Square::B7 } else
        if i == 50 { Square::C7 } else
        if i == 51 { Square::D7 } else
        if i == 52 { Square::E7 } else
        if i == 53 { Square::F7 } else
        if i == 54 { Square::G7 } else
        if i == 55 { Square::H7 } else
        if i == 56 { Square::A8 } else
        if i == 57 { Square::B8 } else
        if i == 58 { Square::C8 } else
        if i == 59 { Square::D8 } else
        if i == 60 { Square::E8 } else
        if i == 61 { Square::F8 } else
        if i == 62 { Square::G8 } else
        if i == 63 { Square::H8 } else
        { Square::NoSquare }
    }

    /// Builds the square with ordinal `square`; 64 is the sentinel.
    pub fn new(square: u8) -> (r: Square)
        requires
            square <= 64,
        ensures
            r.spec_index() == square,
            r == Square::spec_from_index(square as int),
    {
        match square {
            0 => Square::A1,
            1 => Square::B1,
            2 => Square::C1,
            3 => Square::D1,
            4 => Square::E1,
            5 => Square::F1,
            6 => Square::G1,
            7 => Square::H1,
            8 => Square::A2,
            9 => Square::B2,
            10 => Square::C2,
            11 => Square::D2,
            12 => Square::E2,
            13 => Square::F2,
            14 => Square::G2,
            15 => Square::H2,
            16 => Square::A3,
            17 => Square::B3,
            18 => Square::C3,
            19 => Square::D3,
            20 => Square::E3,
            21 => Square::F3,
            22 => Square::G3,
            23 => Square::H3,
            24 => Square::A4,
            25 => Square::B4,
            26 => Square::C4,
            27 => Square::D4,
            28 => Square::E4,
            29 => Square::F4,
            30 => Square::G4,
            31 => Square::H4,
            32 => Square::A5,
            33 => Square::B5,
            34 => Square::C5,
            35 => Square::D5,
            36 => Square::E5,
            37 => Square::F5,
            38 => Square::G5,
            39 => Square::H5,
            40 => Square::A6,
            41 => Square::B6,
            42 => Square::C6,
            43 => Square::D6,
            44 => Square::E6,
            45 => Square::F6,
            46 => Square::G6,
            47 => Square::H6,
            48 => Square::A7,
            49 => Square::B7,
            50 => Square::C7,
            51 => Square::D7,
            52 => Square::E7,
            53 => Square::F7,
            54 => Square::G7,
            55 => Square::H7,
            56 => Square::A8,
            57 => Square::B8,
            58 => Square::C8,
            59 => Square::D8,
            60 => Square::E8,
            61 => Square::F8,
            62 => Square::G8,
            63 => Square::H8,
            _ => Square::NoSquare,
        }
    }

    /// The square with ordinal `value`, or `None` when `value` is past the sentinel.
    pub fn try_new(value: u8) -> (r: Option<Square>)
        ensures
            value <= 64 ==> r == Some(Square::spec_from_index(value as int)),
            value > 64 ==> r is None,
    {
        if value <= 64 {
            Some(Square::new(value))
        } else {
            None
        }
    }

    /// The ordinal of the square, 0 to 64.
    #[verifier::when_used_as_spec(spec_index)]
    pub fn index(self) -> (r: u8)
        ensures
            r == self.spec_index(),
    {
        match self {
            Square::A1 => 0,
            Square::B1 => 1,
            Square::C1 => 2,
            Square::D1 => 3,
            Square::E1 => 4,
            Square::F1 => 5,
            Square::G1 => 6,
            Square::H1 => 7,
            Square::A2 => 8,
            Square::B2 => 9,
            Square::C2 => 10,
            Square::D2 => 11,
            Square::E2 => 12,
            Square::F2 => 13,
            Square::G2 => 14,
            Square::H2 => 15,
            Square::A3 => 16,
            Square::B3 => 17,
            Square::C3 => 18,
            Square::D3 => 19,
            Square::E3 => 20,
            Square::F3 => 21,
            Square::G3 => 22,
            Square::H3 => 23,
            Square::A4 => 24,
            Square::B4 => 25,
            Square::C4 => 26,
            Square::D4 => 27,
            Square::E4 => 28,
            Square::F4 => 29,
            Square::G4 => 30,
            Square::H4 => 31,
            Square::A5 => 32,
            Square::B5 => 33,
            Square::C5 => 34,
            Square::D5 => 35,
            Square::E5 => 36,
            Square::F5 => 37,
            Square::G5 => 38,
            Square::H5 => 39,
            Square::A6 => 40,
            Square::B6 => 41,
            Square::C6 => 42,
            Square::D6 => 43,
            Square::E6 => 44,
            Square::F6 => 45,
            Square::G6 => 46,
            Square::H6 => 47,
            Square::A7 => 48,
            Square::B7 => 49,
            Square::C7 => 50,
            Square::D7 => 51,
            Square::E7 => 52,
            Square::F7 => 53,
            Square::G7 => 54,
            Square::H7 => 55,
            Square::A8 => 56,
            Square::B8 => 57,
            Square::C8 => 58,
            Square::D8 => 59,
            Square::E8 => 60,
            Square::F8 => 61,
            Square::G8 => 62,
            Square::H8 => 63,
            Square::NoSquare => 64,
        }
    }

    /// Builds the square on `file` (0 = a) and `rank` (0 = rank 1).
    pub fn from_file_and_rank(file: u8, rank: u8) -> (r: Square)
        requires
            file < 8,
            rank < 8,
        ensures
            r.spec_index() == file + 8 * rank,
            r == Square::spec_from_index(file + 8 * rank),
    {
        assert(file | (rank << 3u8) == file + 8 * rank) by (bit_vector)
            requires
                file < 8,
                rank < 8,
        ;
        Square::new(file | (rank << 3))
    }

    /// Parses two-character algebraic text such as `e4`; anything else gives `NoSquare`.
    pub fn from_algebraic_notation(notation: &str) -> (r: Square)
        ensures
            r == parse_algebraic(notation@),
    {
        if notation.unicode_len() != 2 {
            return Square::NoSquare;
        }
        let f = notation.get_char(0);
        let r = notation.get_char(1);
        if f < 'a' || f > 'h' || r < '1' || r > '8' {
            return Square::NoSquare;
        }
        let file = (f as u32 - 'a' as u32) as u8;
        let rank = (r as u32 - '1' as u32) as u8;
        Square::from_file_and_rank(file, rank)
    }

    /// The bitboard holding this square alone.
    pub fn bitboard(self) -> (r: Bitboard)
        requires
            self.spec_index() < 64,
        ensures
            r.0 == bit_of(self.spec_index() as u64),
    {
        Bitboard(1u64 << self.index())
    }

    /// The file of the square, 0 (a) to 7 (h).
    pub fn file(&self) -> (r: u8)
        ensures
            r == self.spec_index() % 8,
    {
        self.index() % BOARD_SIZE
    }

    /// The rank of the square, 0 (rank 1) to 7 (rank 8).
    pub fn rank(&self) -> (r: u8)
        ensures
            r == self.spec_index() / 8,
    {
        self.index() / BOARD_SIZE
    }

    /// The algebraic text of the square, or `None` for the sentinel.
    pub fn to_algebraic_notation(&self) -> (r: Option<String>)
        ensures
            *self == Square::NoSquare ==> r is None,
            *self != Square::NoSquare ==> r is Some && r->0@ == algebraic_text(*self),
    {
        if *self == Square::NoSquare {
            return None;
        }
        let mut s = String::new();
        push_char(&mut s, (97u8 + self.file()) as char);
        push_char(&mut s, (49u8 + self.rank()) as char);
        Some(s)
    }
}

/// The square that algebraic text names, or `NoSquare` when the text is not a file letter
/// `a`-`h` followed by a rank digit `1`-`8`.
pub open spec fn parse_algebraic(t: Seq<char>) -> Square {
    if t.len() == 2 && 'a' <= t[0] <= 'h' && '1' <= t[1] <= '8' {
        Square::spec_from_index((t[0] as int - 'a' as int) + 8 * (t[1] as int - '1' as int))
    } else {
        Square::NoSquare
    }
}

/// The algebraic text of a real square: its file letter, then its rank digit.
pub open spec fn algebraic_text(s: Square) -> Seq<char> {
    seq![('a' as int + s.spec_index() % 8) as char, ('1' as int + s.spec_index() / 8) as char]
}

/// The ordinal of the square with ordinal `i` is `i`.
pub proof fn lemma_from_index(i: int)
    requires
        0 <= i <= 64,
    ensures
        Square::spec_from_index(i).spec_index() == i,
{
}

/// A square is the square of its own ordinal.
pub proof fn lemma_index_from(s: Square)
    ensures
        Square::spec_from_index(s.spec_index() as int) == s,
{
}

/// Two squares with the same ordinal are the same square.
pub proof fn lemma_index_injective(a: Square, b: Square)
    ensures
        a.spec_index() == b.spec_index() ==> a == b,
{
    lemma_index_from(a);
    lemma_index_from(b);
}

/// Rebuilding a real square from its file and rank gives the square back.
pub proof fn lemma_file_rank_round_trip(s: Square)
    requires
        s.spec_index() < 64,
    ensures
        Square::spec_from_index(s.spec_index() % 8 + 8 * (s.spec_index() / 8)) == s,
{
    lemma_index_from(s);
}

/// Rendering the square parsed from valid algebraic text gives the text back, and text
/// that is not valid parses to the sentinel.
pub proof fn lemma_algebraic_round_trip(t: Seq<char>)
    ensures
        t.len() == 2 && 'a' <= t[0] <= 'h' && '1' <= t[1] <= '8' ==> {
            &&& parse_algebraic(t) != Square::NoSquare
            &&& algebraic_text(parse_algebraic(t)) == t
        },
        !(t.len() == 2 && 'a' <= t[0] <= 'h' && '1' <= t[1] <= '8') ==> parse_algebraic(t) == Square::NoSquare,
{
    if t.len() == 2 && 'a' <= t[0] <= 'h' && '1' <= t[1] <= '8' {
        let f = t[0] as int - 'a' as int;
        let r = t[1] as int - '1' as int;
        lemma_from_index(f + 8 * r);
        assert((f + 8 * r) % 8 == f && (f + 8 * r) / 8 == r) by (nonlinear_arith)
            requires
                0 <= f < 8,
                0 <= r < 8,
        ;
        assert(algebraic_text(parse_algebraic(t)) =~= t);
    }
}

/// The algebraic text of a real square reads back as that square.
pub proof fn lemma_algebraic_text_parses(s: Square)
    requires
        s.spec_index() < 64,
    ensures
        parse_algebraic(algebraic_text(s)) == s,
        algebraic_text(s).len() == 2,
        algebraic_text(s)[0] != ' ',
        algebraic_text(s)[1] != ' ',
{
    let t = algebraic_text(s);
    let i = s.spec_index() as int;
    assert(i % 8 + 8 * (i / 8) == i);
    lemma_index_from(s);
}

impl Default for Square {
    /// The sentinel square.
    fn default() -> (r: Square)
        ensures
            r == Square::NoSquare,
    {
        Square::NoSquare
    }
}

} // verus!
