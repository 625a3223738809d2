use vstd::prelude::*;

verus! {

/// The side a piece belongs to, or the side to move.
#[derive(Clone, Copy, Debug, PartialEq, Eq, Structural)]
pub enum Color {
    White,
    Black,
}

impl Color {
    /// The ordinal of the color: 0 for White, 1 for Black.
    pub open spec fn spec_index(self) -> u8 {
        match self {
            Color::White => 0,
            Color::Black => 1,
        }
    }

    /// The color with ordinal `value`.
    pub fn new(value: u8) -> (r: Color)
        requires
            value < 2,
        ensures
            r.spec_index() == value,
    {
        if value == 0 {
            Color::White
        } else {
            Color::Black
        }
    }

    /// The color with ordinal `value`, or `None` when `value` is neither 0 nor 1.
    pub fn try_new(value: u8) -> (r: Option<Color>)
        ensures
            value == 0 ==> r == Some(Color::White),
            value == 1 ==> r == Some(Color::Black),
            value > 1 ==> r is None,
    {
        if value < 2 {
            Some(Color::new(value))
        } else {
            None
        }
    }

    /// The ordinal of the color: 0 for White, 1 for Black.
    #[verifier::when_used_as_spec(spec_index)]
    pub fn index(self) -> (r: u8)
        ensures
            r == self.spec_index(),
    {
        match self {
            Color::White => 0,
            Color::Black => 1,
        }
    }

    /// The opposite color.
    pub fn other(self) -> (r: Color)
        ensures
            r != self,
            r.spec_index() == 1 - self.spec_index(),
    {
        match self {
            Color::White => Color::Black,
            Color::Black => Color::White,
        }
    }

    /// The FEN letter of the color.
    pub fn char(self) -> (r: char)
        ensures
            r == color_char(self),
    {
        match self {
            Color::White => 'w',
            Color::Black => 'b',
        }
    }
}

/// The FEN letter of a color: `w` or `b`.
pub open spec fn color_char(c: Color) -> char {
    match c {
        Color::White => 'w',
        Color::Black => 'b',
    }
}

impl Default for Color {
    /// White, the side that moves first.
    fn default() -> (r: Color)
        ensures
            r == Color::White,
    {
        Color::White
    }
}

} // verus!
