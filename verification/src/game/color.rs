//! The colour of a cell: one of the two players, or empty.

use vstd::prelude::*;

verus! {

/// What a cell holds, and whose turn it is. `Empty` is the cell without a stone and,
/// as a turn, the sign that the game is over.
#[derive(Clone, Copy, Debug, PartialEq, Eq, Structural)]
pub enum Color {
    White,
    Black,
    Empty,
}

impl Color {
    /// The opponent of a player; the empty colour is its own inverse.
    pub open spec fn spec_inverse(&self) -> Color {
        match self {
            Color::White => Color::Black,
            Color::Black => Color::White,
            Color::Empty => Color::Empty,
        }
    }

    /// The symbol a cell of this colour is drawn with.
    pub open spec fn spec_get_char(&self) -> char {
        match self {
            Color::White => '●',
            Color::Black => '○',
            Color::Empty => '•',
        }
    }

    /// The name a colour goes by in messages.
    pub open spec fn spec_name(&self) -> Seq<char> {
        match self {
            Color::White => "White"@,
            Color::Black => "Black"@,
            Color::Empty => "None"@,
        }
    }

    #[verifier::when_used_as_spec(spec_inverse)]
    pub fn inverse(&self) -> (r: Color)
        ensures
            r == self.spec_inverse(),
    {
        match self {
            Color::White => Color::Black,
            Color::Black => Color::White,
            Color::Empty => Color::Empty,
        }
    }

    #[verifier::when_used_as_spec(spec_get_char)]
    pub fn get_char(&self) -> (r: char)
        ensures
            r == self.spec_get_char(),
    {
        match self {
            Color::White => '●',
            Color::Black => '○',
            Color::Empty => '•',
        }
    }
}

impl Color {
    /// The colour's name, as text.
    pub fn name(&self) -> (s: String)
        ensures
            s@ == self.spec_name(),
    {
        match self {
            Color::White => "White".to_owned(),
            Color::Black => "Black".to_owned(),
            Color::Empty => "None".to_owned(),
        }
    }
}

impl Default for Color {
    fn default() -> (r: Color)
        ensures
            r == Color::Empty,
    {
        Color::Empty
    }
}

} // verus!
