//! The two sides of the game.

use vstd::prelude::*;

verus! {

/// One of the two players. Black moves first and advances towards rank 1.
#[derive(Clone, Copy, Debug, PartialEq, Eq, Hash, Structural)]
pub enum Color {
    Black,
    White,
}

impl Color {
    /// How many colors there are.
    pub const NUM: usize = 2;

    /// Both colors, Black first.
    pub const ALL: [Color; 2] = [Color::Black, Color::White];

    /// Position of this color in [`Color::ALL`].
    pub open spec fn spec_index(self) -> usize {
        match self {
            Color::Black => 0,
            Color::White => 1,
        }
    }

    /// Position of this color in [`Color::ALL`].
    #[verifier::when_used_as_spec(spec_index)]
    pub fn index(self) -> (i: usize)
        ensures
            i == self.spec_index(),
            i < 2,
    {
        match self {
            Color::Black => 0,
            Color::White => 1,
        }
    }

    /// The other side.
    pub open spec fn spec_opponent(self) -> Color {
        match self {
            Color::Black => Color::White,
            Color::White => Color::Black,
        }
    }

    /// The other side.
    #[verifier::when_used_as_spec(spec_opponent)]
    pub fn opponent(self) -> (c: Color)
        ensures
            c == self.spec_opponent(),
    {
        match self {
            Color::Black => Color::White,
            Color::White => Color::Black,
        }
    }
}

} // verus!
