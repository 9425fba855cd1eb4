//! Moves: relocating a piece on the board, or dropping one from the hand.

use crate::piece::Piece;
use crate::square::Square;
use vstd::prelude::*;

verus! {

/// One move, carrying all that is needed to apply it and to take it back.
///
/// A move with an origin relocates the piece standing there; a move without
/// one drops `piece` from the mover's hand.
#[derive(Clone, Copy, Debug, PartialEq, Eq, Structural)]
pub struct Move {
    /// The origin square; `None` for a drop.
    pub from: Option<Square>,
    /// The destination square.
    pub to: Square,
    /// Whether the piece promotes as it moves.
    pub promotion: bool,
    /// The piece that moves, as it was before the move.
    pub piece: Piece,
    /// What stood on the destination before the move; `EMP` if nothing.
    pub captured: Piece,
}

impl Move {
    /// A move of `piece` from `from` to `to`, capturing `captured` (`EMP`
    /// for none) and promoting if `promotion` is set.
    pub fn new_normal(
        from: Square,
        to: Square,
        promotion: bool,
        piece: Piece,
        captured: Piece,
    ) -> (m: Move)
        ensures
            m == (Move { from: Some(from), to, promotion, piece, captured }),
    {
        Move { from: Some(from), to, promotion, piece, captured }
    }

    /// A drop of `piece` onto `to`.
    pub fn new_drop(to: Square, piece: Piece) -> (m: Move)
        ensures
            m == (Move { from: None, to, promotion: false, piece, captured: Piece::EMP }),
    {
        Move { from: None, to, promotion: false, piece, captured: Piece::EMP }
    }

    /// The origin square; `None` for a drop.
    pub fn from(&self) -> (r: Option<Square>)
        ensures
            r == self.from,
    {
        self.from
    }

    /// The destination square.
    pub fn to(&self) -> (r: Square)
        ensures
            r == self.to,
    {
        self.to
    }

    /// Whether the piece promotes as it moves.
    pub fn is_promotion(&self) -> (r: bool)
        ensures
            r == self.promotion,
    {
        self.promotion
    }

    /// Whether this move drops a piece from the hand.
    pub fn is_drop(&self) -> (r: bool)
        ensures
            r == self.from.is_none(),
    {
        self.from.is_none()
    }

    /// The piece that moves.
    pub fn piece(&self) -> (r: Piece)
        ensures
            r == self.piece,
    {
        self.piece
    }

    /// The captured piece as the contracts see it: `None` where the move
    /// captures nothing.
    pub open spec fn spec_captured(&self) -> Option<Piece> {
        if self.captured == Piece::EMP {
            None
        } else {
            Some(self.captured)
        }
    }

    /// The piece this move captures, if any.
    #[verifier::when_used_as_spec(spec_captured)]
    pub fn captured(&self) -> (r: Option<Piece>)
        ensures
            r == self.spec_captured(),
    {
        match self.captured {
            Piece::EMP => None,
            p => Some(p),
        }
    }
}

} // verus!
