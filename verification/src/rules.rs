//! Which moves the rules allow, stated over placements.

use crate::attacks::attacks;
use crate::color::Color;
use crate::hand::hand_num;
use crate::moves::Move;
use crate::piece::{Piece, PieceType};
use crate::placement::Placement;
use crate::square::Square;
use vstd::prelude::*;

verus! {

/// How many ranks lie between `sq` and the far edge of the board, as side
/// `c` sees it.
pub open spec fn ranks_ahead(c: Color, sq: Square) -> int {
    match c {
        Color::Black => sq.spec_rank() as int,
        Color::White => 8 - sq.spec_rank(),
    }
}

/// Whether `sq` lies in the promotion zone of side `c`: the three ranks
/// farthest from where that side starts.
pub open spec fn in_zone(c: Color, sq: Square) -> bool {
    ranks_ahead(c, sq) <= 2
}

/// Whether a piece of type `pt` and side `c` standing on `sq` would still
/// have a square to move to: a pawn or lance must not stand on the last
/// rank, nor a knight on the last two.
pub open spec fn can_stand(pt: PieceType, c: Color, sq: Square) -> bool {
    match pt {
        PieceType::FU | PieceType::KY => ranks_ahead(c, sq) >= 1,
        PieceType::KE => ranks_ahead(c, sq) >= 2,
        _ => true,
    }
}

/// How many ranks lie between `sq` and the far edge of the board, as side
/// `c` sees it.
pub fn rows_ahead(c: Color, sq: Square) -> (n: u8)
    ensures
        n == ranks_ahead(c, sq),
        n < 9,
{
    match c {
        Color::Black => sq.rank(),
        Color::White => 8 - sq.rank(),
    }
}

/// Whether `sq` lies in the promotion zone of side `c`.
pub fn is_in_zone(c: Color, sq: Square) -> (b: bool)
    ensures
        b == in_zone(c, sq),
{
    rows_ahead(c, sq) <= 2
}

/// Whether a piece of type `pt` and side `c` standing on `sq` would still
/// have a square to move to.
pub fn is_able_to_stand(pt: PieceType, c: Color, sq: Square) -> (b: bool)
    ensures
        b == can_stand(pt, c, sq),
{
    match pt {
        PieceType::FU | PieceType::KY => rows_ahead(c, sq) >= 1,
        PieceType::KE => rows_ahead(c, sq) >= 2,
        _ => true,
    }
}

impl Placement {
    /// Whether side `c` has an unpromoted pawn on the file of `sq`.
    pub open spec fn has_pawn_on_file(self, c: Color, sq: Square) -> bool {
        exists|s: Square|
            s.spec_file() == sq.spec_file() && #[trigger] self.piece_on(s) == Piece::spec_new(
                c,
                PieceType::FU,
            )
    }

    /// Whether `m` moves as the pieces move.
    ///
    /// A move with an origin takes a piece of the side to move to a square
    /// that the piece attacks and that holds none of its own side; it names
    /// the piece and what it captures; it promotes only a piece that can,
    /// and only into, out of or within the promotion zone; unpromoted, the
    /// piece must be able to stand where it lands. A drop puts a piece that
    /// the mover's hand holds on an empty square where it can stand, and a
    /// pawn only on a file where the mover has no unpromoted pawn.
    pub open spec fn pseudo_legal(self, m: Move) -> bool {
        match m.from {
            Some(from) => {
                &&& self.piece_on(from).spec_color() == Some(self.side)
                &&& m.piece == self.piece_on(from)
                &&& m.captured == self.piece_on(m.to)
                &&& self.piece_on(m.to).spec_color() != Some(self.side)
                &&& self.piece_on(from).spec_piece_type() matches Some(pt) && attacks(
                    pt,
                    self.side,
                    from,
                    m.to,
                    self.occupied(),
                ) && if m.promotion {
                    pt.spec_is_promotable() && (in_zone(self.side, from) || in_zone(
                        self.side,
                        m.to,
                    ))
                } else {
                    can_stand(pt, self.side, m.to)
                }
            },
            None => {
                &&& self.piece_on(m.to) == Piece::EMP
                &&& !m.promotion
                &&& m.captured == Piece::EMP
                &&& m.piece.spec_color() == Some(self.side)
                &&& m.piece.spec_piece_type() matches Some(pt) && pt.is_hand_type() && hand_num(
                    self.hand(self.side),
                    pt,
                ) > 0 && can_stand(pt, self.side, m.to) && (pt == PieceType::FU
                    ==> !self.has_pawn_on_file(self.side, m.to))
            },
        }
    }

    /// Whether, after `m`, the mover's own king is attacked.
    pub open spec fn exposes_king(self, m: Move) -> bool {
        let after = self.apply(m);
        after.king(self.side) matches Some(k) && after.attackers_to(self.side.spec_opponent(), k)
            != Set::<Square>::empty()
    }

    /// Whether `m` moves as the pieces move and leaves the mover's king
    /// unattacked.
    pub open spec fn playable(self, m: Move) -> bool {
        self.pseudo_legal(m) && !self.exposes_king(m)
    }

    /// Whether `m` drops a pawn that gives check and leaves the other side
    /// without a playable answer.
    pub open spec fn is_pawn_drop_mate(self, m: Move) -> bool {
        &&& m.from.is_none()
        &&& m.piece.spec_piece_type() == Some(PieceType::FU)
        &&& self.apply(m).checkers().contains(m.to)
        &&& forall|r: Move| !#[trigger] self.apply(m).playable(r)
    }

    /// Whether the rules allow `m`: it moves as the pieces move, leaves the
    /// mover's king unattacked, and is no mate by a dropped pawn.
    pub open spec fn legal(self, m: Move) -> bool {
        self.playable(m) && !self.is_pawn_drop_mate(m)
    }

    /// A move that moves as the pieces move fits the placement.
    pub proof fn lemma_pseudo_legal_admits(self, m: Move)
        requires
            self.pseudo_legal(m),
        ensures
            self.admits(m),
    {
    }
}

} // verus!
