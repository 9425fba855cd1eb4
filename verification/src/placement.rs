//! The mathematical model of a position: what stands where, what each side
//! holds in hand, and who is to move. Everything the contracts of
//! [`crate::position::Position`] say is said about a [`Placement`].

use crate::attacks::{attacks, is_between, is_slider, slides_to};
use crate::color::Color;
use crate::hand::{hand_added, hand_num, hand_removed};
use crate::moves::Move;
use crate::piece::{Piece, PieceType};
use crate::square::Square;
use vstd::prelude::*;

verus! {

/// A position as a plain value.
#[verifier::ext_equal]
pub struct Placement {
    /// The piece on each square, by square index.
    pub board: Seq<Piece>,
    /// Black's hand counts, in the order of [`PieceType::ALL_HAND`].
    pub black_hand: Seq<nat>,
    /// White's hand counts, in the order of [`PieceType::ALL_HAND`].
    pub white_hand: Seq<nat>,
    /// The side to move.
    pub side: Color,
}

impl Placement {
    /// Whether the board has 81 squares and each hand seven counts.
    pub open spec fn wf(self) -> bool {
        self.board.len() == 81 && self.black_hand.len() == 7 && self.white_hand.len() == 7
    }

    /// The piece on `sq`.
    pub open spec fn piece_on(self, sq: Square) -> Piece {
        self.board[sq.spec_index() as int]
    }

    /// The hand counts of side `c`.
    pub open spec fn hand(self, c: Color) -> Seq<nat> {
        match c {
            Color::Black => self.black_hand,
            Color::White => self.white_hand,
        }
    }

    /// This placement with the hand of side `c` replaced by `h`.
    pub open spec fn with_hand(self, c: Color, h: Seq<nat>) -> Placement {
        match c {
            Color::Black => Placement { black_hand: h, ..self },
            Color::White => Placement { white_hand: h, ..self },
        }
    }

    /// This placement with `p` put on `sq`.
    pub open spec fn with_piece(self, sq: Square, p: Piece) -> Placement {
        Placement { board: self.board.update(sq.spec_index() as int, p), ..self }
    }

    /// The squares that hold a piece.
    pub open spec fn occupied(self) -> Set<Square> {
        Set::new(|sq: Square| self.piece_on(sq) != Piece::EMP)
    }

    /// The squares that hold a piece of side `c`.
    pub open spec fn pieces_c(self, c: Color) -> Set<Square> {
        Set::new(|sq: Square| self.piece_on(sq).spec_color() == Some(c))
    }

    /// The squares that hold a piece of type `pt`.
    pub open spec fn pieces_p(self, pt: PieceType) -> Set<Square> {
        Set::new(|sq: Square| self.piece_on(sq).spec_piece_type() == Some(pt))
    }

    /// The squares that hold a piece of side `c` and type `pt`.
    pub open spec fn pieces_cp(self, c: Color, pt: PieceType) -> Set<Square> {
        Set::new(|sq: Square| self.piece_on(sq).is(c, pt))
    }

    /// The squares that hold a piece of one of the types in `pts`.
    pub open spec fn pieces_ps(self, pts: Seq<PieceType>) -> Set<Square> {
        Set::new(
            |sq: Square|
                exists|i: int|
                    0 <= i < pts.len() && self.piece_on(sq).spec_piece_type() == Some(
                        #[trigger] pts[i],
                    ),
        )
    }

    /// Whether `sq` holds the king of side `c` and no square of lower
    /// index does.
    pub open spec fn is_king_square(self, c: Color, sq: Square) -> bool {
        self.piece_on(sq).is(c, PieceType::OU) && forall|s: Square|
            #![trigger self.piece_on(s)]
            self.piece_on(s).is(c, PieceType::OU) ==> sq.spec_index() <= s.spec_index()
    }

    /// The square of the king of side `c`: the one of lowest index should
    /// the board hold several, `None` if it holds none.
    pub open spec fn king(self, c: Color) -> Option<Square> {
        if exists|sq: Square| self.is_king_square(c, sq) {
            Some(choose|sq: Square| self.is_king_square(c, sq))
        } else {
            None
        }
    }

    /// The squares from which a piece of side `c` attacks `to`.
    pub open spec fn attackers_to(self, c: Color, to: Square) -> Set<Square> {
        Set::new(
            |from: Square|
                match self.piece_on(from).spec_piece_type() {
                    Some(pt) => self.piece_on(from).spec_color() == Some(c) && attacks(
                        pt,
                        c,
                        from,
                        to,
                        self.occupied(),
                    ),
                    None => false,
                },
        )
    }

    /// The squares from which the king of the side to move is attacked;
    /// empty if that side has no king.
    pub open spec fn checkers(self) -> Set<Square> {
        match self.king(self.side) {
            Some(k) => self.attackers_to(self.side.spec_opponent(), k),
            None => Set::empty(),
        }
    }

    /// Whether the king of the side to move is attacked.
    pub open spec fn in_check(self) -> bool {
        self.checkers() != Set::<Square>::empty()
    }

    /// Whether `sniper` holds a sliding piece of the side opposing `c` that
    /// would attack `king` on an empty board.
    pub open spec fn is_sniper(self, c: Color, king: Square, sniper: Square) -> bool {
        match self.piece_on(sniper).spec_piece_type() {
            Some(pt) => self.piece_on(sniper).spec_color() == Some(c.spec_opponent()) && is_slider(
                pt,
            ) && slides_to(pt, c.spec_opponent(), sniper, king),
            None => false,
        }
    }

    /// Whether `sq` is the one occupied square strictly between `king` and
    /// `sniper`.
    pub open spec fn is_sole_blocker(self, king: Square, sniper: Square, sq: Square) -> bool {
        is_between(king, sniper, sq) && self.piece_on(sq) != Piece::EMP && forall|s: Square|
            #![trigger self.piece_on(s)]
            is_between(king, sniper, s) && self.piece_on(s) != Piece::EMP ==> s == sq
    }

    /// Whether the piece on `sq` shields `king` from `sniper`.
    pub open spec fn shields(self, c: Color, king: Square, sniper: Square, sq: Square) -> bool {
        self.is_sniper(c, king, sniper) && self.is_sole_blocker(king, sniper, sq)
    }

    /// The pinned pieces of side `c`: its own pieces that stand alone
    /// between its king and an opposing sliding piece aimed at the king.
    pub open spec fn pinned(self, c: Color) -> Set<Square> {
        Set::new(
            |sq: Square|
                match self.king(c) {
                    Some(k) => self.piece_on(sq).spec_color() == Some(c) && exists|sniper: Square|
                        self.shields(c, k, sniper, sq),
                    None => false,
                },
        )
    }

    /// Whether the move `m` fits this placement.
    ///
    /// A move with an origin must move a piece of the side to move onto a
    /// square that holds none of its own, name what stood there as captured,
    /// and promote only a piece that can. A drop must put an unpromoted
    /// piece of the side to move, one that its hand holds, on an empty
    /// square.
    pub open spec fn admits(self, m: Move) -> bool {
        match m.from {
            Some(from) => {
                &&& self.piece_on(from).spec_color() == Some(self.side)
                &&& self.piece_on(m.to).spec_color() != Some(self.side)
                &&& m.captured == self.piece_on(m.to)
                &&& m.promotion ==> self.piece_on(from).spec_is_promotable()
            },
            None => {
                &&& self.piece_on(m.to) == Piece::EMP
                &&& m.piece.spec_color() == Some(self.side)
                &&& m.piece.spec_piece_type() matches Some(pt) && pt.is_hand_type() && hand_num(
                    self.hand(self.side),
                    pt,
                ) > 0
                &&& !m.promotion
                &&& m.captured == Piece::EMP
            },
        }
    }

    /// The hand of the side to move after it has captured `p`.
    pub open spec fn hand_after_capture(self, p: Piece) -> Seq<nat> {
        match p.spec_piece_type() {
            Some(pt) => hand_added(self.hand(self.side), pt),
            None => self.hand(self.side),
        }
    }

    /// The placement after the move `m`.
    ///
    /// A moved piece leaves its origin and stands, promoted if the move says
    /// so, on the destination; what it captures enters the mover's hand in
    /// unpromoted form. A dropped piece leaves the mover's hand. The turn
    /// passes to the other side.
    pub open spec fn apply(self, m: Move) -> Placement {
        match m.from {
            Some(from) => {
                let p = self.piece_on(from);
                let placed = if m.promotion {
                    p.spec_promoted()
                } else {
                    p
                };
                Placement {
                    board: self.board.update(from.spec_index() as int, Piece::EMP).update(
                        m.to.spec_index() as int,
                        placed,
                    ),
                    side: self.side.spec_opponent(),
                    ..self.with_hand(self.side, self.hand_after_capture(self.piece_on(m.to)))
                }
            },
            None => Placement {
                board: self.board.update(m.to.spec_index() as int, m.piece),
                side: self.side.spec_opponent(),
                ..self.with_hand(
                    self.side,
                    match m.piece.spec_piece_type() {
                        Some(pt) => hand_removed(self.hand(self.side), pt),
                        None => self.hand(self.side),
                    },
                )
            },
        }
    }

    /// The placement before the move `m`, seen from the placement after it.
    ///
    /// The turn passes back to the mover. A moved piece returns to its
    /// origin, unpromoted again if it had promoted, and what it captured
    /// returns from the mover's hand to the destination. A dropped piece
    /// returns to the mover's hand.
    pub open spec fn revert(self, m: Move) -> Placement {
        let mover = self.side.spec_opponent();
        let p = self.piece_on(m.to);
        match m.from {
            Some(from) => {
                let back = if m.promotion {
                    p.spec_demoted()
                } else {
                    p
                };
                Placement {
                    board: self.board.update(m.to.spec_index() as int, m.captured).update(
                        from.spec_index() as int,
                        back,
                    ),
                    side: mover,
                    ..self.with_hand(
                        mover,
                        match m.captured.spec_piece_type() {
                            Some(pt) => hand_removed(self.hand(mover), pt),
                            None => self.hand(mover),
                        },
                    )
                }
            },
            None => Placement {
                board: self.board.update(m.to.spec_index() as int, Piece::EMP),
                side: mover,
                ..self.with_hand(
                    mover,
                    match p.spec_piece_type() {
                        Some(pt) => hand_added(self.hand(mover), pt),
                        None => self.hand(mover),
                    },
                )
            },
        }
    }

    /// The squares that hold a piece of type `t` or the promoted form of
    /// it.
    pub open spec fn holders(self, t: PieceType) -> Set<Square> {
        Set::new(
            |sq: Square|
                match self.piece_on(sq).spec_piece_type() {
                    Some(pt) => pt.spec_demoted() == t,
                    None => false,
                },
        )
    }

    /// How many pieces of the unpromoted type `t` the game holds: those on
    /// the board, promoted or not, and those in the two hands.
    pub open spec fn material(self, t: PieceType) -> nat {
        self.holders(t).len() + hand_num(self.black_hand, t) + hand_num(self.white_hand, t)
    }

    /// At most one square is the king's square.
    pub proof fn lemma_king_unique(self, c: Color, a: Square, b: Square)
        requires
            self.is_king_square(c, a),
            self.is_king_square(c, b),
        ensures
            a == b,
    {
        let pa = self.piece_on(a);
        let pb = self.piece_on(b);
        a.lemma_same_index(b);
    }

    /// The king's square, once found, is what `king` names.
    pub proof fn lemma_king_found(self, c: Color, sq: Square)
        requires
            self.is_king_square(c, sq),
        ensures
            self.king(c) == Some(sq),
    {
        let k = choose|k: Square| self.is_king_square(c, k);
        self.lemma_king_unique(c, k, sq);
    }

    /// Where no square holds the king, `king` names none.
    pub proof fn lemma_king_absent(self, c: Color)
        requires
            forall|s: Square| !self.piece_on(s).is(c, PieceType::OU),
        ensures
            self.king(c).is_none(),
    {
    }

    /// Taking a move back undoes it: after a move that fits, reverting the
    /// same move gives the placement the move was made from.
    pub proof fn lemma_round_trip(self, m: Move)
        requires
            self.wf(),
            self.admits(m),
        ensures
            self.apply(m).wf(),
            self.apply(m).revert(m) == self,
    {
        let after = self.apply(m);
        let back = after.revert(m);
        m.to.lemma_coords();
        match m.from {
            Some(from) => {
                from.lemma_coords();
                if from.spec_index() == m.to.spec_index() {
                    from.lemma_same_index(m.to);
                }
                assert(back.board =~= self.board);
            },
            None => {
                assert(back.board =~= self.board);
            },
        }
        assert(back.black_hand =~= self.black_hand);
        assert(back.white_hand =~= self.white_hand);
        assert(back =~= self);
    }

    /// Putting a piece on a square changes the count of a type by what the
    /// square held and what it holds now.
    pub proof fn lemma_holders_update(self, sq: Square, p: Piece, t: PieceType)
        requires
            self.wf(),
        ensures
            self.with_piece(sq, p).holders(t).len() == self.holders(t).len() - (if self.holders(
                t,
            ).contains(sq) {
                1int
            } else {
                0int
            }) + (if p.spec_piece_type() matches Some(pt) && pt.spec_demoted() == t {
                1int
            } else {
                0int
            }),
    {
        let after = self.with_piece(sq, p);
        let before_set = self.holders(t);
        let after_set = after.holders(t);
        Square::lemma_finite(before_set);
        Square::lemma_finite(after_set);
        sq.lemma_coords();
        assert forall|s: Square| s != sq implies after.piece_on(s) == self.piece_on(s) by {
            s.lemma_coords();
            if s.spec_index() == sq.spec_index() {
                s.lemma_same_index(sq);
            }
        }
        assert(after.piece_on(sq) == p);
        if p.spec_piece_type() matches Some(pt) && pt.spec_demoted() == t {
            assert(after_set =~= before_set.insert(sq));
        } else {
            assert(after_set =~= before_set.remove(sq));
        }
    }

    /// One if `p` is a piece of type `t` or of its promoted form, else zero.
    pub open spec fn counts_as(p: Piece, t: PieceType) -> int {
        if p.spec_piece_type() matches Some(pt) && pt.spec_demoted() == t {
            1
        } else {
            0
        }
    }

    /// What a move with an origin does to the count of a type on the board:
    /// only a captured piece goes missing.
    proof fn lemma_board_after_move(self, m: Move, t: PieceType)
        requires
            self.wf(),
            self.admits(m),
            m.from.is_some(),
        ensures
            self.apply(m).holders(t).len() == self.holders(t).len() - Self::counts_as(
                self.piece_on(m.to),
                t,
            ),
    {
        let from = m.from.unwrap();
        let p = self.piece_on(from);
        let placed = if m.promotion {
            p.spec_promoted()
        } else {
            p
        };
        let lifted = self.with_piece(from, Piece::EMP);
        let landed = lifted.with_piece(m.to, placed);
        self.lemma_holders_update(from, Piece::EMP, t);
        lifted.lemma_holders_update(m.to, placed, t);
        from.lemma_coords();
        m.to.lemma_coords();
        if from.spec_index() == m.to.spec_index() {
            from.lemma_same_index(m.to);
        }
        assert(lifted.piece_on(m.to) == self.piece_on(m.to));
        assert(self.apply(m).board =~= landed.board);
        assert(self.apply(m).holders(t) =~= landed.holders(t));
    }

    /// What a drop does to the count of a type on the board.
    proof fn lemma_board_after_drop(self, m: Move, t: PieceType)
        requires
            self.wf(),
            self.admits(m),
            m.from.is_none(),
        ensures
            self.apply(m).holders(t).len() == self.holders(t).len() + Self::counts_as(m.piece, t),
    {
        let landed = self.with_piece(m.to, m.piece);
        self.lemma_holders_update(m.to, m.piece, t);
        assert(self.apply(m).board =~= landed.board);
        assert(self.apply(m).holders(t) =~= landed.holders(t));
    }

    /// What a move does to the hands: a captured piece enters, a dropped
    /// piece leaves, and a king does neither.
    proof fn lemma_hands_after(self, m: Move, t: PieceType)
        requires
            self.wf(),
            self.admits(m),
            t.spec_demoted() == t,
            t != PieceType::OU,
        ensures
            m.from.is_some() ==> hand_num(self.apply(m).black_hand, t) + hand_num(
                self.apply(m).white_hand,
                t,
            ) == hand_num(self.black_hand, t) + hand_num(self.white_hand, t) + Self::counts_as(
                self.piece_on(m.to),
                t,
            ),
            m.from.is_none() ==> hand_num(self.apply(m).black_hand, t) + hand_num(
                self.apply(m).white_hand,
                t,
            ) == hand_num(self.black_hand, t) + hand_num(self.white_hand, t) - Self::counts_as(
                m.piece,
                t,
            ),
    {
    }

    /// Moves conserve material: a move that fits leaves the number of pieces
    /// of each unpromoted type, board and hands together, as it was. The
    /// one exception is the capture of a king, which no hand takes in.
    pub proof fn lemma_conservation(self, m: Move, t: PieceType)
        requires
            self.wf(),
            self.admits(m),
            t.spec_demoted() == t,
            !(t == PieceType::OU && self.piece_on(m.to).spec_piece_type() == Some(PieceType::OU)),
        ensures
            self.apply(m).material(t) == self.material(t),
    {
        if m.from.is_some() {
            self.lemma_board_after_move(m, t);
        } else {
            self.lemma_board_after_drop(m, t);
        }
        if t != PieceType::OU {
            self.lemma_hands_after(m, t);
        }
    }

    /// Taking a move back conserves material as making it does.
    pub proof fn lemma_conservation_back(self, m: Move, t: PieceType)
        requires
            self.wf(),
            self.admits(m),
            t.spec_demoted() == t,
            !(t == PieceType::OU && self.piece_on(m.to).spec_piece_type() == Some(PieceType::OU)),
        ensures
            self.apply(m).revert(m).material(t) == self.apply(m).material(t),
    {
        self.lemma_round_trip(m);
        self.lemma_conservation(m, t);
    }

    /// A piece that stands alone between its own king and an opposing rook
    /// on the king's rank is pinned.
    pub proof fn lemma_pinned_on_rank(self, c: Color, king: Square, rook: Square, sq: Square)
        requires
            self.wf(),
            self.king(c) == Some(king),
            self.piece_on(rook) == Piece::spec_new(c.spec_opponent(), PieceType::HI),
            self.piece_on(sq).spec_color() == Some(c),
            king.spec_rank() == rook.spec_rank(),
            is_between(king, rook, sq),
            forall|s: Square|
                #![trigger self.piece_on(s)]
                is_between(king, rook, s) && s != sq ==> self.piece_on(s) == Piece::EMP,
        ensures
            self.pinned(c).contains(sq),
    {
        Piece::lemma_parts_of_new(c.spec_opponent(), PieceType::HI);
        assert(self.is_sniper(c, king, rook));
        assert(self.is_sole_blocker(king, rook, sq));
        assert(self.shields(c, king, rook, sq));
    }

    /// Board and occupancy sets agree on every square: an empty square is
    /// in none of the sets, and a square that holds a piece is in the set
    /// of that piece's color and in no other color's, in the set of its
    /// type and in no other type's, and in the set of occupied squares.
    pub proof fn lemma_consistency(self, sq: Square)
        ensures
            self.piece_on(sq) == Piece::EMP ==> !self.occupied().contains(sq) && (forall|c: Color|
                !self.pieces_c(c).contains(sq)) && (forall|pt: PieceType|
                !self.pieces_p(pt).contains(sq)),
            self.piece_on(sq) != Piece::EMP ==> self.occupied().contains(sq) && (exists|
                c: Color,
                pt: PieceType,
            |
                self.piece_on(sq) == Piece::spec_new(c, pt) && (forall|c2: Color| #[trigger]
                    self.pieces_c(c2).contains(sq) == (c2 == c)) && (forall|pt2: PieceType|
                    #[trigger]
                    self.pieces_p(pt2).contains(sq) == (pt2 == pt))),
    {
        let p = self.piece_on(sq);
        p.lemma_new_of_parts();
        if p != Piece::EMP {
            let c = p.spec_color().unwrap();
            let pt = p.spec_piece_type().unwrap();
            assert(p == Piece::spec_new(c, pt));
            assert(forall|c2: Color| #[trigger] self.pieces_c(c2).contains(sq) == (c2 == c));
            assert(forall|pt2: PieceType| #[trigger]
                self.pieces_p(pt2).contains(sq) == (pt2 == pt));
        }
    }

    /// Being in check, having checkers, and the king of the side to move
    /// being attacked by the other side are one and the same.
    pub proof fn lemma_check_symmetry(self)
        ensures
            self.in_check() == (self.checkers() != Set::<Square>::empty()),
            self.in_check() == (self.king(self.side) matches Some(k) && self.attackers_to(
                self.side.spec_opponent(),
                k,
            ) != Set::<Square>::empty()),
    {
    }
}

} // verus!
