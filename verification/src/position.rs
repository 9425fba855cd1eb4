//! The position: board, bitboards, hands, side to move, and the stack of
//! per-ply facts about checks and pins.

use crate::attacks::{
    attack,
    between,
    is_between,
    lemma_attack_families,
    lemma_attack_symmetry,
    lemma_slide_symmetry,
    lemma_unhindered,
    pseudo_attack,
};
use crate::bitboard::Bitboard;
use crate::color::Color;
use crate::hand::Hand;
use crate::moves::Move;
use crate::piece::{Piece, PieceType};
use crate::placement::Placement;
use crate::square::Square;
use vstd::prelude::*;

verus! {

/// What is computed once per ply and kept: who gives check, and who is
/// pinned.
#[derive(Clone, Copy)]
struct State {
    /// The opposing pieces that attack the king of the side to move.
    checkers: Bitboard,
    /// For each color, its pinned pieces.
    pinned: [Bitboard; 2],
}

impl State {
    fn new(checkers: Bitboard, pinned: [Bitboard; 2]) -> (s: State)
        ensures
            s.checkers == checkers,
            s.pinned == pinned,
    {
        State { checkers, pinned }
    }

    /// Whether this state holds the checkers and pins of `v`.
    spec fn describes(&self, v: Placement) -> bool {
        &&& self.checkers@ == v.checkers()
        &&& self.pinned@[0]@ == v.pinned(Color::Black)
        &&& self.pinned@[1]@ == v.pinned(Color::White)
    }

    /// The pinned pieces of each color in `pos`.
    fn calculate_pinned(pos: &Position) -> (r: [Bitboard; 2])
        requires
            pos.consistent(),
        ensures
            r@[0]@ == pos@.pinned(Color::Black),
            r@[1]@ == pos@.pinned(Color::White),
    {
        [pos.pinned_of(Color::Black), pos.pinned_of(Color::White)]
    }
}

/// The most material of one type that a position is built with: every
/// square of the board and both hands at their fullest.
const MAX_MATERIAL: u16 = 591;

/// A state of the game.
pub struct Position {
    board: [Piece; 81],
    hands: [Hand; 2],
    color: Color,
    c_bb: [Bitboard; 2],
    pt_bb: [Bitboard; 14],
    occ: Bitboard,
    states: Vec<State>,
    past: Ghost<Seq<(Placement, Move)>>,
}

impl View for Position {
    type V = Placement;

    /// Board, hands and side to move.
    closed spec fn view(&self) -> Placement {
        Placement {
            board: self.board@,
            black_hand: self.hands@[0]@,
            white_hand: self.hands@[1]@,
            side: self.color,
        }
    }
}

impl Position {
    /// The squares in the bitboard kept for color `c`.
    pub closed spec fn color_set(&self, c: Color) -> Set<Square> {
        self.c_bb@[c.spec_index() as int]@
    }

    /// The squares in the bitboard kept for type `pt`.
    pub closed spec fn type_set(&self, pt: PieceType) -> Set<Square> {
        self.pt_bb@[pt.spec_index() as int]@
    }

    /// The squares in the bitboard kept for occupancy.
    pub closed spec fn occupied_set(&self) -> Set<Square> {
        self.occ@
    }

    /// How many states the stack holds.
    pub closed spec fn height(&self) -> nat {
        self.states@.len()
    }

    /// Whether the given bitboards agree with the given board.
    spec fn agree(
        board: Seq<Piece>,
        occ: Set<Square>,
        c_bb: Seq<Bitboard>,
        pt_bb: Seq<Bitboard>,
    ) -> bool {
        &&& forall|sq: Square| #[trigger]
            occ.contains(sq) == (board[sq.spec_index() as int] != Piece::EMP)
        &&& forall|c: Color, sq: Square| #[trigger]
            c_bb[c.spec_index() as int]@.contains(sq) == (board[sq.spec_index() as int].spec_color()
                == Some(c))
        &&& forall|pt: PieceType, sq: Square| #[trigger]
            pt_bb[pt.spec_index() as int]@.contains(sq) == (
            board[sq.spec_index() as int].spec_piece_type() == Some(pt))
    }

    /// Whether the bitboards agree with the board: each holds exactly the
    /// squares whose piece it stands for.
    pub closed spec fn consistent(&self) -> bool {
        Self::agree(self.board@, self.occ@, self.c_bb@, self.pt_bb@)
    }

    /// Whether `st` holds the checkers and pins of `v`, a placement in
    /// order.
    #[verifier::opaque]
    spec fn sound(st: State, v: Placement) -> bool {
        v.wf() && Self::within_bounds(v) && st.describes(v)
    }

    /// Whether the move `m` fits `v` and leads from it to `next`.
    #[verifier::opaque]
    spec fn linked(v: Placement, m: Move, next: Placement) -> bool {
        v.admits(m) && v.apply(m) == next
    }

    /// Whether place `i` of the tally is in order: the state there belongs
    /// to the placement there, and the move made there leads to the next
    /// placement, the last move to `now`.
    spec fn entry(
        states: Seq<State>,
        past: Seq<(Placement, Move)>,
        now: Placement,
        i: int,
    ) -> bool {
        &&& Self::sound(states[i], past[i].0)
        &&& Self::linked(
            past[i].0,
            past[i].1,
            if i + 1 < past.len() {
                past[i + 1].0
            } else {
                now
            },
        )
    }

    /// Whether the stack `states` is what the moves in `past` have left,
    /// `now` being the current placement.
    spec fn tallies(states: Seq<State>, past: Seq<(Placement, Move)>, now: Placement) -> bool {
        &&& states.len() == past.len() + 1
        &&& Self::sound(states[states.len() - 1], now)
        &&& forall|i: int| 0 <= i < past.len() ==> #[trigger] Self::entry(states, past, now, i)
    }

    /// One more move keeps the tally.
    proof fn lemma_tally_push(
        states: Seq<State>,
        past: Seq<(Placement, Move)>,
        now: Placement,
        m: Move,
        st: State,
    )
        requires
            Self::tallies(states, past, now),
            Self::linked(now, m, now.apply(m)),
            Self::sound(st, now.apply(m)),
        ensures
            Self::tallies(states.push(st), past.push((now, m)), now.apply(m)),
    {
        let states2 = states.push(st);
        let past2 = past.push((now, m));
        let next = now.apply(m);
        assert forall|i: int| 0 <= i < past2.len() implies #[trigger] Self::entry(
            states2,
            past2,
            next,
            i,
        ) by {
            if i < past.len() {
                assert(Self::entry(states, past, now, i));
            }
        }
    }

    /// One move fewer keeps the tally.
    proof fn lemma_tally_pop(states: Seq<State>, past: Seq<(Placement, Move)>, now: Placement)
        requires
            Self::tallies(states, past, now),
            past.len() > 0,
        ensures
            Self::tallies(states.drop_last(), past.drop_last(), past.last().0),
            Self::linked(past.last().0, past.last().1, now),
            Self::sound(states[states.len() - 2], past.last().0),
    {
        let states2 = states.drop_last();
        let past2 = past.drop_last();
        let prior = past.last().0;
        assert(Self::entry(states, past, now, past.len() - 1));
        assert forall|i: int| 0 <= i < past2.len() implies #[trigger] Self::entry(
            states2,
            past2,
            prior,
            i,
        ) by {
            assert(Self::entry(states, past, now, i));
        }
    }

    /// Whether no type has more material than hand counters can hold.
    spec fn within_bounds(v: Placement) -> bool {
        forall|t: PieceType| t.is_hand_type() ==> #[trigger] v.material(t) <= MAX_MATERIAL
    }

    /// The moves made and not taken back, oldest first, each with the
    /// placement it was made from.
    pub closed spec fn past(&self) -> Seq<(Placement, Move)> {
        self.past@
    }

    /// Whether the stack of states is what the moves made have left: one
    /// state for the first placement and one for each move since, each with
    /// the checkers and pins of its placement, the last being the current
    /// one.
    pub closed spec fn recorded(&self) -> bool {
        Self::tallies(self.states@, self.past@, self@)
    }

    /// Whether this position is in order: bitboards agree with the board,
    /// and the stack of states with the moves made.
    pub open spec fn wf(&self) -> bool {
        self.consistent() && self.recorded()
    }

    /// Board and bitboards agree on every square: an empty square is in no
    /// bitboard, and a square that holds a piece is in the bitboard of that
    /// piece's color and of no other color, in the bitboard of its type and
    /// of no other type, and in the bitboard of occupied squares.
    pub proof fn lemma_bitboards_agree(&self, sq: Square)
        requires
            self.consistent(),
        ensures
            self.occupied_set().contains(sq) == (self@.piece_on(sq) != Piece::EMP),
            forall|c: Color| #[trigger]
                self.color_set(c).contains(sq) == (self@.piece_on(sq).spec_color() == Some(c)),
            forall|pt: PieceType| #[trigger]
                self.type_set(pt).contains(sq) == (self@.piece_on(sq).spec_piece_type() == Some(
                    pt,
                )),
            self@.piece_on(sq) == Piece::EMP ==> (forall|c: Color|
                !self.color_set(c).contains(sq)) && (forall|pt: PieceType|
                !self.type_set(pt).contains(sq)),
    {
        assert(self.occ@.contains(sq) == (self.board@[sq.spec_index() as int] != Piece::EMP));
        assert forall|c: Color| #[trigger]
            self.color_set(c).contains(sq) == (self@.piece_on(sq).spec_color() == Some(c)) by {
            assert(self.c_bb@[c.spec_index() as int]@.contains(sq) == (
            self.board@[sq.spec_index() as int].spec_color() == Some(c)));
        }
        assert forall|pt: PieceType| #[trigger]
            self.type_set(pt).contains(sq) == (self@.piece_on(sq).spec_piece_type() == Some(
                pt,
            )) by {
            assert(self.pt_bb@[pt.spec_index() as int]@.contains(sq) == (
            self.board@[sq.spec_index() as int].spec_piece_type() == Some(pt)));
        }
    }

    /// Every occupied square belongs to exactly one side: the bitboards of
    /// the two colors share no square, and together they hold the occupied
    /// squares.
    pub proof fn lemma_colors_partition(&self)
        requires
            self.consistent(),
        ensures
            self.color_set(Color::Black).disjoint(self.color_set(Color::White)),
            self.color_set(Color::Black).union(self.color_set(Color::White))
                == self.occupied_set(),
    {
        assert forall|sq: Square|
            self.color_set(Color::Black).union(self.color_set(Color::White)).contains(sq)
                == self.occupied_set().contains(sq) && !(self.color_set(Color::Black).contains(sq)
                && self.color_set(Color::White).contains(sq)) by {
            self.lemma_bitboards_agree(sq);
            self@.piece_on(sq).lemma_new_of_parts();
        }
        assert(self.color_set(Color::Black).union(self.color_set(Color::White))
            =~= self.occupied_set());
    }

    /// The stack holds one state for the placement the position was built
    /// with and one for each move made and not taken back.
    pub proof fn lemma_height(&self)
        requires
            self.recorded(),
        ensures
            self.height() == self.past().len() + 1,
    {
    }

    /// The view of a position is a well-formed placement.
    pub proof fn lemma_view_wf(&self)
        ensures
            self@.wf(),
    {
        self.hands@[0].lemma_view();
        self.hands@[1].lemma_view();
    }

    /// The piece on `sq`; `EMP` if the square is vacant.
    pub fn piece_on(&self, sq: Square) -> (p: Piece)
        ensures
            p == self@.piece_on(sq),
    {
        self.board[sq.index()]
    }

    /// The squares that hold a piece of side `c` and type `pt`.
    pub fn pieces_cp(&self, c: Color, pt: PieceType) -> (r: Bitboard)
        requires
            self.consistent(),
        ensures
            r@ == self@.pieces_cp(c, pt),
    {
        let r = self.pieces_c(c).and(self.pieces_p(pt));
        assert(r@ =~= self@.pieces_cp(c, pt));
        r
    }

    /// The squares that hold a piece of side `c`.
    pub fn pieces_c(&self, c: Color) -> (r: Bitboard)
        requires
            self.consistent(),
        ensures
            r@ == self@.pieces_c(c),
            r@ == self.color_set(c),
    {
        let r = self.c_bb[c.index()];
        assert(r@ == self.color_set(c));
        assert(r@ =~= self@.pieces_c(c));
        r
    }

    /// The squares that hold a piece of type `pt`.
    pub fn pieces_p(&self, pt: PieceType) -> (r: Bitboard)
        requires
            self.consistent(),
        ensures
            r@ == self@.pieces_p(pt),
            r@ == self.type_set(pt),
    {
        let r = self.pt_bb[pt.index()];
        assert(r@ == self.type_set(pt));
        assert(r@ =~= self@.pieces_p(pt));
        r
    }

    /// The squares that hold a piece of one of the types in `pts`.
    pub fn pieces_ps(&self, pts: &[PieceType]) -> (r: Bitboard)
        requires
            self.consistent(),
        ensures
            r@ == self@.pieces_ps(pts@),
    {
        let mut r = Bitboard::empty();
        let n = pts.len();
        for i in 0..n
            invariant
                n == pts@.len(),
                self.consistent(),
                forall|sq: Square|
                    r@.contains(sq) == exists|j: int|
                        0 <= j < i && self@.piece_on(sq).spec_piece_type() == Some(
                            #[trigger] pts@[j],
                        ),
        {
            let ghost before = r@;
            let pt = pts[i];
            r = r.or(self.pieces_p(pt));
            proof {
                assert forall|sq: Square|
                    r@.contains(sq) == exists|j: int|
                        0 <= j < i + 1 && self@.piece_on(sq).spec_piece_type() == Some(
                            #[trigger] pts@[j],
                        ) by {
                    if self@.piece_on(sq).spec_piece_type() == Some(pts@[i as int]) {
                        assert(r@.contains(sq));
                    }
                    if before.contains(sq) {
                        let j = choose|j: int|
                            0 <= j < i && self@.piece_on(sq).spec_piece_type() == Some(
                                #[trigger] pts@[j],
                            );
                        assert(0 <= j < i + 1);
                    }
                }
            }
        }
        assert(r@ =~= self@.pieces_ps(pts@));
        r
    }

    /// The squares that hold a piece.
    pub fn occupied(&self) -> (r: Bitboard)
        requires
            self.consistent(),
        ensures
            r@ == self@.occupied(),
            r@ == self.occupied_set(),
    {
        let r = self.occ;
        assert(r@ =~= self@.occupied());
        r
    }

    /// The hand of side `c`.
    pub fn hand(&self, c: Color) -> (h: Hand)
        ensures
            h@ == self@.hand(c),
    {
        self.hands[c.index()]
    }

    /// The side to move.
    pub fn side_to_move(&self) -> (c: Color)
        ensures
            c == self@.side,
    {
        self.color
    }

    /// The square that holds the king of side `c`, or none if the board
    /// holds no such king.
    pub fn king(&self, c: Color) -> (r: Option<Square>)
        requires
            self.consistent(),
        ensures
            r == self@.king(c),
            r matches Some(k) ==> self@.piece_on(k) == Piece::spec_new(c, PieceType::OU),
            r.is_none() ==> forall|s: Square|
                self@.piece_on(s) != Piece::spec_new(c, PieceType::OU),
    {
        let kings = self.pieces_cp(c, PieceType::OU);
        let r = kings.first();
        proof {
            match r {
                Some(k) => {
                    assert(kings@.contains(k));
                    assert forall|s: Square|
                        #![trigger self@.piece_on(s)]
                        self@.piece_on(s).is(c, PieceType::OU) implies k.spec_index()
                        <= s.spec_index() by {
                        assert(kings@.contains(s));
                    }
                    self@.lemma_king_found(c, k);
                    self@.piece_on(k).lemma_new_of_parts();
                },
                None => {
                    assert forall|s: Square| !self@.piece_on(s).is(c, PieceType::OU) by {
                        assert(!kings@.contains(s));
                    }
                    self@.lemma_king_absent(c);
                    assert forall|s: Square|
                        self@.piece_on(s) != Piece::spec_new(c, PieceType::OU) by {
                        Piece::lemma_parts_of_new(c, PieceType::OU);
                    }
                },
            }
        }
        r
    }

    /// The pieces of side `c` that attack `to`, as the board stands.
    ///
    /// Each kind of attack is looked up from `to`, as the other side would
    /// make it, and met with the pieces that attack that way.
    pub fn attackers_to(&self, c: Color, to: Square) -> (r: Bitboard)
        requires
            self.consistent(),
        ensures
            r@ == self@.attackers_to(c, to),
    {
        let opp = c.opponent();
        let occ = self.occupied();
        let fu = attack(PieceType::FU, to, opp, &occ).and(self.pieces_p(PieceType::FU));
        let ky = attack(PieceType::KY, to, opp, &occ).and(self.pieces_p(PieceType::KY));
        let ke = attack(PieceType::KE, to, opp, &occ).and(self.pieces_p(PieceType::KE));
        let gi = attack(PieceType::GI, to, opp, &occ).and(
            self.pieces_ps(&[PieceType::GI, PieceType::RY, PieceType::OU]),
        );
        let ka = attack(PieceType::KA, to, opp, &occ).and(
            self.pieces_ps(&[PieceType::KA, PieceType::UM]),
        );
        let hi = attack(PieceType::HI, to, opp, &occ).and(
            self.pieces_ps(&[PieceType::HI, PieceType::RY]),
        );
        let ki = attack(PieceType::KI, to, opp, &occ).and(
            self.pieces_ps(
                &[
                    PieceType::KI,
                    PieceType::TO,
                    PieceType::NY,
                    PieceType::NK,
                    PieceType::NG,
                    PieceType::UM,
                    PieceType::OU,
                ],
            ),
        );
        let r = fu.or(ky).or(ke).or(gi).or(ka).or(hi).or(ki).and(self.pieces_c(c));
        proof {
            let v = self@;
            let o = v.occupied();
            assert forall|s: Square| r@.contains(s) == v.attackers_to(c, to).contains(s) by {
                lemma_attack_symmetry(PieceType::FU, c, s, to, o);
                lemma_attack_symmetry(PieceType::KY, c, s, to, o);
                lemma_attack_symmetry(PieceType::KE, c, s, to, o);
                lemma_attack_symmetry(PieceType::GI, c, s, to, o);
                lemma_attack_symmetry(PieceType::KA, c, s, to, o);
                lemma_attack_symmetry(PieceType::HI, c, s, to, o);
                lemma_attack_symmetry(PieceType::KI, c, s, to, o);
                lemma_attack_families(c, s, to, o);
                Self::lemma_listed(v, s);
            }
            assert(r@ =~= v.attackers_to(c, to));
        }
        r
    }

    /// Which of the type lists used for attacker lookup name the type of
    /// the piece on `s`.
    proof fn lemma_listed(v: Placement, s: Square)
        ensures
            ({
                let t = v.piece_on(s).spec_piece_type();
                &&& v.pieces_ps(seq![PieceType::GI, PieceType::RY, PieceType::OU]).contains(s) == (t
                    == Some(PieceType::GI) || t == Some(PieceType::RY) || t == Some(PieceType::OU))
                &&& v.pieces_ps(seq![PieceType::KA, PieceType::UM]).contains(s) == (t == Some(
                    PieceType::KA,
                ) || t == Some(PieceType::UM))
                &&& v.pieces_ps(seq![PieceType::HI, PieceType::RY]).contains(s) == (t == Some(
                    PieceType::HI,
                ) || t == Some(PieceType::RY))
                &&& v.pieces_ps(
                    seq![
                        PieceType::KI,
                        PieceType::TO,
                        PieceType::NY,
                        PieceType::NK,
                        PieceType::NG,
                        PieceType::UM,
                        PieceType::OU,
                    ],
                ).contains(s) == (t == Some(PieceType::KI) || t == Some(PieceType::TO) || t == Some(
                    PieceType::NY,
                ) || t == Some(PieceType::NK) || t == Some(PieceType::NG) || t == Some(
                    PieceType::UM,
                ) || t == Some(PieceType::OU))
            }),
    {
        let a = seq![PieceType::GI, PieceType::RY, PieceType::OU];
        assert(a[0] == PieceType::GI && a[1] == PieceType::RY && a[2] == PieceType::OU);
        let b = seq![PieceType::KA, PieceType::UM];
        assert(b[0] == PieceType::KA && b[1] == PieceType::UM);
        let d = seq![PieceType::HI, PieceType::RY];
        assert(d[0] == PieceType::HI && d[1] == PieceType::RY);
        let g = seq![
            PieceType::KI,
            PieceType::TO,
            PieceType::NY,
            PieceType::NK,
            PieceType::NG,
            PieceType::UM,
            PieceType::OU,
        ];
        assert(g[0] == PieceType::KI && g[1] == PieceType::TO && g[2] == PieceType::NY && g[3]
            == PieceType::NK && g[4] == PieceType::NG && g[5] == PieceType::UM && g[6]
            == PieceType::OU);
    }

    /// Whether `r` holds the pieces among `own` that shield `k` from one of
    /// the snipers in `all` that are no longer in `left`.
    spec fn pins_found(
        v: Placement,
        k: Square,
        own: Set<Square>,
        all: Set<Square>,
        left: Set<Square>,
        r: Set<Square>,
    ) -> bool {
        forall|b: Square|
            r.contains(b) == (own.contains(b) && exists|s: Square|
                all.contains(s) && !left.contains(s) && #[trigger] v.is_sole_blocker(k, s, b))
    }

    /// The sliders found by looking along their lines from the king's
    /// square are the snipers.
    proof fn lemma_snipers(
        v: Placement,
        c: Color,
        k: Square,
        s: Square,
        ky: Set<Square>,
        ka: Set<Square>,
        hi: Set<Square>,
    )
        requires
            ky == crate::attacks::attack_set(PieceType::KY, c, k, Set::<Square>::empty()).intersect(
                v.pieces_p(PieceType::KY),
            ),
            ka == crate::attacks::attack_set(PieceType::KA, c, k, Set::<Square>::empty()).intersect(
                v.pieces_ps(seq![PieceType::KA, PieceType::UM]),
            ),
            hi == crate::attacks::attack_set(PieceType::HI, c, k, Set::<Square>::empty()).intersect(
                v.pieces_ps(seq![PieceType::HI, PieceType::RY]),
            ),
        ensures
            ky.union(ka).union(hi).intersect(v.pieces_c(c.spec_opponent())).contains(s)
                == v.is_sniper(c, k, s),
    {
        Self::lemma_listed(v, s);
        lemma_unhindered(PieceType::KY, c, k, s);
        lemma_unhindered(PieceType::KA, c, k, s);
        lemma_unhindered(PieceType::HI, c, k, s);
        lemma_slide_symmetry(PieceType::KY, c, k, s);
        lemma_slide_symmetry(PieceType::KA, c, k, s);
        lemma_slide_symmetry(PieceType::HI, c, k, s);
    }

    /// One sniper more: what it pins, if anything, joins what was found.
    proof fn lemma_pin_step(
        v: Placement,
        k: Square,
        s: Square,
        own: Set<Square>,
        all: Set<Square>,
        left: Set<Square>,
        found: Set<Square>,
        blockers: Set<Square>,
        next: Set<Square>,
    )
        requires
            Self::pins_found(v, k, own, all, left, found),
            all.contains(s),
            left.contains(s),
            blockers == crate::attacks::between_set(k, s).intersect(v.occupied()),
            next == if exists|b: Square| blockers == set![b] {
                found.union(blockers.intersect(own))
            } else {
                found
            },
        ensures
            Self::pins_found(v, k, own, all, left.remove(s), next),
    {
        let single = exists|b: Square| blockers == set![b];
        let rest = left.remove(s);
        assert forall|b: Square|
            next.contains(b) == (own.contains(b) && exists|s2: Square|
                all.contains(s2) && !rest.contains(s2) && #[trigger] v.is_sole_blocker(
                    k,
                    s2,
                    b,
                )) by {
            Self::lemma_sole_blocker(v, k, s, b, blockers);
            if found.contains(b) {
                let s2 = choose|s2: Square|
                    all.contains(s2) && !left.contains(s2) && #[trigger] v.is_sole_blocker(
                        k,
                        s2,
                        b,
                    );
                assert(!rest.contains(s2));
            }
            if single && blockers.contains(b) {
                let b0 = choose|b0: Square| blockers == set![b0];
                assert(b0 == b);
                assert(v.is_sole_blocker(k, s, b));
            }
            if exists|s2: Square|
                all.contains(s2) && !rest.contains(s2) && #[trigger] v.is_sole_blocker(k, s2, b) {
                let s2 = choose|s2: Square|
                    all.contains(s2) && !rest.contains(s2) && #[trigger] v.is_sole_blocker(
                        k,
                        s2,
                        b,
                    );
                if s2 != s {
                    assert(!left.contains(s2));
                }
            }
        }
    }

    /// With every sniper looked at, what was found are the pinned pieces.
    proof fn lemma_pins_done(
        v: Placement,
        c: Color,
        k: Square,
        all: Set<Square>,
        r: Set<Square>,
    )
        requires
            v.king(c) == Some(k),
            forall|s: Square| all.contains(s) == v.is_sniper(c, k, s),
            Self::pins_found(v, k, v.pieces_c(c), all, Set::<Square>::empty(), r),
        ensures
            r == v.pinned(c),
    {
        assert forall|b: Square| r.contains(b) == v.pinned(c).contains(b) by {
            if r.contains(b) {
                let s = choose|s: Square|
                    all.contains(s) && !Set::<Square>::empty().contains(s)
                        && #[trigger] v.is_sole_blocker(k, s, b);
                assert(v.shields(c, k, s, b));
            }
            if v.pinned(c).contains(b) {
                let s = choose|s: Square| v.shields(c, k, s, b);
                assert(all.contains(s) && v.is_sole_blocker(k, s, b));
            }
        }
        assert(r =~= v.pinned(c));
    }

    /// The pinned pieces of side `c`.
    ///
    /// The opposing sliders aimed at the king are found by looking along
    /// their lines from the king's square; each one whose line to the king
    /// holds a single piece pins that piece, if it is the king's own.
    fn pinned_of(&self, c: Color) -> (r: Bitboard)
        requires
            self.consistent(),
        ensures
            r@ == self@.pinned(c),
    {
        let mut r = Bitboard::empty();
        let ghost v = self@;
        match self.king(c) {
            None => {
                assert(r@ =~= v.pinned(c));
            },
            Some(k) => {
                let ky = pseudo_attack(PieceType::KY, k, c).and(self.pieces_p(PieceType::KY));
                let ka = pseudo_attack(PieceType::KA, k, c).and(
                    self.pieces_ps(&[PieceType::KA, PieceType::UM]),
                );
                let hi = pseudo_attack(PieceType::HI, k, c).and(
                    self.pieces_ps(&[PieceType::HI, PieceType::RY]),
                );
                let mut snipers = ky.or(ka).or(hi).and(self.pieces_c(c.opponent()));
                let own = self.pieces_c(c);
                let occ = self.occupied();
                let ghost all = snipers@;
                proof {
                    assert forall|s: Square| all.contains(s) == v.is_sniper(c, k, s) by {
                        Self::lemma_snipers(v, c, k, s, ky@, ka@, hi@);
                    }
                    snipers.lemma_finite();
                }
                loop
                    invariant_except_break
                        snipers@.finite(),
                        forall|s: Square| snipers@.contains(s) ==> all.contains(s),
                        Self::pins_found(v, k, own@, all, snipers@, r@),
                    invariant
                        own@ == v.pieces_c(c),
                        occ@ == v.occupied(),
                    ensures
                        Self::pins_found(v, k, own@, all, Set::<Square>::empty(), r@),
                    decreases snipers@.len(),
                {
                    let ghost left = snipers@;
                    let ghost found = r@;
                    match snipers.pop() {
                        None => {
                            break ;
                        },
                        Some(s) => {
                            let blockers = between(k, s).and(occ);
                            if blockers.is_single() {
                                r = r.or(blockers.and(own));
                            }
                            proof {
                                Self::lemma_pin_step(
                                    v,
                                    k,
                                    s,
                                    own@,
                                    all,
                                    left,
                                    found,
                                    blockers@,
                                    r@,
                                );
                            }
                        },
                    }
                }
                proof {
                    Self::lemma_pins_done(v, c, k, all, r@);
                }
            },
        }
        r
    }

    /// The occupied squares between a king and a sniper are a single
    /// square exactly when that square is the sole blocker.
    proof fn lemma_sole_blocker(
        v: Placement,
        k: Square,
        s: Square,
        b: Square,
        blockers: Set<Square>,
    )
        requires
            blockers == crate::attacks::between_set(k, s).intersect(v.occupied()),
        ensures
            v.is_sole_blocker(k, s, b) == (blockers == set![b]),
    {
        if v.is_sole_blocker(k, s, b) {
            assert(blockers =~= set![b]);
        }
        if blockers == set![b] {
            assert(blockers.contains(b));
            assert forall|s2: Square|
                #![trigger v.piece_on(s2)]
                is_between(k, s, s2) && v.piece_on(s2) != Piece::EMP implies s2 == b by {
                assert(blockers.contains(s2));
            }
        }
    }

    /// The checkers and pins of the position as it stands.
    fn compute_state(&self) -> (s: State)
        requires
            self.consistent(),
        ensures
            s.describes(self@),
    {
        let checkers = match self.king(self.color) {
            Some(k) => self.attackers_to(self.color.opponent(), k),
            None => Bitboard::empty(),
        };
        State::new(checkers, State::calculate_pinned(self))
    }

    /// Builds a position from a board, the hand counts of each side in the
    /// order of [`PieceType::ALL_HAND`], and the side to move.
    ///
    /// Checkers and pins are computed for the position as given, so a king
    /// already attacked is in check from the start.
    pub fn new(board: [Piece; 81], hand_nums: [[u8; 7]; 2], side_to_move: Color) -> (p: Position)
        ensures
            p.wf(),
            p@.board == board@,
            p@.black_hand == Seq::new(7, |i: int| hand_nums@[0]@[i] as nat),
            p@.white_hand == Seq::new(7, |i: int| hand_nums@[1]@[i] as nat),
            p@.side == side_to_move,
            p.past() == Seq::<(Placement, Move)>::empty(),
    {
        let e = Bitboard::empty();
        let mut c_bb = [e;2];
        let mut pt_bb = [e;14];
        let mut occ = e;
        for i in 0..81usize
            invariant
                forall|sq: Square| #[trigger]
                    occ@.contains(sq) == (sq.spec_index() < i && board@[sq.spec_index() as int]
                        != Piece::EMP),
                forall|c: Color, sq: Square| #[trigger]
                    c_bb@[c.spec_index() as int]@.contains(sq) == (sq.spec_index() < i
                        && board@[sq.spec_index() as int].spec_color() == Some(c)),
                forall|pt: PieceType, sq: Square| #[trigger]
                    pt_bb@[pt.spec_index() as int]@.contains(sq) == (sq.spec_index() < i
                        && board@[sq.spec_index() as int].spec_piece_type() == Some(pt)),
        {
            let piece = board[i];
            let ghost c_before = c_bb@;
            let ghost pt_before = pt_bb@;
            match Square::from_index(i) {
                Some(sq) => {
                    if let Some(c) = piece.color() {
                        c_bb[c.index()] = c_bb[c.index()].with(sq);
                    }
                    if let Some(pt) = piece.piece_type() {
                        occ = occ.with(sq);
                        pt_bb[pt.index()] = pt_bb[pt.index()].with(sq);
                    }
                    proof {
                        assert forall|s: Square| s.spec_index() == i implies s == sq by {
                            s.lemma_same_index(sq);
                        }
                        assert forall|c: Color, s: Square| #[trigger]
                            c_bb@[c.spec_index() as int]@.contains(s) == (s.spec_index() < i + 1
                                && board@[s.spec_index() as int].spec_color() == Some(c)) by {
                            assert(c_before[c.spec_index() as int]@.contains(s) == (s.spec_index()
                                < i && board@[s.spec_index() as int].spec_color() == Some(c)));
                        }
                        assert forall|pt: PieceType, s: Square| #[trigger]
                            pt_bb@[pt.spec_index() as int]@.contains(s) == (s.spec_index() < i + 1
                                && board@[s.spec_index() as int].spec_piece_type() == Some(pt)) by {
                            assert(pt_before[pt.spec_index() as int]@.contains(s) == (
                            s.spec_index() < i && board@[s.spec_index() as int].spec_piece_type()
                                == Some(pt)));
                        }
                    }
                },
                None => {},
            }
        }
        let hands = [Hand::from_counts(&hand_nums[0]), Hand::from_counts(&hand_nums[1])];
        let mut p = Position {
            board,
            hands,
            color: side_to_move,
            c_bb,
            pt_bb,
            occ,
            states: Vec::new(),
            past: Ghost(Seq::empty()),
        };
        proof {
            assert forall|sq: Square| sq.spec_index() < 81 by {
                sq.lemma_coords();
            }
            assert(p.consistent());
        }
        let state = p.compute_state();
        p.states.push(state);
        proof {
            assert forall|t: PieceType| t.is_hand_type() implies #[trigger] p@.material(t)
                <= MAX_MATERIAL by {
                Square::lemma_finite(p@.holders(t));
            }
            p.lemma_view_wf();
            reveal(Position::sound);
            assert(p@.black_hand =~= Seq::new(7, |i: int| hand_nums@[0]@[i] as nat));
            assert(p@.white_hand =~= Seq::new(7, |i: int| hand_nums@[1]@[i] as nat));
        }
        p
    }

    /// The state of the current ply.
    fn state(&self) -> (s: &State)
        requires
            self.recorded(),
        ensures
            s.describes(self@),
    {
        proof {
            reveal(Position::sound);
        }
        &self.states[self.states.len() - 1]
    }

    /// The opposing pieces that attack the king of the side to move.
    pub fn checkers(&self) -> (r: Bitboard)
        requires
            self.wf(),
        ensures
            r@ == self@.checkers(),
    {
        self.state().checkers
    }

    /// The pinned pieces of each color, Black's first.
    pub fn pinned(&self) -> (r: [Bitboard; 2])
        requires
            self.wf(),
        ensures
            r@[0]@ == self@.pinned(Color::Black),
            r@[1]@ == self@.pinned(Color::White),
    {
        self.state().pinned
    }

    /// Whether the king of the side to move is attacked.
    pub fn in_check(&self) -> (b: bool)
        requires
            self.wf(),
        ensures
            b == self@.in_check(),
    {
        !self.checkers().is_empty()
    }

    /// Flips the bit of `sq` in the bitboards of color `c`, of type `pt` and
    /// of occupancy: the one place where the bitboards of a position
    /// change.
    fn xor_bbs(&mut self, c: Color, pt: PieceType, sq: Square)
        ensures
            final(self).board == old(self).board,
            final(self).hands == old(self).hands,
            final(self).color == old(self).color,
            final(self).states == old(self).states,
            final(self).past == old(self).past,
            forall|s: Square|
                final(self).occ@.contains(s) == (old(self).occ@.contains(s) != (s == sq)),
            forall|c2: Color, s: Square| #[trigger]
                final(self).color_set(c2).contains(s) == (old(self).color_set(c2).contains(s) != (
                c2 == c && s == sq)),
            forall|pt2: PieceType, s: Square| #[trigger]
                final(self).type_set(pt2).contains(s) == (old(self).type_set(pt2).contains(s) != (
                pt2 == pt && s == sq)),
    {
        self.c_bb[c.index()] = self.c_bb[c.index()].toggled(sq);
        self.occ = self.occ.toggled(sq);
        self.pt_bb[pt.index()] = self.pt_bb[pt.index()].toggled(sq);
    }

    /// Bitboards that agreed with a board agree with it again once the
    /// piece on one square has changed and the bits of that square have
    /// been flipped for the piece that came or went.
    proof fn lemma_agree_after(
        before: Position,
        mid: Position,
        after: Position,
        sq: Square,
        p: Piece,
    )
        requires
            before.consistent(),
            before@.piece_on(sq) == Piece::EMP || p == Piece::EMP,
            before@.piece_on(sq) != Piece::EMP || p != Piece::EMP,
            ({
                let q = if p == Piece::EMP {
                    before@.piece_on(sq)
                } else {
                    p
                };
                &&& forall|s: Square|
                    mid.occ@.contains(s) == (before.occ@.contains(s) != (s == sq))
                &&& forall|c2: Color, s: Square| #[trigger]
                    mid.color_set(c2).contains(s) == (before.color_set(c2).contains(s) != (Some(c2)
                        == q.spec_color() && s == sq))
                &&& forall|pt2: PieceType, s: Square| #[trigger]
                    mid.type_set(pt2).contains(s) == (before.type_set(pt2).contains(s) != (Some(pt2)
                        == q.spec_piece_type() && s == sq))
            }),
            after.occ == mid.occ,
            after.c_bb == mid.c_bb,
            after.pt_bb == mid.pt_bb,
            after.board@ == before.board@.update(sq.spec_index() as int, p),
        ensures
            after.consistent(),
    {
        Self::lemma_other_squares(before@, sq, p);
        let q = if p == Piece::EMP {
            before@.piece_on(sq)
        } else {
            p
        };
        q.lemma_new_of_parts();
        assert forall|s: Square| #[trigger]
            after.occ@.contains(s) == (after.board@[s.spec_index() as int] != Piece::EMP) by {
            assert(before.occ@.contains(s) == (before@.piece_on(s) != Piece::EMP));
            assert(before@.with_piece(sq, p).piece_on(s) == after.board@[s.spec_index() as int]);
        }
        assert forall|c2: Color, s: Square| #[trigger]
            after.c_bb@[c2.spec_index() as int]@.contains(s) == (
            after.board@[s.spec_index() as int].spec_color() == Some(c2)) by {
            assert(mid.color_set(c2).contains(s) == (before.color_set(c2).contains(s) != (Some(c2)
                == q.spec_color() && s == sq)));
            assert(before.c_bb@[c2.spec_index() as int]@.contains(s) == (before@.piece_on(
                s,
            ).spec_color() == Some(c2)));
            assert(before@.with_piece(sq, p).piece_on(s) == after.board@[s.spec_index() as int]);
        }
        assert forall|pt2: PieceType, s: Square| #[trigger]
            after.pt_bb@[pt2.spec_index() as int]@.contains(s) == (
            after.board@[s.spec_index() as int].spec_piece_type() == Some(pt2)) by {
            assert(mid.type_set(pt2).contains(s) == (before.type_set(pt2).contains(s) != (Some(pt2)
                == q.spec_piece_type() && s == sq)));
            assert(before.pt_bb@[pt2.spec_index() as int]@.contains(s) == (before@.piece_on(
                s,
            ).spec_piece_type() == Some(pt2)));
            assert(before@.with_piece(sq, p).piece_on(s) == after.board@[s.spec_index() as int]);
        }
    }

    /// Puts the piece `p` on the empty square `sq`.
    fn put_piece(&mut self, sq: Square, p: Piece)
        requires
            old(self).consistent(),
            old(self)@.piece_on(sq) == Piece::EMP,
            p != Piece::EMP,
        ensures
            final(self).consistent(),
            final(self)@ == old(self)@.with_piece(sq, p),
            final(self).states == old(self).states,
            final(self).past == old(self).past,
    {
        proof {
            p.lemma_new_of_parts();
        }
        if let (Some(c), Some(pt)) = (p.color(), p.piece_type()) {
            self.xor_bbs(c, pt, sq);
        }
        let ghost mid = *self;
        self.board[sq.index()] = p;
        proof {
            Self::lemma_agree_after(*old(self), mid, *self, sq, p);
            assert(self@ =~= old(self)@.with_piece(sq, p));
        }
    }

    /// Takes the piece `p` off the square `sq`, which holds it.
    fn remove_piece(&mut self, sq: Square, p: Piece)
        requires
            old(self).consistent(),
            old(self)@.piece_on(sq) == p,
            p != Piece::EMP,
        ensures
            final(self).consistent(),
            final(self)@ == old(self)@.with_piece(sq, Piece::EMP),
            final(self).states == old(self).states,
            final(self).past == old(self).past,
    {
        proof {
            p.lemma_new_of_parts();
        }
        if let (Some(c), Some(pt)) = (p.color(), p.piece_type()) {
            self.xor_bbs(c, pt, sq);
        }
        let ghost mid = *self;
        self.board[sq.index()] = Piece::EMP;
        proof {
            Self::lemma_agree_after(*old(self), mid, *self, sq, Piece::EMP);
            assert(self@ =~= old(self)@.with_piece(sq, Piece::EMP));
        }
    }

    /// Putting a piece on one square leaves the others as they were.
    proof fn lemma_other_squares(v: Placement, sq: Square, p: Piece)
        requires
            v.board.len() == 81,
        ensures
            v.with_piece(sq, p).piece_on(sq) == p,
            forall|s: Square|
                s != sq ==> #[trigger] v.with_piece(sq, p).piece_on(s) == v.piece_on(s),
    {
        sq.lemma_coords();
        assert forall|s: Square| s != sq implies #[trigger] v.with_piece(sq, p).piece_on(s)
            == v.piece_on(s) by {
            s.lemma_coords();
            if s.spec_index() == sq.spec_index() {
                s.lemma_same_index(sq);
            }
        }
    }

    /// A hand holds no more of a type than the game does.
    proof fn lemma_hand_bound(v: Placement, c: Color, pt: PieceType)
        requires
            v.wf(),
            Self::within_bounds(v),
        ensures
            crate::hand::hand_num(v.hand(c), pt) <= MAX_MATERIAL,
    {
        let t = pt.spec_demoted();
        if t != PieceType::OU {
            assert(t.is_hand_type());
            assert(v.material(t) <= MAX_MATERIAL);
        }
    }

    /// Adds a captured piece of type `pt` to the hand of side `c`.
    fn take_in(&mut self, c: Color, pt: PieceType)
        requires
            crate::hand::hand_num(old(self)@.hand(c), pt) < u16::MAX,
        ensures
            final(self)@ == old(self)@.with_hand(
                c,
                crate::hand::hand_added(old(self)@.hand(c), pt),
            ),
            final(self).consistent() == old(self).consistent(),
            final(self).states == old(self).states,
            final(self).past == old(self).past,
    {
        let mut h = self.hands[c.index()];
        h.increment(pt);
        self.hands[c.index()] = h;
        proof {
            assert(self@ =~= old(self)@.with_hand(
                c,
                crate::hand::hand_added(old(self)@.hand(c), pt),
            ));
        }
    }

    /// Takes a piece of type `pt` out of the hand of side `c`.
    fn give_out(&mut self, c: Color, pt: PieceType)
        requires
            pt.spec_hand_index().is_some() ==> crate::hand::hand_num(old(self)@.hand(c), pt) > 0,
        ensures
            final(self)@ == old(self)@.with_hand(
                c,
                crate::hand::hand_removed(old(self)@.hand(c), pt),
            ),
            final(self).consistent() == old(self).consistent(),
            final(self).states == old(self).states,
            final(self).past == old(self).past,
    {
        let mut h = self.hands[c.index()];
        h.decrement(pt);
        self.hands[c.index()] = h;
        proof {
            assert(self@ =~= old(self)@.with_hand(
                c,
                crate::hand::hand_removed(old(self)@.hand(c), pt),
            ));
        }
    }

    /// Moves a piece on the board: lifts it from its origin, takes what
    /// stands on the destination into the mover's hand, and sets it down,
    /// promoted if the move says so.
    fn do_normal_move(&mut self, m: Move)
        requires
            old(self).consistent(),
            Self::within_bounds(old(self)@),
            old(self)@.admits(m),
            m.from.is_some(),
        ensures
            final(self).consistent(),
            final(self)@ == (Placement { side: old(self)@.side, ..old(self)@.apply(m) }),
            final(self).states == old(self).states,
            final(self).past == old(self).past,
    {
        let ghost v = self@;
        proof {
            self.lemma_view_wf();
        }
        let c = self.side_to_move();
        let to = m.to();
        let from = match m.from() {
            Some(from) => from,
            None => to,
        };
        let p_from = self.piece_on(from);
        self.remove_piece(from, p_from);
        proof {
            Self::lemma_other_squares(v, from, Piece::EMP);
        }
        let p_cap = self.piece_on(to);
        if let Some(pt) = p_cap.piece_type() {
            self.remove_piece(to, p_cap);
            proof {
                Self::lemma_hand_bound(v, c, pt);
            }
            self.take_in(c, pt);
        }
        let p_to = if m.is_promotion() {
            p_from.promoted()
        } else {
            p_from
        };
        proof {
            Self::lemma_other_squares(v.with_piece(from, Piece::EMP), to, Piece::EMP);
            p_from.lemma_new_of_parts();
        }
        self.put_piece(to, p_to);
        proof {
            let want = Placement { side: v.side, ..v.apply(m) };
            assert(self@.board =~= want.board);
            assert(self@ =~= want);
        }
    }

    /// Drops a piece: sets it down on the destination and takes it out of
    /// the mover's hand.
    fn do_drop_move(&mut self, m: Move)
        requires
            old(self).consistent(),
            old(self)@.admits(m),
            m.from.is_none(),
        ensures
            final(self).consistent(),
            final(self)@ == (Placement { side: old(self)@.side, ..old(self)@.apply(m) }),
            final(self).states == old(self).states,
            final(self).past == old(self).past,
    {
        let ghost v = self@;
        let c = self.side_to_move();
        let p = m.piece();
        self.put_piece(m.to(), p);
        if let Some(pt) = p.piece_type() {
            self.give_out(c, pt);
        }
        proof {
            let want = Placement { side: v.side, ..v.apply(m) };
            assert(self@ =~= want);
        }
    }

    /// Passes the turn to the other side.
    fn flip_side(&mut self)
        ensures
            final(self)@ == (Placement { side: old(self)@.side.spec_opponent(), ..old(self)@ }),
            final(self).consistent() == old(self).consistent(),
            final(self).states == old(self).states,
            final(self).past == old(self).past,
    {
        self.color = self.color.opponent();
    }

    /// Applies the move `m`: changes board and hands as the move says,
    /// passes the turn, and records the checkers and pins of the new
    /// position on top of the stack.
    pub fn do_move(&mut self, m: Move)
        requires
            old(self).wf(),
            old(self)@.admits(m),
        ensures
            final(self).wf(),
            final(self)@ == old(self)@.apply(m),
            final(self).past() == old(self).past().push((old(self)@, m)),
    {
        let ghost v = self@;
        proof {
            self.lemma_view_wf();
            assert(Self::within_bounds(v)) by {
                reveal(Position::sound);
            }
        }
        if m.is_drop() {
            self.do_drop_move(m);
        } else {
            self.do_normal_move(m);
        }
        self.flip_side();
        assert(self@ == v.apply(m));
        let state = self.compute_state();
        self.push_state(state, Ghost(v), Ghost(m));
    }

    /// Puts the state of a new ply on the stack.
    fn push_state(&mut self, state: State, Ghost(prior): Ghost<Placement>, Ghost(m): Ghost<Move>)
        requires
            Self::tallies(old(self).states@, old(self).past@, prior),
            prior.wf(),
            prior.admits(m),
            old(self)@ == prior.apply(m),
            state.describes(old(self)@),
        ensures
            final(self).recorded(),
            final(self)@ == old(self)@,
            final(self).consistent() == old(self).consistent(),
            final(self).past() == old(self).past().push((prior, m)),
    {
        proof {
            assert(Self::linked(prior, m, prior.apply(m))) by {
                reveal(Position::linked);
            }
            assert(Self::sound(state, prior.apply(m))) by {
                reveal(Position::sound);
                self.lemma_view_wf();
                assert(Self::within_bounds(prior));
                assert forall|t: PieceType| t.is_hand_type() implies #[trigger] prior.apply(
                    m,
                ).material(t) <= MAX_MATERIAL by {
                    prior.lemma_conservation(m, t);
                }
            }
            Self::lemma_tally_push(self.states@, self.past@, prior, m, state);
        }
        self.states.push(state);
        self.past = Ghost(self.past@.push((prior, m)));
    }

    /// Takes the state of the last ply off the stack.
    fn pop_state(&mut self, Ghost(now): Ghost<Placement>)
        requires
            Self::tallies(old(self).states@, old(self).past@, now),
            old(self).past@.len() > 0,
            old(self)@ == old(self).past@.last().0,
        ensures
            final(self).recorded(),
            final(self)@ == old(self)@,
            final(self).consistent() == old(self).consistent(),
            final(self).past() == old(self).past().drop_last(),
    {
        proof {
            Self::lemma_tally_pop(self.states@, self.past@, now);
        }
        self.states.pop();
        self.past = Ghost(self.past@.drop_last());
    }

    /// Takes back a move on the board, the turn having passed back already:
    /// lifts the piece from the destination, returns what it captured from
    /// the mover's hand, and sets the piece down on its origin, unpromoted
    /// again if the move had promoted it.
    fn undo_normal_move(&mut self, m: Move, Ghost(prior): Ghost<Placement>)
        requires
            old(self).consistent(),
            prior.wf(),
            prior.admits(m),
            old(self)@ == (Placement { side: prior.side, ..prior.apply(m) }),
            m.from.is_some(),
        ensures
            final(self).consistent(),
            final(self)@ == prior,
            final(self).states == old(self).states,
            final(self).past == old(self).past,
    {
        let ghost v = self@;
        let mover = self.side_to_move();
        let to = m.to();
        let from = match m.from() {
            Some(from) => from,
            None => to,
        };
        proof {
            prior.lemma_round_trip(m);
            Self::lemma_other_squares(prior, from, Piece::EMP);
            Self::lemma_other_squares(prior.with_piece(from, Piece::EMP), to, v.piece_on(to));
            prior.piece_on(from).lemma_new_of_parts();
            prior.piece_on(to).lemma_new_of_parts();
            assert(v.board =~= prior.with_piece(from, Piece::EMP).with_piece(
                to,
                v.piece_on(to),
            ).board);
        }
        let p_to = self.piece_on(to);
        self.remove_piece(to, p_to);
        if let Some(p_cap) = m.captured() {
            self.put_piece(to, p_cap);
            if let Some(pt) = p_cap.piece_type() {
                self.give_out(mover, pt);
            }
        }
        let p_from = if m.is_promotion() {
            p_to.demoted()
        } else {
            p_to
        };
        proof {
            Self::lemma_other_squares(v, to, Piece::EMP);
            Self::lemma_other_squares(v.with_piece(to, Piece::EMP), to, m.captured);
        }
        self.put_piece(from, p_from);
        proof {
            assert(self@.board =~= prior.board);
            assert(self@ =~= prior);
        }
    }

    /// Takes back a drop, the turn having passed back already: lifts the
    /// piece from the destination and returns it to the mover's hand.
    fn undo_drop_move(&mut self, m: Move, Ghost(prior): Ghost<Placement>)
        requires
            old(self).consistent(),
            prior.wf(),
            prior.admits(m),
            Self::within_bounds(prior),
            old(self)@ == (Placement { side: prior.side, ..prior.apply(m) }),
            m.from.is_none(),
        ensures
            final(self).consistent(),
            final(self)@ == prior,
            final(self).states == old(self).states,
            final(self).past == old(self).past,
    {
        let mover = self.side_to_move();
        let to = m.to();
        proof {
            prior.lemma_round_trip(m);
            Self::lemma_other_squares(prior, to, m.piece);
            m.piece.lemma_new_of_parts();
        }
        let p_to = self.piece_on(to);
        self.remove_piece(to, p_to);
        if let Some(pt) = p_to.piece_type() {
            proof {
                Self::lemma_hand_bound(prior, mover, pt);
            }
            self.take_in(mover, pt);
        }
        proof {
            assert(self@ =~= prior);
        }
    }

    /// Takes back the move `m`, which must be the last one made and not yet
    /// taken back: passes the turn back, restores board and hands, and
    /// drops the top of the stack, so that checkers and pins are again
    /// those of the position the move was made from.
    pub fn undo_move(&mut self, m: Move)
        requires
            old(self).wf(),
            old(self).past().len() > 0,
            old(self).past().last().1 == m,
        ensures
            final(self).wf(),
            final(self)@ == old(self).past().last().0,
            final(self)@ == old(self)@.revert(m),
            final(self).past() == old(self).past().drop_last(),
    {
        let ghost v = self@;
        let ghost prior = self.past@.last().0;
        proof {
            Self::lemma_tally_pop(self.states@, self.past@, v);
            reveal(Position::sound);
            reveal(Position::linked);
            prior.lemma_round_trip(m);
        }
        self.flip_side();
        if m.is_drop() {
            self.undo_drop_move(m, Ghost(prior));
        } else {
            self.undo_normal_move(m, Ghost(prior));
        }
        self.pop_state(Ghost(v));
    }
}

/// The piece that stands on `sq` when a game begins.
///
/// Pawns fill ranks 3 and 7; bishop and rook stand on rank 2 and rank 8;
/// lances, knights, silvers, golds and the king fill ranks 1 and 9. White
/// has the low ranks.
pub open spec fn initial_piece(sq: Square) -> Piece {
    let f = sq.spec_file();
    let r = sq.spec_rank();
    let c = if r < 4 {
        Color::White
    } else {
        Color::Black
    };
    if r == 2 || r == 6 {
        Piece::spec_new(c, PieceType::FU)
    } else if r == 1 || r == 7 {
        if f + r == 8 {
            Piece::spec_new(c, PieceType::HI)
        } else if f == r {
            Piece::spec_new(c, PieceType::KA)
        } else {
            Piece::EMP
        }
    } else if r == 0 || r == 8 {
        if f == 0 || f == 8 {
            Piece::spec_new(c, PieceType::KY)
        } else if f == 1 || f == 7 {
            Piece::spec_new(c, PieceType::KE)
        } else if f == 2 || f == 6 {
            Piece::spec_new(c, PieceType::GI)
        } else if f == 3 || f == 5 {
            Piece::spec_new(c, PieceType::KI)
        } else {
            Piece::spec_new(c, PieceType::OU)
        }
    } else {
        Piece::EMP
    }
}

/// The placement a game begins with: every piece on its initial square,
/// both hands empty, Black to move.
pub open spec fn initial_placement() -> Placement {
    Placement {
        board: Seq::new(81, |i: int| initial_piece(Square::of_index(i))),
        black_hand: Seq::new(7, |i: int| 0nat),
        white_hand: Seq::new(7, |i: int| 0nat),
        side: Color::Black,
    }
}

/// The piece that stands on `sq` when a game begins.
fn initial_piece_on(sq: Square) -> (p: Piece)
    ensures
        p == initial_piece(sq),
{
    let f = sq.file();
    let r = sq.rank();
    let c = if r < 4 {
        Color::White
    } else {
        Color::Black
    };
    if r == 2 || r == 6 {
        Piece::new(c, PieceType::FU)
    } else if r == 1 || r == 7 {
        if f + r == 8 {
            Piece::new(c, PieceType::HI)
        } else if f == r {
            Piece::new(c, PieceType::KA)
        } else {
            Piece::EMP
        }
    } else if r == 0 || r == 8 {
        if f == 0 || f == 8 {
            Piece::new(c, PieceType::KY)
        } else if f == 1 || f == 7 {
            Piece::new(c, PieceType::KE)
        } else if f == 2 || f == 6 {
            Piece::new(c, PieceType::GI)
        } else if f == 3 || f == 5 {
            Piece::new(c, PieceType::KI)
        } else {
            Piece::new(c, PieceType::OU)
        }
    } else {
        Piece::EMP
    }
}

impl Clone for Position {
    /// A copy that shares nothing with this position: every field, the
    /// stack of states included, is copied.
    fn clone(&self) -> (p: Position)
        ensures
            p@ == self@,
            p.past() == self.past(),
            p.consistent() == self.consistent(),
            p.recorded() == self.recorded(),
    {
        let mut states: Vec<State> = Vec::new();
        let n = self.states.len();
        for i in 0..n
            invariant
                n == self.states@.len(),
                states@ == self.states@.subrange(0, i as int),
        {
            states.push(self.states[i]);
            assert(states@ =~= self.states@.subrange(0, i + 1));
        }
        assert(states@ =~= self.states@);
        Position {
            board: self.board,
            hands: self.hands,
            color: self.color,
            c_bb: self.c_bb,
            pt_bb: self.pt_bb,
            occ: self.occ,
            states,
            past: Ghost(self.past@),
        }
    }
}

impl Default for Position {
    /// The position a game begins with.
    fn default() -> (p: Position)
        ensures
            p.wf(),
            p@ == initial_placement(),
            p.past() == Seq::<(Placement, Move)>::empty(),
    {
        let mut board = [Piece::EMP;81];
        for i in 0..81usize
            invariant
                forall|j: int| 0 <= j < i ==> board@[j] == initial_piece(Square::of_index(j)),
        {
            if let Some(sq) = Square::from_index(i) {
                board[i] = initial_piece_on(sq);
            }
        }
        let p = Position::new(board, [[0;7];2], Color::Black);
        proof {
            assert(p@.board =~= initial_placement().board);
            assert(p@.black_hand =~= initial_placement().black_hand);
            assert(p@.white_hand =~= initial_placement().white_hand);
            assert(p@ =~= initial_placement());
        }
        p
    }
}

} // verus!
