//! Generation of the moves the rules allow.

use crate::attacks::attack;
use crate::color::Color;
use crate::moves::Move;
use crate::piece::{Piece, PieceType};
use crate::placement::Placement;
use crate::position::Position;
use crate::rules::{is_able_to_stand, is_in_zone};
use crate::square::Square;
use vstd::prelude::*;

verus! {

/// Appends `m`, which the list does not hold yet.
fn push_new(list: &mut Vec<Move>, m: Move)
    requires
        old(list)@.no_duplicates(),
        !old(list)@.contains(m),
    ensures
        final(list)@ == old(list)@.push(m),
        final(list)@.no_duplicates(),
        forall|x: Move|
            #![trigger final(list)@.contains(x)]
            final(list)@.contains(x) == (old(list)@.contains(x) || x == m),
{
    list.push(m);
    proof {
        let before = old(list)@;
        let after = list@;
        assert forall|x: Move| after.contains(x) == (before.contains(x) || x == m) by {
            if before.contains(x) {
                let i = choose|i: int| 0 <= i < before.len() && before[i] == x;
                assert(after[i] == x);
            }
            if x == m {
                assert(after[before.len() as int] == x);
            }
            if after.contains(x) {
                let i = choose|i: int| 0 <= i < after.len() && after[i] == x;
                if i < before.len() {
                    assert(before[i] == x);
                }
            }
        }
        assert forall|i: int, j: int|
            0 <= i < after.len() && 0 <= j < after.len() && i != j implies after[i] != after[j] by {
            if i < before.len() && j < before.len() {
                assert(before[i] != before[j]);
            } else if i < before.len() {
                assert(before[i] == after[i]);
                assert(before.contains(after[i]));
            } else {
                assert(before[j] == after[j]);
                assert(before.contains(after[j]));
            }
        }
    }
}

/// Whether side `c` has an unpromoted pawn on the file of `sq`.
fn pawn_on_file(pos: &Position, c: Color, sq: Square) -> (b: bool)
    ensures
        b == pos@.has_pawn_on_file(c, sq),
{
    let pawn = Piece::new(c, PieceType::FU);
    let file = sq.file();
    let mut found = false;
    let mut r: u8 = 0;
    while r < 9
        invariant
            r <= 9,
            file == sq.spec_file(),
            pawn == Piece::spec_new(c, PieceType::FU),
            found == exists|s: Square|
                s.spec_file() == file && s.spec_rank() < r && #[trigger] pos@.piece_on(s) == pawn,
        decreases 9 - r,
    {
        if let Some(s) = Square::new(file, r) {
            if pos.piece_on(s) == pawn {
                found = true;
            }
            proof {
                if exists|t: Square|
                    t.spec_file() == file && t.spec_rank() < r + 1 && #[trigger] pos@.piece_on(t)
                        == pawn {
                    let t = choose|t: Square|
                        t.spec_file() == file && t.spec_rank() < r + 1 && #[trigger] pos@.piece_on(
                            t,
                        ) == pawn;
                    if t.spec_rank() == r {
                        t.lemma_same_coords(s);
                    }
                }
            }
        }
        r = r + 1;
    }
    proof {
        if pos@.has_pawn_on_file(c, sq) {
            let t = choose|t: Square|
                t.spec_file() == sq.spec_file() && #[trigger] pos@.piece_on(t) == pawn;
            t.lemma_coords();
        }
    }
    found
}

/// Appends the moves of the piece on `from` to `to`: the plain move if the
/// piece can stand there, and the promoting move if it may promote.
fn add_moves_between(list: &mut Vec<Move>, pos: &Position, from: Square, to: Square)
    requires
        pos.consistent(),
        old(list)@.no_duplicates(),
        forall|m: Move| #[trigger] old(list)@.contains(m) ==> !(m.from == Some(from) && m.to == to),
        pos@.piece_on(from).spec_color() == Some(pos@.side),
        pos@.piece_on(to).spec_color() != Some(pos@.side),
        pos@.piece_on(from).spec_piece_type() matches Some(pt) && attacks_now(pos@, pt, from, to),
    ensures
        final(list)@.no_duplicates(),
        forall|m: Move|
            #![trigger final(list)@.contains(m)]
            final(list)@.contains(m) == (old(list)@.contains(m) || (pos@.pseudo_legal(m) && m.from
                == Some(from) && m.to == to)),
{
    let c = pos.side_to_move();
    let p = pos.piece_on(from);
    let cap = pos.piece_on(to);
    let ghost v = pos@;
    let ghost start = list@;
    if let Some(pt) = p.piece_type() {
        let plain = Move::new_normal(from, to, false, p, cap);
        let promo = Move::new_normal(from, to, true, p, cap);
        let plain_ok = is_able_to_stand(pt, c, to);
        let promo_ok = pt.is_promotable() && (is_in_zone(c, from) || is_in_zone(c, to));
        assert(v.pseudo_legal(plain) == plain_ok);
        assert(v.pseudo_legal(promo) == promo_ok);
        if plain_ok {
            push_new(list, plain);
        }
        if promo_ok {
            push_new(list, promo);
        }
        proof {
            assert forall|m: Move|
                #![trigger list@.contains(m)]
                list@.contains(m) == (start.contains(m) || (v.pseudo_legal(m) && m.from == Some(
                    from,
                ) && m.to == to)) by {
                if v.pseudo_legal(m) && m.from == Some(from) && m.to == to {
                    assert(m == plain || m == promo);
                }
            }
        }
    }
}

/// Whether the piece of type `pt` on `from` attacks `to` in `v`.
spec fn attacks_now(v: Placement, pt: PieceType, from: Square, to: Square) -> bool {
    crate::attacks::attacks(pt, v.side, from, to, v.occupied())
}

/// Appends the moves of the piece on `from`.
fn add_moves_from(list: &mut Vec<Move>, pos: &Position, from: Square)
    requires
        pos.consistent(),
        old(list)@.no_duplicates(),
        forall|m: Move| #[trigger] old(list)@.contains(m) ==> m.from != Some(from),
        pos@.piece_on(from).spec_color() == Some(pos@.side),
    ensures
        final(list)@.no_duplicates(),
        forall|m: Move|
            #![trigger final(list)@.contains(m)]
            final(list)@.contains(m) == (old(list)@.contains(m) || (pos@.pseudo_legal(m) && m.from
                == Some(from))),
{
    let c = pos.side_to_move();
    let p = pos.piece_on(from);
    let ghost v = pos@;
    let ghost start = list@;
    proof {
        p.lemma_new_of_parts();
    }
    if let Some(pt) = p.piece_type() {
        let occ = pos.occupied();
        let all = attack(pt, from, c, &occ);
        let mut rest = all;
        proof {
            rest.lemma_finite();
        }
        loop
            invariant_except_break
                rest@.finite(),
                forall|t: Square| rest@.contains(t) ==> all@.contains(t),
                list@.no_duplicates(),
                forall|m: Move|
                    #![trigger list@.contains(m)]
                    list@.contains(m) == (start.contains(m) || (v.pseudo_legal(m) && m.from == Some(
                        from,
                    ) && !rest@.contains(m.to))),
            invariant
                pos.consistent(),
                v == pos@,
                c == v.side,
                p == v.piece_on(from),
                p.spec_color() == Some(c),
                p.spec_piece_type() == Some(pt),
                all@ == crate::attacks::attack_set(pt, c, from, v.occupied()),
                forall|m: Move| #[trigger] start.contains(m) ==> m.from != Some(from),
            ensures
                list@.no_duplicates(),
                forall|m: Move|
                    #![trigger list@.contains(m)]
                    list@.contains(m) == (start.contains(m) || (v.pseudo_legal(m) && m.from == Some(
                        from,
                    ))),
            decreases rest@.len(),
        {
            match rest.pop() {
                None => {
                    break ;
                },
                Some(to) => {
                    if pos.piece_on(to).color() != Some(c) {
                        add_moves_between(list, pos, from, to);
                    }
                    proof {
                        assert forall|m: Move|
                            #![trigger list@.contains(m)]
                            list@.contains(m) == (start.contains(m) || (v.pseudo_legal(m) && m.from
                                == Some(from) && !rest@.contains(m.to))) by {
                            if v.pseudo_legal(m) && m.from == Some(from) {
                                assert(all@.contains(m.to));
                            }
                        }
                    }
                },
            }
        }
    }
}

/// Appends the moves of the pieces on the board.
fn add_board_moves(list: &mut Vec<Move>, pos: &Position)
    requires
        pos.consistent(),
        old(list)@.len() == 0,
    ensures
        final(list)@.no_duplicates(),
        forall|m: Move|
            #![trigger final(list)@.contains(m)]
            final(list)@.contains(m) == (pos@.pseudo_legal(m) && m.from.is_some()),
{
    let c = pos.side_to_move();
    let own = pos.pieces_c(c);
    let mut rest = own;
    let ghost v = pos@;
    proof {
        rest.lemma_finite();
    }
    loop
        invariant_except_break
            rest@.finite(),
            forall|s: Square| rest@.contains(s) ==> own@.contains(s),
            list@.no_duplicates(),
            forall|m: Move|
                #![trigger list@.contains(m)]
                list@.contains(m) == (v.pseudo_legal(m) && m.from.is_some() && !rest@.contains(
                    m.from.unwrap(),
                )),
        invariant
            pos.consistent(),
            v == pos@,
            c == v.side,
            own@ == v.pieces_c(c),
        ensures
            list@.no_duplicates(),
            forall|m: Move|
                #![trigger list@.contains(m)]
                list@.contains(m) == (v.pseudo_legal(m) && m.from.is_some()),
        decreases rest@.len(),
    {
        match rest.pop() {
            None => {
                break ;
            },
            Some(from) => {
                add_moves_from(list, pos, from);
                proof {
                    assert forall|m: Move|
                        #![trigger list@.contains(m)]
                        list@.contains(m) == (v.pseudo_legal(m) && m.from.is_some()
                            && !rest@.contains(m.from.unwrap())) by {
                        if v.pseudo_legal(m) && m.from.is_some() {
                            assert(own@.contains(m.from.unwrap()));
                        }
                    }
                }
            },
        }
    }
}

/// Whether `m` drops a piece of one of the first `n` hand types, or of the
/// next one onto one of the first `k` squares.
spec fn drop_before(m: Move, n: int, k: int) -> bool {
    &&& m.from.is_none()
    &&& m.piece.spec_piece_type() matches Some(pt)
    &&& pt.spec_hand_index() matches Some(i)
    &&& i < n || (i == n && m.to.spec_index() < k)
}

/// Appends the drops of pieces of type `pt`.
fn add_drops_of(list: &mut Vec<Move>, pos: &Position, pt: PieceType, Ghost(n): Ghost<int>)
    requires
        pos.consistent(),
        old(list)@.no_duplicates(),
        pt.is_hand_type(),
        pt.spec_hand_index() == Some(n),
        forall|m: Move|
            old(list)@.contains(m) == (pos@.pseudo_legal(m) && (m.from.is_some() || drop_before(
                m,
                n,
                0,
            ))),
    ensures
        final(list)@.no_duplicates(),
        forall|m: Move|
            #![trigger final(list)@.contains(m)]
            final(list)@.contains(m) == (pos@.pseudo_legal(m) && (m.from.is_some() || drop_before(
                m,
                n + 1,
                0,
            ))),
{
    let c = pos.side_to_move();
    let ghost v = pos@;
    let held = pos.hand(c).num(pt);
    let piece = Piece::new(c, pt);
    let mut k: usize = 0;
    while k < 81
        invariant
            k <= 81,
            pos.consistent(),
            v == pos@,
            c == v.side,
            pt.is_hand_type(),
            pt.spec_hand_index() == Some(n),
            held == crate::hand::hand_num(v.hand(c), pt),
            piece == Piece::spec_new(c, pt),
            list@.no_duplicates(),
            forall|m: Move|
                #![trigger list@.contains(m)]
                list@.contains(m) == (v.pseudo_legal(m) && (m.from.is_some() || drop_before(
                    m,
                    n,
                    k as int,
                ))),
        decreases 81 - k,
    {
        if let Some(to) = Square::from_index(k) {
            let ok = held > 0 && pos.piece_on(to) == Piece::EMP && is_able_to_stand(pt, c, to) && !(
            pt == PieceType::FU && pawn_on_file(pos, c, to));
            let m0 = Move::new_drop(to, piece);
            proof {
                Piece::lemma_parts_of_new(c, pt);
                assert(v.pseudo_legal(m0) == ok);
                assert(drop_before(m0, n, k + 1));
                assert(!drop_before(m0, n, k as int));
            }
            if ok {
                push_new(list, m0);
            }
            proof {
                assert forall|m: Move|
                    #![trigger list@.contains(m)]
                    list@.contains(m) == (v.pseudo_legal(m) && (m.from.is_some() || drop_before(
                        m,
                        n,
                        k + 1,
                    ))) by {
                    if v.pseudo_legal(m) && m.from.is_none() && drop_before(m, n, k + 1)
                        && !drop_before(m, n, k as int) {
                        m.to.lemma_same_index(to);
                        m.piece.lemma_new_of_parts();
                        assert(m.piece.spec_piece_type() == Some(pt));
                        assert(m == m0);
                    }
                }
            }
        }
        k = k + 1;
    }
    proof {
        assert forall|m: Move|
            #![trigger list@.contains(m)]
            list@.contains(m) == (v.pseudo_legal(m) && (m.from.is_some() || drop_before(
                m,
                n + 1,
                0,
            ))) by {
            m.to.lemma_coords();
        }
    }
}

/// The moves that move as the pieces move, each once.
pub fn pseudo_legal_moves(pos: &Position) -> (list: Vec<Move>)
    requires
        pos.consistent(),
    ensures
        list@.no_duplicates(),
        forall|m: Move| #![trigger list@.contains(m)] list@.contains(m) == pos@.pseudo_legal(m),
{
    let mut list: Vec<Move> = Vec::new();
    add_board_moves(&mut list, pos);
    let ghost v = pos@;
    let mut n: usize = 0;
    while n < 7
        invariant
            n <= 7,
            pos.consistent(),
            v == pos@,
            list@.no_duplicates(),
            forall|m: Move|
                #![trigger list@.contains(m)]
                list@.contains(m) == (v.pseudo_legal(m) && (m.from.is_some() || drop_before(
                    m,
                    n as int,
                    0,
                ))),
        decreases 7 - n,
    {
        let pt = PieceType::ALL_HAND[n];
        add_drops_of(&mut list, pos, pt, Ghost(n as int));
        n = n + 1;
    }
    proof {
        assert forall|m: Move|
            #![trigger list@.contains(m)]
            list@.contains(m) == v.pseudo_legal(m) by {
            if v.pseudo_legal(m) && m.from.is_none() {
                assert(drop_before(m, 7, 0));
            }
        }
    }
    list
}

/// The moves that move as the pieces move and leave the mover's king
/// unattacked, each once. Every candidate is made, tested and taken back,
/// so the position ends as it began.
pub fn playable_moves(pos: &mut Position) -> (list: Vec<Move>)
    requires
        old(pos).wf(),
    ensures
        final(pos).wf(),
        final(pos)@ == old(pos)@,
        final(pos).past() == old(pos).past(),
        list@.no_duplicates(),
        forall|m: Move| #![trigger list@.contains(m)] list@.contains(m) == old(pos)@.playable(m),
{
    let candidates = pseudo_legal_moves(pos);
    let c = pos.side_to_move();
    let ghost v = pos@;
    let ghost past = pos.past();
    let mut list: Vec<Move> = Vec::new();
    let n = candidates.len();
    for i in 0..n
        invariant
            n == candidates@.len(),
            pos.wf(),
            pos@ == v,
            pos.past() == past,
            c == v.side,
            candidates@.no_duplicates(),
            forall|m: Move|
                #![trigger candidates@.contains(m)]
                candidates@.contains(m) == v.pseudo_legal(m),
            list@.no_duplicates(),
            forall|m: Move|
                #![trigger list@.contains(m)]
                list@.contains(m) == (v.playable(m) && exists|j: int|
                    0 <= j < i && candidates@[j] == m),
    {
        let m = candidates[i];
        let ghost found = list@;
        proof {
            assert(candidates@.contains(m));
            v.lemma_pseudo_legal_admits(m);
        }
        pos.do_move(m);
        let safe = match pos.king(c) {
            Some(k) => pos.attackers_to(c.opponent(), k).is_empty(),
            None => true,
        };
        pos.undo_move(m);
        assert(pos.past() =~= past);
        assert(safe == !v.exposes_king(m));
        if safe {
            proof {
                if found.contains(m) {
                    let j = choose|j: int| 0 <= j < i && candidates@[j] == m;
                    assert(candidates@[j] == candidates@[i as int]);
                }
            }
            push_new(&mut list, m);
        }
        proof {
            assert forall|x: Move|
                #![trigger list@.contains(x)]
                list@.contains(x) == (v.playable(x) && exists|j: int|
                    0 <= j < i + 1 && candidates@[j] == x) by {
                if found.contains(x) {
                    let j = choose|j: int| 0 <= j < i && candidates@[j] == x;
                    assert(0 <= j < i + 1 && candidates@[j] == x);
                }
                if v.playable(x) && exists|j: int| 0 <= j < i + 1 && candidates@[j] == x {
                    let j = choose|j: int| 0 <= j < i + 1 && candidates@[j] == x;
                    if j < i {
                        assert(found.contains(x));
                    }
                }
            }
        }
    }
    proof {
        assert forall|m: Move| #![trigger list@.contains(m)] list@.contains(m) == v.playable(m) by {
            if v.playable(m) {
                assert(candidates@.contains(m));
                let j = choose|j: int| 0 <= j < candidates@.len() && candidates@[j] == m;
                assert(0 <= j < n && candidates@[j] == m);
            }
        }
    }
    list
}

/// A list of moves.
pub struct MoveList {
    moves: Vec<Move>,
}

impl View for MoveList {
    type V = Seq<Move>;

    /// The moves, in list order.
    closed spec fn view(&self) -> Seq<Move> {
        self.moves@
    }
}

impl Default for MoveList {
    /// The empty list.
    fn default() -> (r: MoveList)
        ensures
            r@ == Seq::<Move>::empty(),
    {
        MoveList { moves: Vec::new() }
    }
}

impl MoveList {
    /// How many moves the list holds.
    pub fn len(&self) -> (n: usize)
        ensures
            n == self@.len(),
    {
        self.moves.len()
    }

    /// Whether the list holds no move.
    pub fn is_empty(&self) -> (b: bool)
        ensures
            b == (self@.len() == 0),
    {
        self.moves.len() == 0
    }

    /// The move at place `i`, if the list is that long.
    pub fn get(&self, i: usize) -> (r: Option<Move>)
        ensures
            r == if i < self@.len() {
                Some(self@[i as int])
            } else {
                None
            },
    {
        if i < self.moves.len() {
            Some(self.moves[i])
        } else {
            None
        }
    }

    /// Whether the list holds `m`.
    pub fn contains(&self, m: Move) -> (b: bool)
        ensures
            b == self@.contains(m),
    {
        let n = self.moves.len();
        for i in 0..n
            invariant
                n == self@.len(),
                forall|j: int| 0 <= j < i ==> self@[j] != m,
        {
            if self.moves[i] == m {
                return true;
            }
        }
        false
    }

    /// The moves as a slice.
    pub fn as_slice(&self) -> (r: &[Move])
        ensures
            r@ == self@,
    {
        self.moves.as_slice()
    }

    /// Replaces what the list holds by the moves the rules allow in `pos`,
    /// each once.
    ///
    /// The work is done on a copy of `pos`: playable moves are found by
    /// making each candidate and looking at the mover's king, and a pawn
    /// drop that gives check is kept only if the other side then has a
    /// playable answer.
    pub fn generate_legals(&mut self, pos: &Position)
        requires
            pos.wf(),
        ensures
            final(self)@.no_duplicates(),
            forall|m: Move|
                #![trigger final(self)@.contains(m)]
                final(self)@.contains(m) == pos@.legal(m),
    {
        let mut scratch = pos.clone();
        let ghost v = pos@;
        let ghost past = pos.past();
        let candidates = playable_moves(&mut scratch);
        let mut list: Vec<Move> = Vec::new();
        let n = candidates.len();
        for i in 0..n
            invariant
                n == candidates@.len(),
                scratch.wf(),
                scratch@ == v,
                scratch.past() == past,
                candidates@.no_duplicates(),
                forall|m: Move|
                    #![trigger candidates@.contains(m)]
                    candidates@.contains(m) == v.playable(m),
                list@.no_duplicates(),
                forall|m: Move|
                    #![trigger list@.contains(m)]
                    list@.contains(m) == (v.legal(m) && exists|j: int|
                        0 <= j < i && candidates@[j] == m),
        {
            let m = candidates[i];
            let ghost found = list@;
            proof {
                assert(candidates@.contains(m));
                assert(v.playable(m));
                v.lemma_pseudo_legal_admits(m);
            }
            let mut mate = false;
            if m.is_drop() && m.piece().piece_type() == Some(PieceType::FU) {
                scratch.do_move(m);
                if scratch.checkers().contains(m.to()) {
                    let answers = playable_moves(&mut scratch);
                    mate = answers.len() == 0;
                    proof {
                        let after = v.apply(m);
                        if mate {
                            assert forall|r: Move| !#[trigger] after.playable(r) by {
                                assert(!answers@.contains(r));
                            }
                        } else {
                            assert(answers@.contains(answers@[0]));
                            assert(after.playable(answers@[0]));
                        }
                    }
                }
                scratch.undo_move(m);
                assert(scratch.past() =~= past);
            }
            assert(mate == v.is_pawn_drop_mate(m));
            if !mate {
                proof {
                    if found.contains(m) {
                        let j = choose|j: int| 0 <= j < i && candidates@[j] == m;
                        assert(candidates@[j] == candidates@[i as int]);
                    }
                }
                push_new(&mut list, m);
            }
            proof {
                assert forall|x: Move|
                    #![trigger list@.contains(x)]
                    list@.contains(x) == (v.legal(x) && exists|j: int|
                        0 <= j < i + 1 && candidates@[j] == x) by {
                    if found.contains(x) {
                        let j = choose|j: int| 0 <= j < i && candidates@[j] == x;
                        assert(0 <= j < i + 1 && candidates@[j] == x);
                    }
                    if v.legal(x) && exists|j: int| 0 <= j < i + 1 && candidates@[j] == x {
                        let j = choose|j: int| 0 <= j < i + 1 && candidates@[j] == x;
                        if j < i {
                            assert(found.contains(x));
                        }
                    }
                }
            }
        }
        proof {
            assert forall|m: Move|
                #![trigger list@.contains(m)]
                list@.contains(m) == v.legal(m) by {
                if v.legal(m) {
                    assert(candidates@.contains(m));
                    let j = choose|j: int| 0 <= j < candidates@.len() && candidates@[j] == m;
                    assert(0 <= j < n && candidates@[j] == m);
                }
            }
        }
        self.moves = list;
    }
}

impl Position {
    /// The moves the rules allow the side to move, each once.
    pub fn legal_moves(&self) -> (ml: MoveList)
        requires
            self.wf(),
        ensures
            ml@.no_duplicates(),
            forall|m: Move| #![trigger ml@.contains(m)] ml@.contains(m) == self@.legal(m),
    {
        let mut ml = MoveList::default();
        ml.generate_legals(self);
        ml
    }
}

} // verus!
