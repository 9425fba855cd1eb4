//! How pieces attack: the geometry of the board, stated over coordinates,
//! and the functions that compute attacked squares as bitboards.

use crate::bitboard::Bitboard;
use crate::color::Color;
use crate::piece::PieceType;
use crate::square::Square;
use vstd::prelude::*;

verus! {

/// The sign of `x`: -1, 0 or 1.
pub open spec fn sgn(x: int) -> int {
    if x > 0 {
        1
    } else if x < 0 {
        -1
    } else {
        0
    }
}

/// The absolute value of `x`.
pub open spec fn abs(x: int) -> int {
    if x < 0 {
        -x
    } else {
        x
    }
}

/// How many king steps a displacement of `df` files and `dr` ranks takes.
pub open spec fn span(df: int, dr: int) -> int {
    if abs(df) >= abs(dr) {
        abs(df)
    } else {
        abs(dr)
    }
}

/// Whether a displacement other than zero runs along a file, a rank or a
/// diagonal.
pub open spec fn aligned(df: int, dr: int) -> bool {
    (df != 0 || dr != 0) && (df == 0 || dr == 0 || abs(df) == abs(dr))
}

/// `k` steps of `d`, where `d` is -1, 0 or 1.
pub open spec fn scaled(d: int, k: int) -> int {
    if d > 0 {
        k
    } else if d < 0 {
        -k
    } else {
        0
    }
}

/// A displacement as the side `c` sees it: Black's view is the board's own,
/// White's is turned half a circle.
pub open spec fn toward(c: Color, d: int) -> int {
    match c {
        Color::Black => d,
        Color::White => -d,
    }
}

/// Whether the point `(sf, sr)` lies strictly between the origin and the
/// point `(df, dr)` on a file, rank or diagonal through both.
pub open spec fn within(df: int, dr: int, sf: int, sr: int) -> bool {
    aligned(df, dr) && aligned(sf, sr) && sgn(sf) == sgn(df) && sgn(sr) == sgn(dr) && span(sf, sr)
        < span(df, dr)
}

/// Whether `s` lies strictly between `a` and `b` on a file, rank or diagonal
/// that both are on.
pub open spec fn is_between(a: Square, b: Square, s: Square) -> bool {
    within(
        b.spec_file() - a.spec_file(),
        b.spec_rank() - a.spec_rank(),
        s.spec_file() - a.spec_file(),
        s.spec_rank() - a.spec_rank(),
    )
}

/// The squares strictly between `a` and `b`; none unless they share a line.
pub open spec fn between_set(a: Square, b: Square) -> Set<Square> {
    Set::new(|s: Square| is_between(a, b, s))
}

/// Whether no occupied square lies strictly between `a` and `b`.
pub open spec fn clear_between(a: Square, b: Square, occ: Set<Square>) -> bool {
    forall|s: Square| #![trigger occ.contains(s)] is_between(a, b, s) ==> !occ.contains(s)
}

/// Whether a Black piece of type `pt` reaches the displacement `(df, dr)` in
/// a single step or jump. Forward is towards lower ranks.
pub open spec fn step_like(pt: PieceType, df: int, dr: int) -> bool {
    match pt {
        PieceType::FU => df == 0 && dr == -1,
        PieceType::KE => abs(df) == 1 && dr == -2,
        PieceType::GI => (abs(df) <= 1 && dr == -1) || (abs(df) == 1 && dr == 1),
        PieceType::KI | PieceType::TO | PieceType::NY | PieceType::NK | PieceType::NG => (abs(df)
            <= 1 && dr == -1) || (abs(df) == 1 && dr == 0) || (df == 0 && dr == 1),
        PieceType::OU => span(df, dr) == 1,
        PieceType::UM => abs(df) + abs(dr) == 1,
        PieceType::RY => abs(df) == 1 && abs(dr) == 1,
        PieceType::KY | PieceType::KA | PieceType::HI => false,
    }
}

/// Whether a Black piece of type `pt` slides in the direction `(dx, dy)`.
pub open spec fn slide_like(pt: PieceType, dx: int, dy: int) -> bool {
    match pt {
        PieceType::KY => dx == 0 && dy == -1,
        PieceType::KA | PieceType::UM => abs(dx) == 1 && abs(dy) == 1,
        PieceType::HI | PieceType::RY => abs(dx) + abs(dy) == 1,
        _ => false,
    }
}

/// Whether this type attacks along lines, so that a piece in the way
/// shields what is behind it.
pub open spec fn is_slider(pt: PieceType) -> bool {
    pt == PieceType::KY || pt == PieceType::KA || pt == PieceType::HI || pt == PieceType::UM || pt
        == PieceType::RY
}

/// Whether a piece of type `pt` and color `c` standing on `from` reaches
/// `to` in a single step or jump.
pub open spec fn steps_to(pt: PieceType, c: Color, from: Square, to: Square) -> bool {
    step_like(
        pt,
        toward(c, to.spec_file() - from.spec_file()),
        toward(c, to.spec_rank() - from.spec_rank()),
    )
}

/// Whether `to` lies on a line along which a piece of type `pt` and color
/// `c` standing on `from` slides.
pub open spec fn slides_to(pt: PieceType, c: Color, from: Square, to: Square) -> bool {
    let df = toward(c, to.spec_file() - from.spec_file());
    let dr = toward(c, to.spec_rank() - from.spec_rank());
    aligned(df, dr) && slide_like(pt, sgn(df), sgn(dr))
}

/// Whether a piece of type `pt` and color `c` standing on `from` attacks
/// `to` when exactly the squares in `occ` are occupied.
///
/// A step or jump attacks whatever the occupancy; a slide attacks every
/// square along its line up to and including the first occupied one.
pub open spec fn attacks(
    pt: PieceType,
    c: Color,
    from: Square,
    to: Square,
    occ: Set<Square>,
) -> bool {
    steps_to(pt, c, from, to) || (slides_to(pt, c, from, to) && clear_between(from, to, occ))
}

/// The squares that a piece of type `pt` and color `c` on `from` attacks
/// under the occupancy `occ`.
pub open spec fn attack_set(
    pt: PieceType,
    c: Color,
    from: Square,
    occ: Set<Square>,
) -> Set<Square> {
    Set::new(|to: Square| attacks(pt, c, from, to, occ))
}

/// Whether `to` lies from `from` in the direction `(dx, dy)` with nothing
/// occupied in between.
spec fn reaches(from: Square, to: Square, dx: int, dy: int, occ: Set<Square>) -> bool {
    let df = to.spec_file() - from.spec_file();
    let dr = to.spec_rank() - from.spec_rank();
    aligned(df, dr) && sgn(df) == dx && sgn(dr) == dy && clear_between(from, to, occ)
}

/// Whether `to` is `(df, dr)` away from `from`.
spec fn displaced(from: Square, to: Square, df: int, dr: int) -> bool {
    to.spec_file() - from.spec_file() == df && to.spec_rank() - from.spec_rank() == dr
}

/// What lies between two points lies between them from either end.
proof fn lemma_within_symmetric(df: int, dr: int, sf: int, sr: int)
    ensures
        within(df, dr, sf, sr) == within(-df, -dr, sf - df, sr - dr),
{
}

/// Betweenness does not depend on the end one starts from.
pub proof fn lemma_between_symmetric(a: Square, b: Square, s: Square)
    ensures
        is_between(a, b, s) == is_between(b, a, s),
{
    lemma_within_symmetric(
        b.spec_file() - a.spec_file(),
        b.spec_rank() - a.spec_rank(),
        s.spec_file() - a.spec_file(),
        s.spec_rank() - a.spec_rank(),
    );
}

/// An attack seen from the attacked square: `from` attacks `to` exactly when
/// the same type, in the opponent's color and standing on `to`, would attack
/// `from`.
pub proof fn lemma_attack_symmetry(
    pt: PieceType,
    c: Color,
    from: Square,
    to: Square,
    occ: Set<Square>,
)
    ensures
        attacks(pt, c, from, to, occ) == attacks(pt, c.spec_opponent(), to, from, occ),
{
    assert(clear_between(from, to, occ) == clear_between(to, from, occ)) by {
        assert forall|s: Square| is_between(from, to, s) == is_between(to, from, s) by {
            lemma_between_symmetric(from, to, s);
        }
    }
}

/// A line of sliding seen from its far end: `to` lies on a line along which
/// the piece on `from` slides exactly when `from` lies on such a line for
/// the same type in the opponent's color standing on `to`.
pub proof fn lemma_slide_symmetry(pt: PieceType, c: Color, from: Square, to: Square)
    ensures
        slides_to(pt, c, from, to) == slides_to(pt, c.spec_opponent(), to, from),
{
}

/// On an empty board a rook, bishop or lance attacks whatever lies on its
/// lines.
pub proof fn lemma_unhindered(pt: PieceType, c: Color, from: Square, to: Square)
    requires
        pt == PieceType::KY || pt == PieceType::KA || pt == PieceType::HI,
    ensures
        attacks(pt, c, from, to, Set::<Square>::empty()) == slides_to(pt, c, from, to),
{
}

/// A promoted rook attacks like a rook or, diagonally, like a silver; a
/// promoted bishop like a bishop or like a gold; a king like a silver or a
/// gold; the promoted minor pieces like a gold.
pub proof fn lemma_attack_families(c: Color, from: Square, to: Square, occ: Set<Square>)
    ensures
        attacks(PieceType::RY, c, from, to, occ) == (attacks(PieceType::HI, c, from, to, occ)
            || attacks(PieceType::GI, c, from, to, occ)),
        attacks(PieceType::UM, c, from, to, occ) == (attacks(PieceType::KA, c, from, to, occ)
            || attacks(PieceType::KI, c, from, to, occ)),
        attacks(PieceType::OU, c, from, to, occ) == (attacks(PieceType::GI, c, from, to, occ)
            || attacks(PieceType::KI, c, from, to, occ)),
        attacks(PieceType::TO, c, from, to, occ) == attacks(PieceType::KI, c, from, to, occ),
        attacks(PieceType::NY, c, from, to, occ) == attacks(PieceType::KI, c, from, to, occ),
        attacks(PieceType::NK, c, from, to, occ) == attacks(PieceType::KI, c, from, to, occ),
        attacks(PieceType::NG, c, from, to, occ) == attacks(PieceType::KI, c, from, to, occ),
{
    let df = to.spec_file() - from.spec_file();
    let dr = to.spec_rank() - from.spec_rank();
    if span(df, dr) == 1 {
        assert forall|s: Square| !is_between(from, to, s) by {}
        assert(clear_between(from, to, occ));
    }
}

/// Adds to `bb` the square `(df, dr)` away from `sq`, if the board has it.
fn step(bb: Bitboard, sq: Square, df: i8, dr: i8) -> (r: Bitboard)
    ensures
        forall|t: Square|
            r@.contains(t) == (bb@.contains(t) || displaced(sq, t, df as int, dr as int)),
{
    match sq.offset(df, dr) {
        Some(n) => {
            let r = bb.with(n);
            assert forall|t: Square|
                r@.contains(t) == (bb@.contains(t) || displaced(sq, t, df as int, dr as int)) by {
                if displaced(sq, t, df as int, dr as int) {
                    t.lemma_same_coords(n);
                }
            }
            r
        },
        None => {
            assert forall|t: Square| !displaced(sq, t, df as int, dr as int) by {
                t.lemma_coords();
            }
            bb
        },
    }
}

/// Whether `s` lies from `sq` in the direction `(dx, dy)`.
spec fn in_dir(sq: Square, s: Square, dx: int, dy: int) -> bool {
    let df = s.spec_file() - sq.spec_file();
    let dr = s.spec_rank() - sq.spec_rank();
    aligned(df, dr) && sgn(df) == dx && sgn(dr) == dy
}

/// How many king steps `s` is away from `sq`.
spec fn dist(sq: Square, s: Square) -> int {
    span(s.spec_file() - sq.spec_file(), s.spec_rank() - sq.spec_rank())
}

/// Whether `n` is the `k`-th square from `sq` in the direction `(dx, dy)`.
spec fn nth(sq: Square, n: Square, dx: int, dy: int, k: int) -> bool {
    n.spec_file() == sq.spec_file() + scaled(dx, k) && n.spec_rank() == sq.spec_rank() + scaled(
        dy,
        k,
    )
}

/// Whether `r` is `bb` with the first `k` squares of the ray added, as far
/// as the ray goes.
spec fn ray_upto(
    bb: Set<Square>,
    r: Set<Square>,
    sq: Square,
    dx: int,
    dy: int,
    occ: Set<Square>,
    k: int,
) -> bool {
    forall|t: Square|
        r.contains(t) == (bb.contains(t) || (reaches(sq, t, dx, dy, occ) && dist(sq, t) <= k))
}

/// Whether the first `k` squares of the ray are all unoccupied.
spec fn free_upto(sq: Square, dx: int, dy: int, occ: Set<Square>, k: int) -> bool {
    forall|s: Square|
        #![trigger occ.contains(s)]
        in_dir(sq, s, dx, dy) && dist(sq, s) <= k ==> !occ.contains(s)
}

/// Whether `r` is `bb` with the whole ray added.
spec fn ray_done(
    bb: Set<Square>,
    r: Set<Square>,
    sq: Square,
    dx: int,
    dy: int,
    occ: Set<Square>,
) -> bool {
    forall|t: Square| r.contains(t) == (bb.contains(t) || reaches(sq, t, dx, dy, occ))
}

spec fn unit(dx: int, dy: int) -> bool {
    -1 <= dx <= 1 && -1 <= dy <= 1 && (dx != 0 || dy != 0)
}

/// A square in a given direction at a given distance has the coordinates of
/// the square that many steps along.
proof fn lemma_nth(sq: Square, s: Square, dx: int, dy: int, k: int)
    requires
        unit(dx, dy),
    ensures
        (in_dir(sq, s, dx, dy) && dist(sq, s) == k) == (k >= 1 && nth(sq, s, dx, dy, k)),
{
}

/// What lies strictly between `sq` and the `k`-th square of a ray are the
/// squares before it on that ray.
proof fn lemma_between_nth(sq: Square, t: Square, s: Square, dx: int, dy: int)
    requires
        unit(dx, dy),
        in_dir(sq, t, dx, dy),
    ensures
        is_between(sq, t, s) == (in_dir(sq, s, dx, dy) && dist(sq, s) < dist(sq, t)),
{
}

/// The ray ends where the board does.
proof fn lemma_ray_edge(
    bb: Set<Square>,
    r: Set<Square>,
    sq: Square,
    cur: Square,
    dx: int,
    dy: int,
    occ: Set<Square>,
    k: int,
)
    requires
        unit(dx, dy),
        0 <= k,
        nth(sq, cur, dx, dy, k),
        !Square::on_board(cur.spec_file() + dx, cur.spec_rank() + dy),
        ray_upto(bb, r, sq, dx, dy, occ, k),
    ensures
        ray_done(bb, r, sq, dx, dy, occ),
{
    assert forall|t: Square|
        r.contains(t) == (bb.contains(t) || reaches(sq, t, dx, dy, occ)) by {
        t.lemma_coords();
        cur.lemma_coords();
        if in_dir(sq, t, dx, dy) {
            lemma_nth(sq, t, dx, dy, dist(sq, t));
            assert(dist(sq, t) <= k);
        }
    }
}

/// One more square of the ray.
proof fn lemma_ray_extend(
    bb: Set<Square>,
    r: Set<Square>,
    sq: Square,
    n: Square,
    dx: int,
    dy: int,
    occ: Set<Square>,
    k: int,
)
    requires
        unit(dx, dy),
        0 <= k,
        nth(sq, n, dx, dy, k + 1),
        ray_upto(bb, r, sq, dx, dy, occ, k),
        free_upto(sq, dx, dy, occ, k),
    ensures
        ray_upto(bb, r.insert(n), sq, dx, dy, occ, k + 1),
        !occ.contains(n) ==> free_upto(sq, dx, dy, occ, k + 1),
        occ.contains(n) ==> ray_done(bb, r.insert(n), sq, dx, dy, occ),
        k + 1 <= 8,
{
    n.lemma_coords();
    sq.lemma_coords();
    lemma_nth(sq, n, dx, dy, k + 1);
    assert(clear_between(sq, n, occ)) by {
        assert forall|s: Square| is_between(sq, n, s) implies !occ.contains(s) by {
            lemma_between_nth(sq, n, s, dx, dy);
        }
    }
    assert(reaches(sq, n, dx, dy, occ));
    let r2 = r.insert(n);
    assert forall|t: Square|
        r2.contains(t) == (bb.contains(t) || (reaches(sq, t, dx, dy, occ) && dist(sq, t) <= k
            + 1)) by {
        if in_dir(sq, t, dx, dy) && dist(sq, t) == k + 1 {
            lemma_nth(sq, t, dx, dy, k + 1);
            t.lemma_same_coords(n);
        }
    }
    if occ.contains(n) {
        assert forall|t: Square|
            r2.contains(t) == (bb.contains(t) || reaches(sq, t, dx, dy, occ)) by {
            if in_dir(sq, t, dx, dy) && dist(sq, t) > k + 1 {
                lemma_between_nth(sq, t, n, dx, dy);
                assert(is_between(sq, t, n));
                assert(!clear_between(sq, t, occ));
            }
        }
    } else {
        assert forall|s: Square|
            #![trigger occ.contains(s)]
            in_dir(sq, s, dx, dy) && dist(sq, s) <= k + 1 implies !occ.contains(s) by {
            if dist(sq, s) == k + 1 {
                lemma_nth(sq, s, dx, dy, k + 1);
                s.lemma_same_coords(n);
            }
        }
    }
}

/// Adds to `bb` the squares from `sq` in the direction `(dx, dy)`, up to and
/// including the first one in `occ`.
fn ray(bb: Bitboard, sq: Square, dx: i8, dy: i8, occ: &Bitboard) -> (r: Bitboard)
    requires
        unit(dx as int, dy as int),
    ensures
        forall|t: Square|
            r@.contains(t) == (bb@.contains(t) || reaches(sq, t, dx as int, dy as int, occ@)),
{
    let mut r = bb;
    let mut cur = sq;
    let ghost mut k: int = 0;
    proof {
        assert forall|t: Square|
            bb@.contains(t) == (bb@.contains(t) || (reaches(sq, t, dx as int, dy as int, occ@)
                && dist(sq, t) <= 0)) by {}
    }
    loop
        invariant_except_break
            0 <= k <= 8,
            nth(sq, cur, dx as int, dy as int, k),
            ray_upto(bb@, r@, sq, dx as int, dy as int, occ@, k),
            free_upto(sq, dx as int, dy as int, occ@, k),
        invariant
            unit(dx as int, dy as int),
        ensures
            ray_done(bb@, r@, sq, dx as int, dy as int, occ@),
        decreases 8 - k,
    {
        match cur.offset(dx, dy) {
            None => {
                proof {
                    lemma_ray_edge(bb@, r@, sq, cur, dx as int, dy as int, occ@, k);
                }
                break ;
            },
            Some(n) => {
                proof {
                    lemma_ray_extend(bb@, r@, sq, n, dx as int, dy as int, occ@, k);
                    k = k + 1;
                }
                r = r.with(n);
                cur = n;
                if occ.contains(n) {
                    break ;
                }
            },
        }
    }
    r
}

/// The sign of `x` as a machine integer.
fn signum(x: i8) -> (s: i8)
    ensures
        s == sgn(x as int),
{
    if x > 0 {
        1
    } else if x < 0 {
        -1
    } else {
        0
    }
}

/// Whether `r` holds the squares between `a` and `b` that are at most `k`
/// steps from `a`.
spec fn between_upto(a: Square, b: Square, r: Set<Square>, k: int) -> bool {
    forall|s: Square| r.contains(s) == (is_between(a, b, s) && dist(a, s) <= k)
}

/// One more square on the way from `a` to `b`.
proof fn lemma_between_extend(
    a: Square,
    b: Square,
    n: Square,
    r: Set<Square>,
    dx: int,
    dy: int,
    k: int,
)
    requires
        unit(dx, dy),
        in_dir(a, b, dx, dy),
        0 <= k < dist(a, b),
        nth(a, n, dx, dy, k + 1),
        between_upto(a, b, r, k),
    ensures
        (n == b) == (k + 1 == dist(a, b)),
        n != b ==> between_upto(a, b, r.insert(n), k + 1),
        n == b ==> r == between_set(a, b),
{
    lemma_nth(a, n, dx, dy, k + 1);
    lemma_nth(a, b, dx, dy, dist(a, b));
    if k + 1 == dist(a, b) {
        n.lemma_same_coords(b);
        assert forall|s: Square| r.contains(s) == is_between(a, b, s) by {
            lemma_between_nth(a, b, s, dx, dy);
        }
        assert(r =~= between_set(a, b));
    } else {
        let r2 = r.insert(n);
        assert forall|s: Square| r2.contains(s) == (is_between(a, b, s) && dist(a, s) <= k + 1) by {
            lemma_between_nth(a, b, s, dx, dy);
            if in_dir(a, s, dx, dy) && dist(a, s) == k + 1 {
                lemma_nth(a, s, dx, dy, k + 1);
                s.lemma_same_coords(n);
            }
        }
    }
}

/// The next square on the way from `a` to `b` is on the board.
proof fn lemma_between_on_board(a: Square, b: Square, cur: Square, dx: int, dy: int, k: int)
    requires
        unit(dx, dy),
        in_dir(a, b, dx, dy),
        0 <= k < dist(a, b),
        nth(a, cur, dx, dy, k),
    ensures
        Square::on_board(cur.spec_file() + dx, cur.spec_rank() + dy),
{
    a.lemma_coords();
    b.lemma_coords();
    cur.lemma_coords();
    lemma_nth(a, b, dx, dy, dist(a, b));
}

/// The squares strictly between `a` and `b` on the file, rank or diagonal
/// they share; no square if they share none.
pub fn between(a: Square, b: Square) -> (r: Bitboard)
    ensures
        r@ == between_set(a, b),
{
    let df: i8 = b.file() as i8 - a.file() as i8;
    let dr: i8 = b.rank() as i8 - a.rank() as i8;
    let on_line = (df != 0 || dr != 0) && (df == 0 || dr == 0 || df == dr || df == -dr);
    if !on_line {
        let r = Bitboard::empty();
        assert(r@ =~= between_set(a, b));
        return r;
    }
    let dx = signum(df);
    let dy = signum(dr);
    let mut r = Bitboard::empty();
    let mut cur = a;
    let ghost mut k: int = 0;
    proof {
        assert forall|s: Square|
            r@.contains(s) == (is_between(a, b, s) && dist(a, s) <= 0) by {}
    }
    loop
        invariant_except_break
            0 <= k < dist(a, b),
            nth(a, cur, dx as int, dy as int, k),
            between_upto(a, b, r@, k),
        invariant
            unit(dx as int, dy as int),
            in_dir(a, b, dx as int, dy as int),
        ensures
            r@ == between_set(a, b),
        decreases dist(a, b) - k,
    {
        proof {
            lemma_between_on_board(a, b, cur, dx as int, dy as int, k);
        }
        match cur.offset(dx, dy) {
            None => {
                break ;
            },
            Some(n) => {
                proof {
                    lemma_between_extend(a, b, n, r@, dx as int, dy as int, k);
                }
                if n == b {
                    break ;
                }
                r = r.with(n);
                cur = n;
                proof {
                    k = k + 1;
                }
            },
        }
    }
    r
}

/// The rank step that is forward for side `c`.
fn forward(c: Color) -> (o: i8)
    ensures
        o == toward(c, -1),
{
    match c {
        Color::Black => -1,
        Color::White => 1,
    }
}

/// The attack of a pawn.
fn pawn_attack(sq: Square, c: Color, Ghost(occ): Ghost<Set<Square>>) -> (r: Bitboard)
    ensures
        r@ == attack_set(PieceType::FU, c, sq, occ),
{
    let r = step(Bitboard::empty(), sq, 0, forward(c));
    assert(r@ =~= attack_set(PieceType::FU, c, sq, occ));
    r
}

/// The attack of a knight.
fn knight_attack(sq: Square, c: Color, Ghost(occ): Ghost<Set<Square>>) -> (r: Bitboard)
    ensures
        r@ == attack_set(PieceType::KE, c, sq, occ),
{
    let f = forward(c);
    let r = step(step(Bitboard::empty(), sq, -1, 2 * f), sq, 1, 2 * f);
    assert(r@ =~= attack_set(PieceType::KE, c, sq, occ));
    r
}

/// The attack of a silver.
fn silver_attack(sq: Square, c: Color, Ghost(occ): Ghost<Set<Square>>) -> (r: Bitboard)
    ensures
        r@ == attack_set(PieceType::GI, c, sq, occ),
{
    let f = forward(c);
    let front = step(step(step(Bitboard::empty(), sq, -1, f), sq, 0, f), sq, 1, f);
    let r = step(step(front, sq, -1, -f), sq, 1, -f);
    assert(r@ =~= attack_set(PieceType::GI, c, sq, occ));
    r
}

/// The attack of a gold, and of the promoted pieces that move like one.
fn gold_attack(sq: Square, c: Color, Ghost(occ): Ghost<Set<Square>>) -> (r: Bitboard)
    ensures
        r@ == attack_set(PieceType::KI, c, sq, occ),
        r@ == attack_set(PieceType::TO, c, sq, occ),
        r@ == attack_set(PieceType::NY, c, sq, occ),
        r@ == attack_set(PieceType::NK, c, sq, occ),
        r@ == attack_set(PieceType::NG, c, sq, occ),
{
    let f = forward(c);
    let front = step(step(step(Bitboard::empty(), sq, -1, f), sq, 0, f), sq, 1, f);
    let r = step(step(step(front, sq, -1, 0), sq, 1, 0), sq, 0, -f);
    assert(r@ =~= attack_set(PieceType::KI, c, sq, occ));
    assert(r@ =~= attack_set(PieceType::TO, c, sq, occ));
    assert(r@ =~= attack_set(PieceType::NY, c, sq, occ));
    assert(r@ =~= attack_set(PieceType::NK, c, sq, occ));
    assert(r@ =~= attack_set(PieceType::NG, c, sq, occ));
    r
}

/// The attack of a king.
fn king_attack(sq: Square, c: Color, Ghost(occ): Ghost<Set<Square>>) -> (r: Bitboard)
    ensures
        r@ == attack_set(PieceType::OU, c, sq, occ),
{
    let r = diagonal_steps(straight_steps(Bitboard::empty(), sq), sq);
    assert(r@ =~= attack_set(PieceType::OU, c, sq, occ));
    r
}

/// The attack of a lance.
fn lance_attack(sq: Square, c: Color, occ: &Bitboard) -> (r: Bitboard)
    ensures
        r@ == attack_set(PieceType::KY, c, sq, occ@),
{
    let r = ray(Bitboard::empty(), sq, 0, forward(c), occ);
    assert(r@ =~= attack_set(PieceType::KY, c, sq, occ@));
    r
}

/// The attack of a bishop.
fn bishop_attack(sq: Square, c: Color, occ: &Bitboard) -> (r: Bitboard)
    ensures
        r@ == attack_set(PieceType::KA, c, sq, occ@),
{
    let r = diagonal_rays(Bitboard::empty(), sq, occ);
    assert(r@ =~= attack_set(PieceType::KA, c, sq, occ@));
    r
}

/// The attack of a rook.
fn rook_attack(sq: Square, c: Color, occ: &Bitboard) -> (r: Bitboard)
    ensures
        r@ == attack_set(PieceType::HI, c, sq, occ@),
{
    let r = straight_rays(Bitboard::empty(), sq, occ);
    assert(r@ =~= attack_set(PieceType::HI, c, sq, occ@));
    r
}

/// The attack of a promoted bishop.
fn horse_attack(sq: Square, c: Color, occ: &Bitboard) -> (r: Bitboard)
    ensures
        r@ == attack_set(PieceType::UM, c, sq, occ@),
{
    let r = straight_steps(diagonal_rays(Bitboard::empty(), sq, occ), sq);
    assert(r@ =~= attack_set(PieceType::UM, c, sq, occ@));
    r
}

/// The attack of a promoted rook.
fn dragon_attack(sq: Square, c: Color, occ: &Bitboard) -> (r: Bitboard)
    ensures
        r@ == attack_set(PieceType::RY, c, sq, occ@),
{
    let r = diagonal_steps(straight_rays(Bitboard::empty(), sq, occ), sq);
    assert(r@ =~= attack_set(PieceType::RY, c, sq, occ@));
    r
}

/// The squares that a piece of type `pt` and color `c` on `sq` attacks when
/// the squares in `occ` are occupied.
pub fn attack(pt: PieceType, sq: Square, c: Color, occ: &Bitboard) -> (r: Bitboard)
    ensures
        r@ == attack_set(pt, c, sq, occ@),
{
    match pt {
        PieceType::FU => pawn_attack(sq, c, Ghost(occ@)),
        PieceType::KY => lance_attack(sq, c, occ),
        PieceType::KE => knight_attack(sq, c, Ghost(occ@)),
        PieceType::GI => silver_attack(sq, c, Ghost(occ@)),
        PieceType::KI | PieceType::TO | PieceType::NY | PieceType::NK | PieceType::NG => gold_attack(
            sq,
            c,
            Ghost(occ@),
        ),
        PieceType::OU => king_attack(sq, c, Ghost(occ@)),
        PieceType::KA => bishop_attack(sq, c, occ),
        PieceType::HI => rook_attack(sq, c, occ),
        PieceType::UM => horse_attack(sq, c, occ),
        PieceType::RY => dragon_attack(sq, c, occ),
    }
}

/// The squares that a piece of type `pt` and color `c` on `sq` attacks on an
/// otherwise empty board.
pub fn pseudo_attack(pt: PieceType, sq: Square, c: Color) -> (r: Bitboard)
    ensures
        r@ == attack_set(pt, c, sq, Set::<Square>::empty()),
{
    attack(pt, sq, c, &Bitboard::empty())
}

/// Adds the four squares next to `sq` along its file and rank.
fn straight_steps(bb: Bitboard, sq: Square) -> (r: Bitboard)
    ensures
        forall|t: Square|
            r@.contains(t) == (bb@.contains(t) || abs(t.spec_file() - sq.spec_file()) + abs(
                t.spec_rank() - sq.spec_rank(),
            ) == 1),
{
    step(step(step(step(bb, sq, 0, -1), sq, 0, 1), sq, -1, 0), sq, 1, 0)
}

/// Adds the four squares diagonally next to `sq`.
fn diagonal_steps(bb: Bitboard, sq: Square) -> (r: Bitboard)
    ensures
        forall|t: Square|
            r@.contains(t) == (bb@.contains(t) || (abs(t.spec_file() - sq.spec_file()) == 1 && abs(
                t.spec_rank() - sq.spec_rank(),
            ) == 1)),
{
    step(step(step(step(bb, sq, -1, -1), sq, -1, 1), sq, 1, -1), sq, 1, 1)
}

/// Adds the squares reached from `sq` along its file and rank.
fn straight_rays(bb: Bitboard, sq: Square, occ: &Bitboard) -> (r: Bitboard)
    ensures
        forall|t: Square|
            r@.contains(t) == (bb@.contains(t) || (aligned(
                t.spec_file() - sq.spec_file(),
                t.spec_rank() - sq.spec_rank(),
            ) && abs(sgn(t.spec_file() - sq.spec_file())) + abs(
                sgn(t.spec_rank() - sq.spec_rank()),
            ) == 1 && clear_between(sq, t, occ@))),
{
    ray(ray(ray(ray(bb, sq, 0, -1, occ), sq, 0, 1, occ), sq, -1, 0, occ), sq, 1, 0, occ)
}

/// Adds the squares reached from `sq` along its diagonals.
fn diagonal_rays(bb: Bitboard, sq: Square, occ: &Bitboard) -> (r: Bitboard)
    ensures
        forall|t: Square|
            r@.contains(t) == (bb@.contains(t) || (aligned(
                t.spec_file() - sq.spec_file(),
                t.spec_rank() - sq.spec_rank(),
            ) && abs(sgn(t.spec_file() - sq.spec_file())) == 1 && abs(
                sgn(t.spec_rank() - sq.spec_rank()),
            ) == 1 && clear_between(sq, t, occ@))),
{
    ray(ray(ray(ray(bb, sq, -1, -1, occ), sq, -1, 1, occ), sq, 1, -1, occ), sq, 1, 1, occ)
}

} // verus!
