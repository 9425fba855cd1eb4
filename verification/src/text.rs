//! The position as text: one line per rank, one line per hand that holds
//! anything, and a line for the side to move.

use crate::color::Color;
use crate::piece::{Piece, PieceType};
use crate::placement::Placement;
use crate::position::Position;
use crate::square::Square;
use vstd::prelude::*;
use vstd::string::StringExecFns;

verus! {

/// The sign that stands for a side: `+` for Black, `-` for White.
pub open spec fn sign(c: Color) -> Seq<char> {
    match c {
        Color::Black => seq!['+'],
        Color::White => seq!['-'],
    }
}

/// The three characters that stand for what a square holds: the sign of
/// the side and the code of the type, or ` * ` for an empty square.
pub open spec fn piece_text(p: Piece) -> Seq<char> {
    match (p.spec_color(), p.spec_piece_type()) {
        (Some(c), Some(pt)) => sign(c) + pt.code(),
        _ => seq![' ', '*', ' '],
    }
}

/// The digit that names the rank with zero-based number `r`.
pub open spec fn rank_digit(r: int) -> Seq<char> {
    if r == 0 {
        seq!['1']
    } else if r == 1 {
        seq!['2']
    } else if r == 2 {
        seq!['3']
    } else if r == 3 {
        seq!['4']
    } else if r == 4 {
        seq!['5']
    } else if r == 5 {
        seq!['6']
    } else if r == 6 {
        seq!['7']
    } else if r == 7 {
        seq!['8']
    } else {
        seq!['9']
    }
}

/// The first `n` squares of rank `r` as text, from file 9 downwards.
pub open spec fn rank_cells(v: Placement, r: int, n: nat) -> Seq<char>
    decreases n,
{
    if n == 0 {
        Seq::empty()
    } else {
        rank_cells(v, r, (n - 1) as nat) + piece_text(v.piece_on(Square::at(9 - n, r)))
    }
}

/// The line of rank `r`: `P`, the rank's digit, its nine squares from file
/// 9 down to file 1, and a line feed.
pub open spec fn rank_line(v: Placement, r: int) -> Seq<char> {
    seq!['P'] + rank_digit(r) + rank_cells(v, r, 9) + seq!['\n']
}

/// The lines of the first `n` ranks.
pub open spec fn board_text(v: Placement, n: nat) -> Seq<char>
    decreases n,
{
    if n == 0 {
        Seq::empty()
    } else {
        board_text(v, (n - 1) as nat) + rank_line(v, n - 1)
    }
}

/// `n` pieces of type `pt` in a hand line: each is `00` and the code.
pub open spec fn held_text(pt: PieceType, n: nat) -> Seq<char>
    decreases n,
{
    if n == 0 {
        Seq::empty()
    } else {
        held_text(pt, (n - 1) as nat) + seq!['0', '0'] + pt.code()
    }
}

/// The pieces of a hand as text, for the `n` types that come last in hand
/// order, the last type first.
pub open spec fn hand_cells(h: Seq<nat>, n: nat) -> Seq<char>
    decreases n,
{
    if n == 0 {
        Seq::empty()
    } else {
        hand_cells(h, (n - 1) as nat) + held_text(PieceType::of_hand_index(7 - n), h[7 - n])
    }
}

/// Whether a hand with these counts holds nothing.
pub open spec fn hand_is_empty(h: Seq<nat>) -> bool {
    forall|i: int| 0 <= i < 7 ==> h[i] == 0
}

/// The line of the hand of side `c`: `P`, the side's sign, the pieces held
/// from rook down to pawn, and a line feed; nothing at all for an empty
/// hand.
pub open spec fn hand_line(v: Placement, c: Color) -> Seq<char> {
    if hand_is_empty(v.hand(c)) {
        Seq::empty()
    } else {
        seq!['P'] + sign(c) + hand_cells(v.hand(c), 7) + seq!['\n']
    }
}

/// The whole position as text: the nine rank lines, the hand lines of
/// Black and White, and the sign of the side to move on a line of its own.
pub open spec fn position_text(v: Placement) -> Seq<char> {
    board_text(v, 9) + hand_line(v, Color::Black) + hand_line(v, Color::White) + sign(v.side)
        + seq!['\n']
}

/// Appends the sign of side `c`.
fn push_sign(s: &mut String, c: Color)
    ensures
        final(s)@ == old(s)@ + sign(c),
{
    proof {
        reveal_strlit("+");
        reveal_strlit("-");
    }
    match c {
        Color::Black => s.append("+"),
        Color::White => s.append("-"),
    }
    assert(s@ =~= old(s)@ + sign(c));
}

/// Appends the text of what a square holds.
fn push_piece(s: &mut String, p: Piece)
    ensures
        final(s)@ == old(s)@ + piece_text(p),
{
    match (p.color(), p.piece_type()) {
        (Some(c), Some(pt)) => {
            push_sign(s, c);
            s.append(pt.name());
            assert(s@ =~= old(s)@ + piece_text(p));
        },
        _ => {
            proof {
                reveal_strlit(" * ");
            }
            s.append(" * ");
            assert(s@ =~= old(s)@ + piece_text(p));
        },
    }
}

/// Appends the digit of the rank with zero-based number `r`.
fn push_rank_digit(s: &mut String, r: u8)
    ensures
        final(s)@ == old(s)@ + rank_digit(r as int),
{
    proof {
        reveal_strlit("1");
        reveal_strlit("2");
        reveal_strlit("3");
        reveal_strlit("4");
        reveal_strlit("5");
        reveal_strlit("6");
        reveal_strlit("7");
        reveal_strlit("8");
        reveal_strlit("9");
    }
    let d = match r {
        0 => "1",
        1 => "2",
        2 => "3",
        3 => "4",
        4 => "5",
        5 => "6",
        6 => "7",
        7 => "8",
        _ => "9",
    };
    s.append(d);
    assert(s@ =~= old(s)@ + rank_digit(r as int));
}

impl Position {
    /// Appends the line of rank `r`.
    fn push_rank(&self, s: &mut String, r: u8)
        requires
            r < 9,
        ensures
            final(s)@ == old(s)@ + rank_line(self@, r as int),
    {
        proof {
            reveal_strlit("P");
            reveal_strlit("\n");
        }
        s.append("P");
        push_rank_digit(s, r);
        let ghost head = s@;
        let mut n: u8 = 0;
        while n < 9
            invariant
                n <= 9,
                r < 9,
                s@ == head + rank_cells(self@, r as int, n as nat),
            decreases 9 - n,
        {
            match Square::new(8 - n, r) {
                Some(sq) => {
                    push_piece(s, self.piece_on(sq));
                },
                None => {},
            }
            n = n + 1;
            assert(s@ =~= head + rank_cells(self@, r as int, n as nat));
        }
        s.append("\n");
        assert(s@ =~= old(s)@ + rank_line(self@, r as int));
    }

    /// Appends the line of the hand of side `c`, if that hand holds
    /// anything.
    fn push_hand(&self, s: &mut String, c: Color)
        ensures
            final(s)@ == old(s)@ + hand_line(self@, c),
    {
        let hand = self.hand(c);
        if hand.is_empty() {
            assert(s@ =~= old(s)@ + hand_line(self@, c));
            return ;
        }
        proof {
            reveal_strlit("P");
            reveal_strlit("00");
            reveal_strlit("\n");
        }
        s.append("P");
        push_sign(s, c);
        let ghost head = s@;
        let mut n: usize = 0;
        while n < 7
            invariant
                n <= 7,
                hand@ == self@.hand(c),
                hand@.len() == 7,
                s@ == head + hand_cells(hand@, n as nat),
            decreases 7 - n,
        {
            let pt = PieceType::ALL_HAND[6 - n];
            assert(pt == PieceType::of_hand_index(6 - n));
            let count = hand.num(pt);
            assert(count == hand@[6 - n]);
            let ghost before = s@;
            let mut k: u16 = 0;
            while k < count
                invariant
                    k <= count,
                    s@ == before + held_text(pt, k as nat),
                decreases count - k,
            {
                proof {
                    reveal_strlit("00");
                }
                s.append("00");
                s.append(pt.name());
                k = k + 1;
                assert(s@ =~= before + held_text(pt, k as nat));
            }
            n = n + 1;
            assert(s@ =~= head + hand_cells(hand@, n as nat));
        }
        s.append("\n");
        assert(s@ =~= old(s)@ + hand_line(self@, c));
    }

    /// The position as text: the nine rank lines, the hand lines of Black
    /// and White where they hold anything, and the sign of the side to
    /// move.
    pub fn render(&self) -> (s: String)
        ensures
            s@ == position_text(self@),
    {
        let mut s = String::new();
        let mut r: u8 = 0;
        while r < 9
            invariant
                r <= 9,
                s@ == board_text(self@, r as nat),
            decreases 9 - r,
        {
            self.push_rank(&mut s, r);
            r = r + 1;
        }
        self.push_hand(&mut s, Color::Black);
        self.push_hand(&mut s, Color::White);
        push_sign(&mut s, self.side_to_move());
        proof {
            reveal_strlit("\n");
        }
        s.append("\n");
        assert(s@ =~= position_text(self@));
        s
    }
}

} // verus!
