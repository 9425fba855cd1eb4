//! Captured pieces held in reserve.

use crate::piece::PieceType;
use vstd::prelude::*;

verus! {

/// How many pieces of type `pt` a hand with the given counts holds.
///
/// Counts are listed in the order of [`PieceType::ALL_HAND`]. A promoted type
/// is counted as the type it reverts to; kings are never held.
pub open spec fn hand_num(counts: Seq<nat>, pt: PieceType) -> nat {
    match pt.spec_hand_index() {
        Some(i) => counts[i],
        None => 0,
    }
}

/// The counts after one piece of type `pt` has entered the hand.
pub open spec fn hand_added(counts: Seq<nat>, pt: PieceType) -> Seq<nat> {
    match pt.spec_hand_index() {
        Some(i) => counts.update(i, counts[i] + 1),
        None => counts,
    }
}

/// The counts after one piece of type `pt` has left the hand.
pub open spec fn hand_removed(counts: Seq<nat>, pt: PieceType) -> Seq<nat> {
    match pt.spec_hand_index() {
        Some(i) => counts.update(i, (counts[i] - 1) as nat),
        None => counts,
    }
}

/// The captured pieces one side holds, counted by type.
#[derive(Clone, Copy, Debug, PartialEq, Eq)]
pub struct Hand {
    counts: [u16; 7],
}

impl View for Hand {
    type V = Seq<nat>;

    /// The seven counts, in the order of [`PieceType::ALL_HAND`].
    closed spec fn view(&self) -> Seq<nat> {
        Seq::new(7, |i: int| self.counts@[i] as nat)
    }
}

impl Hand {
    /// A hand that holds nothing.
    pub fn new() -> (h: Hand)
        ensures
            h@ == Seq::new(7, |i: int| 0nat),
    {
        let h = Hand { counts: [0, 0, 0, 0, 0, 0, 0] };
        assert(h@ =~= Seq::new(7, |i: int| 0nat));
        h
    }

    /// A hand that holds the given number of pieces of each type.
    pub fn from_counts(nums: &[u8; 7]) -> (h: Hand)
        ensures
            h@ == Seq::new(7, |i: int| nums@[i] as nat),
    {
        let mut counts: [u16; 7] = [0, 0, 0, 0, 0, 0, 0];
        for i in 0..7usize
            invariant
                forall|j: int| 0 <= j < i ==> counts@[j] == nums@[j],
        {
            counts[i] = nums[i] as u16;
        }
        let h = Hand { counts };
        assert(h@ =~= Seq::new(7, |i: int| nums@[i] as nat));
        h
    }

    /// How many pieces of type `pt` the hand holds.
    pub open spec fn count(&self, pt: PieceType) -> nat {
        hand_num(self@, pt)
    }

    /// How many pieces of type `pt` the hand holds.
    pub fn num(&self, pt: PieceType) -> (n: u16)
        ensures
            n == self.count(pt),
    {
        match pt.hand_index() {
            Some(i) => self.counts[i],
            None => 0,
        }
    }

    /// Whether the hand holds no piece at all.
    pub fn is_empty(&self) -> (b: bool)
        ensures
            b == (forall|i: int| 0 <= i < 7 ==> self@[i] == 0),
            self@.len() == 7,
    {
        let mut b = true;
        for i in 0..7usize
            invariant
                b == (forall|j: int| 0 <= j < i ==> self@[j] == 0),
        {
            assert(self@[i as int] == self.counts@[i as int]);
            if self.counts[i] != 0 {
                b = false;
            }
        }
        b
    }

    /// Adds one piece of type `pt`. A king, which no hand holds, changes
    /// nothing.
    pub fn increment(&mut self, pt: PieceType)
        requires
            old(self).count(pt) < u16::MAX,
        ensures
            final(self)@ == hand_added(old(self)@, pt),
    {
        match pt.hand_index() {
            Some(i) => {
                self.counts[i] = self.counts[i] + 1;
                assert(self@ =~= hand_added(old(self)@, pt));
            },
            None => {},
        }
    }

    /// Takes away one piece of type `pt`. A king, which no hand holds,
    /// changes nothing.
    pub fn decrement(&mut self, pt: PieceType)
        requires
            pt.spec_hand_index().is_some() ==> old(self).count(pt) > 0,
        ensures
            final(self)@ == hand_removed(old(self)@, pt),
    {
        match pt.hand_index() {
            Some(i) => {
                self.counts[i] = self.counts[i] - 1;
                assert(self@ =~= hand_removed(old(self)@, pt));
            },
            None => {},
        }
    }

    /// The view of a hand has seven counts, none above what a counter holds.
    pub proof fn lemma_view(self)
        ensures
            self@.len() == 7,
            forall|i: int| 0 <= i < 7 ==> self@[i] <= u16::MAX,
    {
    }
}

} // verus!
