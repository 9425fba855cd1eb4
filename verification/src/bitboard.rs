//! Sets of squares packed into one machine word.

use crate::square::Square;
use vstd::prelude::*;

verus! {

/// First value that no bitboard holds: bit 81 and above stay clear.
const LIMIT: u128 = 0x2_0000_0000_0000_0000_0000;

/// Whether bit `i` of `x` is set.
spec fn bit(x: u128, i: int) -> bool {
    (x >> (i as u128)) & 1 == 1
}

proof fn lemma_bit_and(a: u128, b: u128, i: int)
    requires
        0 <= i < 128,
    ensures
        bit(a & b, i) == (bit(a, i) && bit(b, i)),
{
    let k = i as u128;
    assert((((a & b) >> k) & 1 == 1) == (((a >> k) & 1 == 1) && ((b >> k) & 1 == 1)))
        by (bit_vector);
}

proof fn lemma_bit_or(a: u128, b: u128, i: int)
    requires
        0 <= i < 128,
    ensures
        bit(a | b, i) == (bit(a, i) || bit(b, i)),
{
    let k = i as u128;
    assert((((a | b) >> k) & 1 == 1) == (((a >> k) & 1 == 1) || ((b >> k) & 1 == 1)))
        by (bit_vector);
}

proof fn lemma_bit_xor(a: u128, b: u128, i: int)
    requires
        0 <= i < 128,
    ensures
        bit(a ^ b, i) == (bit(a, i) != bit(b, i)),
{
    let k = i as u128;
    assert((((a ^ b) >> k) & 1 == 1) == (((a >> k) & 1 == 1) != ((b >> k) & 1 == 1)))
        by (bit_vector);
}

proof fn lemma_bit_single(k: int, i: int)
    requires
        0 <= k < 128,
        0 <= i < 128,
    ensures
        bit(1u128 << (k as u128), i) == (i == k),
{
    let k = k as u128;
    let i = i as u128;
    assert((((1u128 << k) >> i) & 1 == 1) == (i == k)) by (bit_vector)
        requires
            k < 128,
            i < 128,
    ;
}

proof fn lemma_bit_zero(i: int)
    requires
        0 <= i < 128,
    ensures
        !bit(0, i),
{
    let k = i as u128;
    assert((0u128 >> k) & 1 == 0) by (bit_vector);
}

proof fn lemma_limit(a: u128, b: u128)
    requires
        a < LIMIT,
        b < LIMIT,
    ensures
        (a & b) < LIMIT,
        (a | b) < LIMIT,
        (a ^ b) < LIMIT,
{
    assert((a & b) < 0x2_0000_0000_0000_0000_0000u128 && (a | b) < 0x2_0000_0000_0000_0000_0000u128
        && (a ^ b) < 0x2_0000_0000_0000_0000_0000u128) by (bit_vector)
        requires
            a < 0x2_0000_0000_0000_0000_0000u128,
            b < 0x2_0000_0000_0000_0000_0000u128,
    ;
}

proof fn lemma_limit_single(k: int)
    requires
        0 <= k < 81,
    ensures
        (1u128 << (k as u128)) < LIMIT,
{
    let k = k as u128;
    assert((1u128 << k) < 0x2_0000_0000_0000_0000_0000u128) by (bit_vector)
        requires
            k < 81,
    ;
}

proof fn lemma_limit_bits(a: u128, i: int)
    requires
        a < LIMIT,
        81 <= i < 128,
    ensures
        !bit(a, i),
{
    let k = i as u128;
    assert((a >> k) & 1 == 0) by (bit_vector)
        requires
            a < 0x2_0000_0000_0000_0000_0000u128,
            81 <= k < 128,
    ;
}

proof fn lemma_low_half(x: u128, lo: u64, j: u64)
    requires
        lo == x & 0xffff_ffff_ffff_ffff,
        j < 64,
    ensures
        ((lo >> j) & 1 == 1) == bit(x, j as int),
        lo == 0 ==> !bit(x, j as int),
{
    let k = j as u128;
    assert(((lo >> j) & 1 == 1) == ((x >> k) & 1 == 1)) by (bit_vector)
        requires
            lo == x & 0xffff_ffff_ffff_ffff,
            j < 64,
            k == j,
    ;
    assert(lo == 0 ==> (lo >> j) & 1 == 0) by (bit_vector);
}

proof fn lemma_high_half(x: u128, hi: u64, j: u64)
    requires
        hi == x >> 64,
        j < 64,
    ensures
        ((hi >> j) & 1 == 1) == bit(x, j + 64),
{
    let k = (j + 64) as u128;
    assert(((hi >> j) & 1 == 1) == ((x >> k) & 1 == 1)) by (bit_vector)
        requires
            hi == x >> 64,
            j < 64,
            k == j + 64,
    ;
}

proof fn lemma_halves_zero(x: u128)
    requires
        x & 0xffff_ffff_ffff_ffff == 0,
        x >> 64 == 0,
    ensures
        x == 0,
{
    assert(x == 0) by (bit_vector)
        requires
            x & 0xffff_ffff_ffff_ffff == 0,
            x >> 64 == 0,
    ;
}

/// Index of the lowest set bit of a word that has one.
fn lowest_bit(x: u128) -> (k: u32)
    requires
        x != 0,
    ensures
        k < 128,
        bit(x, k as int),
        forall|j: int| 0 <= j < k ==> !bit(x, j),
{
    let low: u128 = x & 0xffff_ffff_ffff_ffff;
    let high: u128 = x >> 64;
    assert(low <= 0xffff_ffff_ffff_ffff && high <= 0xffff_ffff_ffff_ffff) by (bit_vector)
        requires
            low == x & 0xffff_ffff_ffff_ffff,
            high == x >> 64,
    ;
    let lo: u64 = low as u64;
    let hi: u64 = high as u64;
    if lo != 0 {
        let k = lo.trailing_zeros();
        proof {
            lemma_low_half(x, lo, k as u64);
            assert forall|j: int| 0 <= j < k implies !bit(x, j) by {
                lemma_low_half(x, lo, j as u64);
                assert((lo >> (j as u64)) & 1u64 == 0u64);
            }
        }
        k
    } else {
        proof {
            if hi == 0 {
                lemma_halves_zero(x);
            }
        }
        let k = hi.trailing_zeros();
        proof {
            lemma_high_half(x, hi, k as u64);
            assert forall|j: int| 0 <= j < k + 64 implies !bit(x, j) by {
                if j < 64 {
                    lemma_low_half(x, lo, j as u64);
                } else {
                    lemma_high_half(x, hi, (j - 64) as u64);
                    assert((hi >> ((j - 64) as u64)) & 1u64 == 0u64);
                }
            }
        }
        k + 64
    }
}

/// A set of squares, one bit per square.
#[derive(Clone, Copy, Debug, PartialEq, Eq, Structural)]
pub struct Bitboard {
    bits: u128,
}

impl View for Bitboard {
    type V = Set<Square>;

    /// The squares this bitboard holds.
    closed spec fn view(&self) -> Set<Square> {
        Set::new(|sq: Square| bit(self.bits, sq.spec_index() as int))
    }
}

impl Bitboard {
    #[verifier::type_invariant]
    spec fn below_limit(self) -> bool {
        self.bits < LIMIT
    }

    /// The bitboard that holds no square.
    pub fn empty() -> (r: Bitboard)
        ensures
            r@ == Set::<Square>::empty(),
    {
        proof {
            assert forall|sq: Square| !bit(0, sq.spec_index() as int) by {
                sq.lemma_coords();
                lemma_bit_zero(sq.spec_index() as int);
            }
        }
        Bitboard { bits: 0 }
    }

    /// The bitboard that holds `sq` alone.
    pub fn from_square(sq: Square) -> (r: Bitboard)
        ensures
            r@ == set![sq],
    {
        let k = sq.index();
        proof {
            lemma_limit_single(k as int);
            assert forall|s: Square| bit(1u128 << (k as u128), s.spec_index() as int) == (s
                == sq) by {
                s.lemma_coords();
                lemma_bit_single(k as int, s.spec_index() as int);
                if s.spec_index() == k {
                    s.lemma_same_index(sq);
                }
            }
        }
        let r = Bitboard { bits: 1u128 << k };
        assert(r@ =~= set![sq]);
        r
    }

    /// Whether `sq` is in the set.
    pub fn contains(&self, sq: Square) -> (b: bool)
        ensures
            b == self@.contains(sq),
    {
        let k = sq.index();
        (self.bits >> k) & 1 == 1
    }

    /// Whether the set holds no square.
    pub fn is_empty(&self) -> (b: bool)
        ensures
            b == (self@ == Set::<Square>::empty()),
    {
        self.is_zero()
    }

    fn is_zero(&self) -> (b: bool)
        ensures
            b == (self.bits == 0),
            b == (self@ == Set::<Square>::empty()),
    {
        proof {
            use_type_invariant(self);
            if self.bits == 0 {
                assert forall|sq: Square| !self@.contains(sq) by {
                    sq.lemma_coords();
                    lemma_bit_zero(sq.spec_index() as int);
                }
                assert(self@ =~= Set::<Square>::empty());
            } else {
                let sq = self.lemma_lowest();
                assert(self@.contains(sq));
            }
        }
        self.bits == 0
    }

    /// The squares in both sets.
    pub fn and(self, other: Bitboard) -> (r: Bitboard)
        ensures
            r@ == self@.intersect(other@),
    {
        proof {
            use_type_invariant(self);
            use_type_invariant(other);
            lemma_limit(self.bits, other.bits);
            assert forall|sq: Square|
                bit(self.bits & other.bits, sq.spec_index() as int) == (bit(
                    self.bits,
                    sq.spec_index() as int,
                ) && bit(other.bits, sq.spec_index() as int)) by {
                sq.lemma_coords();
                lemma_bit_and(self.bits, other.bits, sq.spec_index() as int);
            }
        }
        let r = Bitboard { bits: self.bits & other.bits };
        assert(r@ =~= self@.intersect(other@));
        r
    }

    /// The squares in either set.
    pub fn or(self, other: Bitboard) -> (r: Bitboard)
        ensures
            r@ == self@.union(other@),
    {
        proof {
            use_type_invariant(self);
            use_type_invariant(other);
            lemma_limit(self.bits, other.bits);
            assert forall|sq: Square|
                bit(self.bits | other.bits, sq.spec_index() as int) == (bit(
                    self.bits,
                    sq.spec_index() as int,
                ) || bit(other.bits, sq.spec_index() as int)) by {
                sq.lemma_coords();
                lemma_bit_or(self.bits, other.bits, sq.spec_index() as int);
            }
        }
        let r = Bitboard { bits: self.bits | other.bits };
        assert(r@ =~= self@.union(other@));
        r
    }

    /// The squares in exactly one of the two sets.
    pub fn xor(self, other: Bitboard) -> (r: Bitboard)
        ensures
            r@ == self@.difference(other@).union(other@.difference(self@)),
    {
        proof {
            use_type_invariant(self);
            use_type_invariant(other);
            lemma_limit(self.bits, other.bits);
            assert forall|sq: Square|
                bit(self.bits ^ other.bits, sq.spec_index() as int) == (bit(
                    self.bits,
                    sq.spec_index() as int,
                ) != bit(other.bits, sq.spec_index() as int)) by {
                sq.lemma_coords();
                lemma_bit_xor(self.bits, other.bits, sq.spec_index() as int);
            }
        }
        let r = Bitboard { bits: self.bits ^ other.bits };
        assert(r@ =~= self@.difference(other@).union(other@.difference(self@)));
        r
    }

    /// This set with `sq` added.
    pub fn with(self, sq: Square) -> (r: Bitboard)
        ensures
            r@ == self@.insert(sq),
    {
        let r = self.or(Bitboard::from_square(sq));
        assert(r@ =~= self@.insert(sq));
        r
    }

    /// This set with `sq` taken out if it is in, and added if it is not.
    pub fn toggled(self, sq: Square) -> (r: Bitboard)
        ensures
            r@ == if self@.contains(sq) {
                self@.remove(sq)
            } else {
                self@.insert(sq)
            },
    {
        let r = self.xor(Bitboard::from_square(sq));
        assert(r@ =~= if self@.contains(sq) {
            self@.remove(sq)
        } else {
            self@.insert(sq)
        });
        r
    }

    /// The square of lowest index in the set, if the set holds any.
    pub fn first(&self) -> (r: Option<Square>)
        ensures
            match r {
                Some(sq) => self@.contains(sq) && forall|s: Square| #[trigger]
                    self@.contains(s) ==> sq.spec_index() <= s.spec_index(),
                None => self@ == Set::<Square>::empty(),
            },
    {
        if self.is_zero() {
            return None;
        }
        proof {
            use_type_invariant(self);
        }
        let k = lowest_bit(self.bits);
        proof {
            if k >= 81 {
                lemma_limit_bits(self.bits, k as int);
            }
        }
        let r = Square::from_index(k as usize);
        proof {
            assert forall|s: Square| #[trigger] self@.contains(s) implies k <= s.spec_index() by {
                s.lemma_coords();
            }
        }
        r
    }

    /// Takes the square of lowest index out of the set and returns it.
    pub fn pop(&mut self) -> (r: Option<Square>)
        ensures
            match r {
                Some(sq) => old(self)@.contains(sq) && final(self)@ == old(self)@.remove(sq)
                    && forall|s: Square| #[trigger]
                    old(self)@.contains(s) ==> sq.spec_index() <= s.spec_index(),
                None => old(self)@ == Set::<Square>::empty() && *final(self) == *old(self),
            },
    {
        match self.first() {
            Some(sq) => {
                *self = self.toggled(sq);
                Some(sq)
            },
            None => None,
        }
    }

    /// How many squares the set holds.
    pub fn count_ones(&self) -> (n: u32)
        ensures
            n == self@.len(),
            n <= 81,
    {
        let mut rest = *self;
        let mut n: u32 = 0;
        proof {
            self.lemma_finite();
        }
        while !rest.is_empty()
            invariant
                rest@.finite(),
                self@.finite(),
                n + rest@.len() == self@.len(),
                self@.len() <= 81,
            decreases rest@.len(),
        {
            let ghost before = rest@;
            let popped = rest.pop();
            assert(popped.is_some());
            assert(before.contains(popped.unwrap()));
            n = n + 1;
        }
        n
    }

    /// Whether the set holds exactly one square.
    pub fn is_single(&self) -> (b: bool)
        ensures
            b == (self@.len() == 1),
            b == exists|sq: Square| self@ == set![sq],
    {
        let b = self.count_ones() == 1;
        proof {
            self.lemma_finite();
            if b {
                let sq = self@.choose();
                assert(self@.remove(sq).len() == 0);
                assert(self@ =~= set![sq]);
            } else {
                if exists|sq: Square| self@ == set![sq] {
                    let sq = choose|sq: Square| self@ == set![sq];
                    assert(set![sq].len() == 1);
                }
            }
        }
        b
    }

    /// A bitboard holds finitely many squares, at most 81.
    pub proof fn lemma_finite(self)
        ensures
            self@.finite(),
            self@.len() <= 81,
    {
        Square::lemma_finite(self@);
    }

    /// A bitboard other than the empty one holds a square.
    proof fn lemma_lowest(self) -> (sq: Square)
        requires
            self.bits != 0,
            self.bits < LIMIT,
        ensures
            self@.contains(sq),
    {
        let k = Self::lemma_some_bit(self.bits);
        if k >= 81 {
            lemma_limit_bits(self.bits, k);
        }
        let sq = Square::of_index(k);
        Square::lemma_at(k / 9, k % 9);
        sq
    }

    proof fn lemma_some_bit(x: u128) -> (k: int)
        requires
            x != 0,
        ensures
            0 <= k < 128,
            bit(x, k),
    {
        let lo = (x & 0xffff_ffff_ffff_ffff) as u64;
        let hi = (x >> 64) as u64;
        assert(x & 0xffff_ffff_ffff_ffff <= 0xffff_ffff_ffff_ffff && x >> 64
            <= 0xffff_ffff_ffff_ffff) by (bit_vector);
        if lo != 0 {
            let k = vstd::std_specs::bits::u64_trailing_zeros(lo);
            lemma_low_half(x, lo, k as u64);
            k as int
        } else {
            if hi == 0 {
                lemma_halves_zero(x);
            }
            let k = vstd::std_specs::bits::u64_trailing_zeros(hi);
            lemma_high_half(x, hi, k as u64);
            k + 64
        }
    }
}

} // verus!
