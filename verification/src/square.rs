//! The 81 squares of the board and their coordinates.

use vstd::prelude::*;
use vstd::set_lib::*;

verus! {

/// A square of the 9x9 board, named `SQ` + file + rank.
///
/// Files and ranks are numbered 1 to 9 in the names and 0 to 8 in
/// [`Square::file`] and [`Square::rank`]. Black's pieces start on ranks 7 to
/// 9 and advance towards rank 1.
#[derive(Clone, Copy, Debug, PartialEq, Eq, Hash, Structural)]
pub enum Square {
    SQ11,
    SQ12,
    SQ13,
    SQ14,
    SQ15,
    SQ16,
    SQ17,
    SQ18,
    SQ19,
    SQ21,
    SQ22,
    SQ23,
    SQ24,
    SQ25,
    SQ26,
    SQ27,
    SQ28,
    SQ29,
    SQ31,
    SQ32,
    SQ33,
    SQ34,
    SQ35,
    SQ36,
    SQ37,
    SQ38,
    SQ39,
    SQ41,
    SQ42,
    SQ43,
    SQ44,
    SQ45,
    SQ46,
    SQ47,
    SQ48,
    SQ49,
    SQ51,
    SQ52,
    SQ53,
    SQ54,
    SQ55,
    SQ56,
    SQ57,
    SQ58,
    SQ59,
    SQ61,
    SQ62,
    SQ63,
    SQ64,
    SQ65,
    SQ66,
    SQ67,
    SQ68,
    SQ69,
    SQ71,
    SQ72,
    SQ73,
    SQ74,
    SQ75,
    SQ76,
    SQ77,
    SQ78,
    SQ79,
    SQ81,
    SQ82,
    SQ83,
    SQ84,
    SQ85,
    SQ86,
    SQ87,
    SQ88,
    SQ89,
    SQ91,
    SQ92,
    SQ93,
    SQ94,
    SQ95,
    SQ96,
    SQ97,
    SQ98,
    SQ99,
}

impl Square {
    /// How many squares there are.
    pub const NUM: usize = 81;

    /// Every square, in index order: file by file, rank 1 first.
    pub const ALL: [Square; 81] = [
        Square::SQ11, Square::SQ12, Square::SQ13,
        Square::SQ14, Square::SQ15, Square::SQ16,
        Square::SQ17, Square::SQ18, Square::SQ19,
        Square::SQ21, Square::SQ22, Square::SQ23,
        Square::SQ24, Square::SQ25, Square::SQ26,
        Square::SQ27, Square::SQ28, Square::SQ29,
        Square::SQ31, Square::SQ32, Square::SQ33,
        Square::SQ34, Square::SQ35, Square::SQ36,
        Square::SQ37, Square::SQ38, Square::SQ39,
        Square::SQ41, Square::SQ42, Square::SQ43,
        Square::SQ44, Square::SQ45, Square::SQ46,
        Square::SQ47, Square::SQ48, Square::SQ49,
        Square::SQ51, Square::SQ52, Square::SQ53,
        Square::SQ54, Square::SQ55, Square::SQ56,
        Square::SQ57, Square::SQ58, Square::SQ59,
        Square::SQ61, Square::SQ62, Square::SQ63,
        Square::SQ64, Square::SQ65, Square::SQ66,
        Square::SQ67, Square::SQ68, Square::SQ69,
        Square::SQ71, Square::SQ72, Square::SQ73,
        Square::SQ74, Square::SQ75, Square::SQ76,
        Square::SQ77, Square::SQ78, Square::SQ79,
        Square::SQ81, Square::SQ82, Square::SQ83,
        Square::SQ84, Square::SQ85, Square::SQ86,
        Square::SQ87, Square::SQ88, Square::SQ89,
        Square::SQ91, Square::SQ92, Square::SQ93,
        Square::SQ94, Square::SQ95, Square::SQ96,
        Square::SQ97, Square::SQ98, Square::SQ99,
    ];

    /// Zero-based file of this square.
    pub open spec fn spec_file(self) -> u8 {
        match self {
            Square::SQ11
            | Square::SQ12
            | Square::SQ13
            | Square::SQ14
            | Square::SQ15
            | Square::SQ16
            | Square::SQ17
            | Square::SQ18
            | Square::SQ19 => 0,
            Square::SQ21
            | Square::SQ22
            | Square::SQ23
            | Square::SQ24
            | Square::SQ25
            | Square::SQ26
            | Square::SQ27
            | Square::SQ28
            | Square::SQ29 => 1,
            Square::SQ31
            | Square::SQ32
            | Square::SQ33
            | Square::SQ34
            | Square::SQ35
            | Square::SQ36
            | Square::SQ37
            | Square::SQ38
            | Square::SQ39 => 2,
            Square::SQ41
            | Square::SQ42
            | Square::SQ43
            | Square::SQ44
            | Square::SQ45
            | Square::SQ46
            | Square::SQ47
            | Square::SQ48
            | Square::SQ49 => 3,
            Square::SQ51
            | Square::SQ52
            | Square::SQ53
            | Square::SQ54
            | Square::SQ55
            | Square::SQ56
            | Square::SQ57
            | Square::SQ58
            | Square::SQ59 => 4,
            Square::SQ61
            | Square::SQ62
            | Square::SQ63
            | Square::SQ64
            | Square::SQ65
            | Square::SQ66
            | Square::SQ67
            | Square::SQ68
            | Square::SQ69 => 5,
            Square::SQ71
            | Square::SQ72
            | Square::SQ73
            | Square::SQ74
            | Square::SQ75
            | Square::SQ76
            | Square::SQ77
            | Square::SQ78
            | Square::SQ79 => 6,
            Square::SQ81
            | Square::SQ82
            | Square::SQ83
            | Square::SQ84
            | Square::SQ85
            | Square::SQ86
            | Square::SQ87
            | Square::SQ88
            | Square::SQ89 => 7,
            Square::SQ91
            | Square::SQ92
            | Square::SQ93
            | Square::SQ94
            | Square::SQ95
            | Square::SQ96
            | Square::SQ97
            | Square::SQ98
            | Square::SQ99 => 8,
        }
    }

    /// Zero-based file of this square.
    #[verifier::when_used_as_spec(spec_file)]
    pub fn file(self) -> (f: u8)
        ensures
            f == self.spec_file(),
            f < 9,
    {
        match self {
            Square::SQ11
            | Square::SQ12
            | Square::SQ13
            | Square::SQ14
            | Square::SQ15
            | Square::SQ16
            | Square::SQ17
            | Square::SQ18
            | Square::SQ19 => 0,
            Square::SQ21
            | Square::SQ22
            | Square::SQ23
            | Square::SQ24
            | Square::SQ25
            | Square::SQ26
            | Square::SQ27
            | Square::SQ28
            | Square::SQ29 => 1,
            Square::SQ31
            | Square::SQ32
            | Square::SQ33
            | Square::SQ34
            | Square::SQ35
            | Square::SQ36
            | Square::SQ37
            | Square::SQ38
            | Square::SQ39 => 2,
            Square::SQ41
            | Square::SQ42
            | Square::SQ43
            | Square::SQ44
            | Square::SQ45
            | Square::SQ46
            | Square::SQ47
            | Square::SQ48
            | Square::SQ49 => 3,
            Square::SQ51
            | Square::SQ52
            | Square::SQ53
            | Square::SQ54
            | Square::SQ55
            | Square::SQ56
            | Square::SQ57
            | Square::SQ58
            | Square::SQ59 => 4,
            Square::SQ61
            | Square::SQ62
            | Square::SQ63
            | Square::SQ64
            | Square::SQ65
            | Square::SQ66
            | Square::SQ67
            | Square::SQ68
            | Square::SQ69 => 5,
            Square::SQ71
            | Square::SQ72
            | Square::SQ73
            | Square::SQ74
            | Square::SQ75
            | Square::SQ76
            | Square::SQ77
            | Square::SQ78
            | Square::SQ79 => 6,
            Square::SQ81
            | Square::SQ82
            | Square::SQ83
            | Square::SQ84
            | Square::SQ85
            | Square::SQ86
            | Square::SQ87
            | Square::SQ88
            | Square::SQ89 => 7,
            Square::SQ91
            | Square::SQ92
            | Square::SQ93
            | Square::SQ94
            | Square::SQ95
            | Square::SQ96
            | Square::SQ97
            | Square::SQ98
            | Square::SQ99 => 8,
        }
    }

    /// Zero-based rank of this square.
    pub open spec fn spec_rank(self) -> u8 {
        match self {
            Square::SQ11
            | Square::SQ21
            | Square::SQ31
            | Square::SQ41
            | Square::SQ51
            | Square::SQ61
            | Square::SQ71
            | Square::SQ81
            | Square::SQ91 => 0,
            Square::SQ12
            | Square::SQ22
            | Square::SQ32
            | Square::SQ42
            | Square::SQ52
            | Square::SQ62
            | Square::SQ72
            | Square::SQ82
            | Square::SQ92 => 1,
            Square::SQ13
            | Square::SQ23
            | Square::SQ33
            | Square::SQ43
            | Square::SQ53
            | Square::SQ63
            | Square::SQ73
            | Square::SQ83
            | Square::SQ93 => 2,
            Square::SQ14
            | Square::SQ24
            | Square::SQ34
            | Square::SQ44
            | Square::SQ54
            | Square::SQ64
            | Square::SQ74
            | Square::SQ84
            | Square::SQ94 => 3,
            Square::SQ15
            | Square::SQ25
            | Square::SQ35
            | Square::SQ45
            | Square::SQ55
            | Square::SQ65
            | Square::SQ75
            | Square::SQ85
            | Square::SQ95 => 4,
            Square::SQ16
            | Square::SQ26
            | Square::SQ36
            | Square::SQ46
            | Square::SQ56
            | Square::SQ66
            | Square::SQ76
            | Square::SQ86
            | Square::SQ96 => 5,
            Square::SQ17
            | Square::SQ27
            | Square::SQ37
            | Square::SQ47
            | Square::SQ57
            | Square::SQ67
            | Square::SQ77
            | Square::SQ87
            | Square::SQ97 => 6,
            Square::SQ18
            | Square::SQ28
            | Square::SQ38
            | Square::SQ48
            | Square::SQ58
            | Square::SQ68
            | Square::SQ78
            | Square::SQ88
            | Square::SQ98 => 7,
            Square::SQ19
            | Square::SQ29
            | Square::SQ39
            | Square::SQ49
            | Square::SQ59
            | Square::SQ69
            | Square::SQ79
            | Square::SQ89
            | Square::SQ99 => 8,
        }
    }

    /// Zero-based rank of this square.
    #[verifier::when_used_as_spec(spec_rank)]
    pub fn rank(self) -> (r: u8)
        ensures
            r == self.spec_rank(),
            r < 9,
    {
        match self {
            Square::SQ11
            | Square::SQ21
            | Square::SQ31
            | Square::SQ41
            | Square::SQ51
            | Square::SQ61
            | Square::SQ71
            | Square::SQ81
            | Square::SQ91 => 0,
            Square::SQ12
            | Square::SQ22
            | Square::SQ32
            | Square::SQ42
            | Square::SQ52
            | Square::SQ62
            | Square::SQ72
            | Square::SQ82
            | Square::SQ92 => 1,
            Square::SQ13
            | Square::SQ23
            | Square::SQ33
            | Square::SQ43
            | Square::SQ53
            | Square::SQ63
            | Square::SQ73
            | Square::SQ83
            | Square::SQ93 => 2,
            Square::SQ14
            | Square::SQ24
            | Square::SQ34
            | Square::SQ44
            | Square::SQ54
            | Square::SQ64
            | Square::SQ74
            | Square::SQ84
            | Square::SQ94 => 3,
            Square::SQ15
            | Square::SQ25
            | Square::SQ35
            | Square::SQ45
            | Square::SQ55
            | Square::SQ65
            | Square::SQ75
            | Square::SQ85
            | Square::SQ95 => 4,
            Square::SQ16
            | Square::SQ26
            | Square::SQ36
            | Square::SQ46
            | Square::SQ56
            | Square::SQ66
            | Square::SQ76
            | Square::SQ86
            | Square::SQ96 => 5,
            Square::SQ17
            | Square::SQ27
            | Square::SQ37
            | Square::SQ47
            | Square::SQ57
            | Square::SQ67
            | Square::SQ77
            | Square::SQ87
            | Square::SQ97 => 6,
            Square::SQ18
            | Square::SQ28
            | Square::SQ38
            | Square::SQ48
            | Square::SQ58
            | Square::SQ68
            | Square::SQ78
            | Square::SQ88
            | Square::SQ98 => 7,
            Square::SQ19
            | Square::SQ29
            | Square::SQ39
            | Square::SQ49
            | Square::SQ59
            | Square::SQ69
            | Square::SQ79
            | Square::SQ89
            | Square::SQ99 => 8,
        }
    }

    /// Position of this square in [`Square::ALL`]: nine times the file plus
    /// the rank.
    pub open spec fn spec_index(self) -> usize {
        (self.spec_file() * 9 + self.spec_rank()) as usize
    }

    /// Position of this square in [`Square::ALL`]: nine times the file plus
    /// the rank.
    #[verifier::when_used_as_spec(spec_index)]
    pub fn index(self) -> (i: usize)
        ensures
            i == self.spec_index(),
            i < 81,
    {
        let f: usize = self.file() as usize;
        let r: usize = self.rank() as usize;
        f * 9 + r
    }

    /// The square with index `i`; indices off the board give `SQ99`.
    pub open spec fn of_index(i: int) -> Square {
        if i == 0 {
            Square::SQ11
        } else if i == 1 {
            Square::SQ12
        } else if i == 2 {
            Square::SQ13
        } else if i == 3 {
            Square::SQ14
        } else if i == 4 {
            Square::SQ15
        } else if i == 5 {
            Square::SQ16
        } else if i == 6 {
            Square::SQ17
        } else if i == 7 {
            Square::SQ18
        } else if i == 8 {
            Square::SQ19
        } else if i == 9 {
            Square::SQ21
        } else if i == 10 {
            Square::SQ22
        } else if i == 11 {
            Square::SQ23
        } else if i == 12 {
            Square::SQ24
        } else if i == 13 {
            Square::SQ25
        } else if i == 14 {
            Square::SQ26
        } else if i == 15 {
            Square::SQ27
        } else if i == 16 {
            Square::SQ28
        } else if i == 17 {
            Square::SQ29
        } else if i == 18 {
            Square::SQ31
        } else if i == 19 {
            Square::SQ32
        } else if i == 20 {
            Square::SQ33
        } else if i == 21 {
            Square::SQ34
        } else if i == 22 {
            Square::SQ35
        } else if i == 23 {
            Square::SQ36
        } else if i == 24 {
            Square::SQ37
        } else if i == 25 {
            Square::SQ38
        } else if i == 26 {
            Square::SQ39
        } else if i == 27 {
            Square::SQ41
        } else if i == 28 {
            Square::SQ42
        } else if i == 29 {
            Square::SQ43
        } else if i == 30 {
            Square::SQ44
        } else if i == 31 {
            Square::SQ45
        } else if i == 32 {
            Square::SQ46
        } else if i == 33 {
            Square::SQ47
        } else if i == 34 {
            Square::SQ48
        } else if i == 35 {
            Square::SQ49
        } else if i == 36 {
            Square::SQ51
        } else if i == 37 {
            Square::SQ52
        } else if i == 38 {
            Square::SQ53
        } else if i == 39 {
            Square::SQ54
        } else if i == 40 {
            Square::SQ55
        } else if i == 41 {
            Square::SQ56
        } else if i == 42 {
            Square::SQ57
        } else if i == 43 {
            Square::SQ58
        } else if i == 44 {
            Square::SQ59
        } else if i == 45 {
            Square::SQ61
        } else if i == 46 {
            Square::SQ62
        } else if i == 47 {
            Square::SQ63
        } else if i == 48 {
            Square::SQ64
        } else if i == 49 {
            Square::SQ65
        } else if i == 50 {
            Square::SQ66
        } else if i == 51 {
            Square::SQ67
        } else if i == 52 {
            Square::SQ68
        } else if i == 53 {
            Square::SQ69
        } else if i == 54 {
            Square::SQ71
        } else if i == 55 {
            Square::SQ72
        } else if i == 56 {
            Square::SQ73
        } else if i == 57 {
            Square::SQ74
        } else if i == 58 {
            Square::SQ75
        } else if i == 59 {
            Square::SQ76
        } else if i == 60 {
            Square::SQ77
        } else if i == 61 {
            Square::SQ78
        } else if i == 62 {
            Square::SQ79
        } else if i == 63 {
            Square::SQ81
        } else if i == 64 {
            Square::SQ82
        } else if i == 65 {
            Square::SQ83
        } else if i == 66 {
            Square::SQ84
        } else if i == 67 {
            Square::SQ85
        } else if i == 68 {
            Square::SQ86
        } else if i == 69 {
            Square::SQ87
        } else if i == 70 {
            Square::SQ88
        } else if i == 71 {
            Square::SQ89
        } else if i == 72 {
            Square::SQ91
        } else if i == 73 {
            Square::SQ92
        } else if i == 74 {
            Square::SQ93
        } else if i == 75 {
            Square::SQ94
        } else if i == 76 {
            Square::SQ95
        } else if i == 77 {
            Square::SQ96
        } else if i == 78 {
            Square::SQ97
        } else if i == 79 {
            Square::SQ98
        } else {
            Square::SQ99
        }
    }

    /// The square on the given zero-based file and rank.
    pub open spec fn at(file: int, rank: int) -> Square {
        Square::of_index(file * 9 + rank)
    }

    /// Whether the given coordinates lie on the board.
    pub open spec fn on_board(file: int, rank: int) -> bool {
        0 <= file < 9 && 0 <= rank < 9
    }

    /// The square with index `i`, if `i` is below 81.
    pub fn from_index(i: usize) -> (r: Option<Square>)
        ensures
            match r {
                Some(sq) => i < 81 && sq == Square::of_index(i as int) && sq.spec_index() == i,
                None => i >= 81,
            },
    {
        match i {
            0 => Some(Square::SQ11),
            1 => Some(Square::SQ12),
            2 => Some(Square::SQ13),
            3 => Some(Square::SQ14),
            4 => Some(Square::SQ15),
            5 => Some(Square::SQ16),
            6 => Some(Square::SQ17),
            7 => Some(Square::SQ18),
            8 => Some(Square::SQ19),
            9 => Some(Square::SQ21),
            10 => Some(Square::SQ22),
            11 => Some(Square::SQ23),
            12 => Some(Square::SQ24),
            13 => Some(Square::SQ25),
            14 => Some(Square::SQ26),
            15 => Some(Square::SQ27),
            16 => Some(Square::SQ28),
            17 => Some(Square::SQ29),
            18 => Some(Square::SQ31),
            19 => Some(Square::SQ32),
            20 => Some(Square::SQ33),
            21 => Some(Square::SQ34),
            22 => Some(Square::SQ35),
            23 => Some(Square::SQ36),
            24 => Some(Square::SQ37),
            25 => Some(Square::SQ38),
            26 => Some(Square::SQ39),
            27 => Some(Square::SQ41),
            28 => Some(Square::SQ42),
            29 => Some(Square::SQ43),
            30 => Some(Square::SQ44),
            31 => Some(Square::SQ45),
            32 => Some(Square::SQ46),
            33 => Some(Square::SQ47),
            34 => Some(Square::SQ48),
            35 => Some(Square::SQ49),
            36 => Some(Square::SQ51),
            37 => Some(Square::SQ52),
            38 => Some(Square::SQ53),
            39 => Some(Square::SQ54),
            40 => Some(Square::SQ55),
            41 => Some(Square::SQ56),
            42 => Some(Square::SQ57),
            43 => Some(Square::SQ58),
            44 => Some(Square::SQ59),
            45 => Some(Square::SQ61),
            46 => Some(Square::SQ62),
            47 => Some(Square::SQ63),
            48 => Some(Square::SQ64),
            49 => Some(Square::SQ65),
            50 => Some(Square::SQ66),
            51 => Some(Square::SQ67),
            52 => Some(Square::SQ68),
            53 => Some(Square::SQ69),
            54 => Some(Square::SQ71),
            55 => Some(Square::SQ72),
            56 => Some(Square::SQ73),
            57 => Some(Square::SQ74),
            58 => Some(Square::SQ75),
            59 => Some(Square::SQ76),
            60 => Some(Square::SQ77),
            61 => Some(Square::SQ78),
            62 => Some(Square::SQ79),
            63 => Some(Square::SQ81),
            64 => Some(Square::SQ82),
            65 => Some(Square::SQ83),
            66 => Some(Square::SQ84),
            67 => Some(Square::SQ85),
            68 => Some(Square::SQ86),
            69 => Some(Square::SQ87),
            70 => Some(Square::SQ88),
            71 => Some(Square::SQ89),
            72 => Some(Square::SQ91),
            73 => Some(Square::SQ92),
            74 => Some(Square::SQ93),
            75 => Some(Square::SQ94),
            76 => Some(Square::SQ95),
            77 => Some(Square::SQ96),
            78 => Some(Square::SQ97),
            79 => Some(Square::SQ98),
            80 => Some(Square::SQ99),
            _ => None,
        }
    }

    /// The square on the given zero-based file and rank, if both are below 9.
    pub fn new(file: u8, rank: u8) -> (r: Option<Square>)
        ensures
            match r {
                Some(sq) => Square::on_board(file as int, rank as int) && sq == Square::at(
                    file as int,
                    rank as int,
                ) && sq.spec_file() == file && sq.spec_rank() == rank,
                None => !Square::on_board(file as int, rank as int),
            },
    {
        if file < 9 && rank < 9 {
            let f: usize = file as usize;
            let r: usize = rank as usize;
            Square::from_index(f * 9 + r)
        } else {
            None
        }
    }

    /// The square `df` files and `dr` ranks away from this one, if that is
    /// on the board.
    pub fn offset(self, df: i8, dr: i8) -> (r: Option<Square>)
        ensures
            match r {
                Some(sq) => sq.spec_file() == self.spec_file() + df && sq.spec_rank()
                    == self.spec_rank() + dr,
                None => !Square::on_board(self.spec_file() + df, self.spec_rank() + dr),
            },
    {
        let f: i16 = self.file() as i16 + df as i16;
        let r: i16 = self.rank() as i16 + dr as i16;
        if 0 <= f && f < 9 && 0 <= r && r < 9 {
            Square::new(f as u8, r as u8)
        } else {
            None
        }
    }

    /// Coordinates stay on the board and name their square.
    pub proof fn lemma_coords(self)
        ensures
            self.spec_file() < 9,
            self.spec_rank() < 9,
            self.spec_index() < 81,
            Square::of_index(self.spec_index() as int) == self,
            Square::at(self.spec_file() as int, self.spec_rank() as int) == self,
    {
    }

    /// On the board, `at` has the coordinates it was given.
    pub proof fn lemma_at(file: int, rank: int)
        requires
            Square::on_board(file, rank),
        ensures
            Square::at(file, rank).spec_file() == file,
            Square::at(file, rank).spec_rank() == rank,
            Square::at(file, rank).spec_index() == file * 9 + rank,
    {
    }

    /// Two squares with the same coordinates are the same square.
    pub proof fn lemma_same_coords(self, other: Square)
        requires
            self.spec_file() == other.spec_file(),
            self.spec_rank() == other.spec_rank(),
        ensures
            self == other,
    {
        self.lemma_coords();
        other.lemma_coords();
    }

    /// Any set of squares is finite, with at most 81 members.
    pub proof fn lemma_finite(s: Set<Square>)
        ensures
            s.finite(),
            s.len() <= 81,
    {
        let indices = set_int_range(0, 81);
        let f = |i: int| Square::of_index(i);
        let all = indices.map(f);
        lemma_int_range(0, 81);
        lemma_map_size_bound(indices, all, f);
        assert forall|sq: Square| s.contains(sq) implies all.contains(sq) by {
            sq.lemma_coords();
            assert(indices.contains(sq.spec_index() as int));
            assert(f(sq.spec_index() as int) == sq);
        }
        lemma_len_subset(s, all);
    }

    /// Two squares with the same index are the same square.
    pub proof fn lemma_same_index(self, other: Square)
        requires
            self.spec_index() == other.spec_index(),
        ensures
            self == other,
    {
        self.lemma_coords();
        other.lemma_coords();
    }
}

} // verus!
