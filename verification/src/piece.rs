//! Piece types and colored pieces.

use crate::color::Color;
use vstd::prelude::*;

verus! {

/// The fourteen kinds of piece, named by their two-letter codes.
///
/// The first eight are the unpromoted kinds; `TO`, `NY`, `NK`, `NG`, `UM`,
/// `RY` are the promoted forms of `FU`, `KY`, `KE`, `GI`, `KA`, `HI`.
#[derive(Clone, Copy, Debug, PartialEq, Eq, Hash, Structural)]
pub enum PieceType {
    FU,
    KY,
    KE,
    GI,
    KI,
    KA,
    HI,
    OU,
    TO,
    NY,
    NK,
    NG,
    UM,
    RY,
}

impl PieceType {
    /// How many piece types there are.
    pub const NUM: usize = 14;

    /// How many piece types can be held in hand.
    pub const NUM_HAND: usize = 7;

    /// Every piece type, in index order.
    pub const ALL: [PieceType; 14] = [
        PieceType::FU,
        PieceType::KY,
        PieceType::KE,
        PieceType::GI,
        PieceType::KI,
        PieceType::KA,
        PieceType::HI,
        PieceType::OU,
        PieceType::TO,
        PieceType::NY,
        PieceType::NK,
        PieceType::NG,
        PieceType::UM,
        PieceType::RY,
    ];

    /// The piece types that can be held in hand, in hand order.
    pub const ALL_HAND: [PieceType; 7] = [
        PieceType::FU,
        PieceType::KY,
        PieceType::KE,
        PieceType::GI,
        PieceType::KI,
        PieceType::KA,
        PieceType::HI,
    ];

    /// Position of this type in [`PieceType::ALL`].
    pub open spec fn spec_index(self) -> usize {
        match self {
            PieceType::FU => 0,
            PieceType::KY => 1,
            PieceType::KE => 2,
            PieceType::GI => 3,
            PieceType::KI => 4,
            PieceType::KA => 5,
            PieceType::HI => 6,
            PieceType::OU => 7,
            PieceType::TO => 8,
            PieceType::NY => 9,
            PieceType::NK => 10,
            PieceType::NG => 11,
            PieceType::UM => 12,
            PieceType::RY => 13,
        }
    }

    /// Position of this type in [`PieceType::ALL`].
    #[verifier::when_used_as_spec(spec_index)]
    pub fn index(self) -> (i: usize)
        ensures
            i == self.spec_index(),
            i < 14,
    {
        match self {
            PieceType::FU => 0,
            PieceType::KY => 1,
            PieceType::KE => 2,
            PieceType::GI => 3,
            PieceType::KI => 4,
            PieceType::KA => 5,
            PieceType::HI => 6,
            PieceType::OU => 7,
            PieceType::TO => 8,
            PieceType::NY => 9,
            PieceType::NK => 10,
            PieceType::NG => 11,
            PieceType::UM => 12,
            PieceType::RY => 13,
        }
    }

    /// The unpromoted type this one reverts to when captured.
    pub open spec fn spec_demoted(self) -> PieceType {
        match self {
            PieceType::TO => PieceType::FU,
            PieceType::NY => PieceType::KY,
            PieceType::NK => PieceType::KE,
            PieceType::NG => PieceType::GI,
            PieceType::UM => PieceType::KA,
            PieceType::RY => PieceType::HI,
            _ => self,
        }
    }

    /// The unpromoted type this one reverts to when captured.
    #[verifier::when_used_as_spec(spec_demoted)]
    pub fn demoted(self) -> (pt: PieceType)
        ensures
            pt == self.spec_demoted(),
    {
        match self {
            PieceType::TO => PieceType::FU,
            PieceType::NY => PieceType::KY,
            PieceType::NK => PieceType::KE,
            PieceType::NG => PieceType::GI,
            PieceType::UM => PieceType::KA,
            PieceType::RY => PieceType::HI,
            _ => self,
        }
    }

    /// The promoted form of this type; a type that has none is returned
    /// unchanged.
    pub open spec fn spec_promoted(self) -> PieceType {
        match self {
            PieceType::FU => PieceType::TO,
            PieceType::KY => PieceType::NY,
            PieceType::KE => PieceType::NK,
            PieceType::GI => PieceType::NG,
            PieceType::KA => PieceType::UM,
            PieceType::HI => PieceType::RY,
            _ => self,
        }
    }

    /// The promoted form of this type; a type that has none is returned
    /// unchanged.
    #[verifier::when_used_as_spec(spec_promoted)]
    pub fn promoted(self) -> (pt: PieceType)
        ensures
            pt == self.spec_promoted(),
    {
        match self {
            PieceType::FU => PieceType::TO,
            PieceType::KY => PieceType::NY,
            PieceType::KE => PieceType::NK,
            PieceType::GI => PieceType::NG,
            PieceType::KA => PieceType::UM,
            PieceType::HI => PieceType::RY,
            _ => self,
        }
    }

    /// Whether this type has a promoted form.
    pub open spec fn spec_is_promotable(self) -> bool {
        self.spec_promoted() != self
    }

    /// Whether this type has a promoted form.
    #[verifier::when_used_as_spec(spec_is_promotable)]
    pub fn is_promotable(self) -> (b: bool)
        ensures
            b == self.spec_is_promotable(),
    {
        match self {
            PieceType::FU
            | PieceType::KY
            | PieceType::KE
            | PieceType::GI
            | PieceType::KA
            | PieceType::HI => true,
            _ => false,
        }
    }

    /// Slot of this type in a hand: promoted types share the slot of the
    /// type they revert to, and the king has none.
    pub open spec fn spec_hand_index(self) -> Option<int> {
        match self.spec_demoted() {
            PieceType::FU => Some(0),
            PieceType::KY => Some(1),
            PieceType::KE => Some(2),
            PieceType::GI => Some(3),
            PieceType::KI => Some(4),
            PieceType::KA => Some(5),
            PieceType::HI => Some(6),
            _ => None,
        }
    }

    /// Slot of this type in a hand: promoted types share the slot of the
    /// type they revert to, and the king has none.
    pub fn hand_index(self) -> (i: Option<usize>)
        ensures
            match i {
                Some(k) => self.spec_hand_index() == Some(k as int) && k < 7,
                None => self.spec_hand_index().is_none(),
            },
    {
        match self.demoted() {
            PieceType::FU => Some(0),
            PieceType::KY => Some(1),
            PieceType::KE => Some(2),
            PieceType::GI => Some(3),
            PieceType::KI => Some(4),
            PieceType::KA => Some(5),
            PieceType::HI => Some(6),
            _ => None,
        }
    }

    /// The type that occupies hand slot `i`.
    pub open spec fn of_hand_index(i: int) -> PieceType {
        if i == 0 {
            PieceType::FU
        } else if i == 1 {
            PieceType::KY
        } else if i == 2 {
            PieceType::KE
        } else if i == 3 {
            PieceType::GI
        } else if i == 4 {
            PieceType::KI
        } else if i == 5 {
            PieceType::KA
        } else {
            PieceType::HI
        }
    }

    /// Whether this is one of the seven types a hand can hold.
    pub open spec fn is_hand_type(self) -> bool {
        self.spec_hand_index().is_some() && self.spec_demoted() == self
    }

    /// The two-letter code of this type.
    pub open spec fn code(self) -> Seq<char> {
        match self {
            PieceType::FU => seq!['F', 'U'],
            PieceType::KY => seq!['K', 'Y'],
            PieceType::KE => seq!['K', 'E'],
            PieceType::GI => seq!['G', 'I'],
            PieceType::KI => seq!['K', 'I'],
            PieceType::KA => seq!['K', 'A'],
            PieceType::HI => seq!['H', 'I'],
            PieceType::OU => seq!['O', 'U'],
            PieceType::TO => seq!['T', 'O'],
            PieceType::NY => seq!['N', 'Y'],
            PieceType::NK => seq!['N', 'K'],
            PieceType::NG => seq!['N', 'G'],
            PieceType::UM => seq!['U', 'M'],
            PieceType::RY => seq!['R', 'Y'],
        }
    }

    /// The two-letter code of this type.
    pub fn name(self) -> (s: &'static str)
        ensures
            s@ == self.code(),
    {
        proof {
            reveal_strlit("FU");
            reveal_strlit("KY");
            reveal_strlit("KE");
            reveal_strlit("GI");
            reveal_strlit("KI");
            reveal_strlit("KA");
            reveal_strlit("HI");
            reveal_strlit("OU");
            reveal_strlit("TO");
            reveal_strlit("NY");
            reveal_strlit("NK");
            reveal_strlit("NG");
            reveal_strlit("UM");
            reveal_strlit("RY");
        }
        let s = match self {
            PieceType::FU => "FU",
            PieceType::KY => "KY",
            PieceType::KE => "KE",
            PieceType::GI => "GI",
            PieceType::KI => "KI",
            PieceType::KA => "KA",
            PieceType::HI => "HI",
            PieceType::OU => "OU",
            PieceType::TO => "TO",
            PieceType::NY => "NY",
            PieceType::NK => "NK",
            PieceType::NG => "NG",
            PieceType::UM => "UM",
            PieceType::RY => "RY",
        };
        assert(s@ =~= self.code());
        s
    }
}

/// What a square holds: nothing (`EMP`), or a piece of one color and type.
///
/// `B` and `W` prefix the pieces of Black and White.
#[derive(Clone, Copy, Debug, PartialEq, Eq, Hash, Structural)]
pub enum Piece {
    EMP,
    BFU,
    BKY,
    BKE,
    BGI,
    BKI,
    BKA,
    BHI,
    BOU,
    BTO,
    BNY,
    BNK,
    BNG,
    BUM,
    BRY,
    WFU,
    WKY,
    WKE,
    WGI,
    WKI,
    WKA,
    WHI,
    WOU,
    WTO,
    WNY,
    WNK,
    WNG,
    WUM,
    WRY,
}

impl Piece {
    /// The piece of the given color and type.
    pub open spec fn spec_new(c: Color, pt: PieceType) -> Piece {
        match c {
            Color::Black => match pt {
                PieceType::FU => Piece::BFU,
                PieceType::KY => Piece::BKY,
                PieceType::KE => Piece::BKE,
                PieceType::GI => Piece::BGI,
                PieceType::KI => Piece::BKI,
                PieceType::KA => Piece::BKA,
                PieceType::HI => Piece::BHI,
                PieceType::OU => Piece::BOU,
                PieceType::TO => Piece::BTO,
                PieceType::NY => Piece::BNY,
                PieceType::NK => Piece::BNK,
                PieceType::NG => Piece::BNG,
                PieceType::UM => Piece::BUM,
                PieceType::RY => Piece::BRY,
            },
            Color::White => match pt {
                PieceType::FU => Piece::WFU,
                PieceType::KY => Piece::WKY,
                PieceType::KE => Piece::WKE,
                PieceType::GI => Piece::WGI,
                PieceType::KI => Piece::WKI,
                PieceType::KA => Piece::WKA,
                PieceType::HI => Piece::WHI,
                PieceType::OU => Piece::WOU,
                PieceType::TO => Piece::WTO,
                PieceType::NY => Piece::WNY,
                PieceType::NK => Piece::WNK,
                PieceType::NG => Piece::WNG,
                PieceType::UM => Piece::WUM,
                PieceType::RY => Piece::WRY,
            },
        }
    }

    /// The piece of the given color and type.
    #[verifier::when_used_as_spec(spec_new)]
    pub fn new(c: Color, pt: PieceType) -> (p: Piece)
        ensures
            p == Piece::spec_new(c, pt),
            p.spec_color() == Some(c),
            p.spec_piece_type() == Some(pt),
    {
        match c {
            Color::Black => match pt {
                PieceType::FU => Piece::BFU,
                PieceType::KY => Piece::BKY,
                PieceType::KE => Piece::BKE,
                PieceType::GI => Piece::BGI,
                PieceType::KI => Piece::BKI,
                PieceType::KA => Piece::BKA,
                PieceType::HI => Piece::BHI,
                PieceType::OU => Piece::BOU,
                PieceType::TO => Piece::BTO,
                PieceType::NY => Piece::BNY,
                PieceType::NK => Piece::BNK,
                PieceType::NG => Piece::BNG,
                PieceType::UM => Piece::BUM,
                PieceType::RY => Piece::BRY,
            },
            Color::White => match pt {
                PieceType::FU => Piece::WFU,
                PieceType::KY => Piece::WKY,
                PieceType::KE => Piece::WKE,
                PieceType::GI => Piece::WGI,
                PieceType::KI => Piece::WKI,
                PieceType::KA => Piece::WKA,
                PieceType::HI => Piece::WHI,
                PieceType::OU => Piece::WOU,
                PieceType::TO => Piece::WTO,
                PieceType::NY => Piece::WNY,
                PieceType::NK => Piece::WNK,
                PieceType::NG => Piece::WNG,
                PieceType::UM => Piece::WUM,
                PieceType::RY => Piece::WRY,
            },
        }
    }

    /// The side this piece belongs to; `None` for the empty square.
    pub open spec fn spec_color(self) -> Option<Color> {
        match self {
            Piece::EMP => None,
            Piece::BFU
            | Piece::BKY
            | Piece::BKE
            | Piece::BGI
            | Piece::BKI
            | Piece::BKA
            | Piece::BHI
            | Piece::BOU
            | Piece::BTO
            | Piece::BNY
            | Piece::BNK
            | Piece::BNG
            | Piece::BUM
            | Piece::BRY => Some(Color::Black),
            _ => Some(Color::White),
        }
    }

    /// The side this piece belongs to; `None` for the empty square.
    #[verifier::when_used_as_spec(spec_color)]
    pub fn color(self) -> (c: Option<Color>)
        ensures
            c == self.spec_color(),
    {
        match self {
            Piece::EMP => None,
            Piece::BFU
            | Piece::BKY
            | Piece::BKE
            | Piece::BGI
            | Piece::BKI
            | Piece::BKA
            | Piece::BHI
            | Piece::BOU
            | Piece::BTO
            | Piece::BNY
            | Piece::BNK
            | Piece::BNG
            | Piece::BUM
            | Piece::BRY => Some(Color::Black),
            _ => Some(Color::White),
        }
    }

    /// The type of this piece; `None` for the empty square.
    pub open spec fn spec_piece_type(self) -> Option<PieceType> {
        match self {
            Piece::EMP => None,
            Piece::BFU | Piece::WFU => Some(PieceType::FU),
            Piece::BKY | Piece::WKY => Some(PieceType::KY),
            Piece::BKE | Piece::WKE => Some(PieceType::KE),
            Piece::BGI | Piece::WGI => Some(PieceType::GI),
            Piece::BKI | Piece::WKI => Some(PieceType::KI),
            Piece::BKA | Piece::WKA => Some(PieceType::KA),
            Piece::BHI | Piece::WHI => Some(PieceType::HI),
            Piece::BOU | Piece::WOU => Some(PieceType::OU),
            Piece::BTO | Piece::WTO => Some(PieceType::TO),
            Piece::BNY | Piece::WNY => Some(PieceType::NY),
            Piece::BNK | Piece::WNK => Some(PieceType::NK),
            Piece::BNG | Piece::WNG => Some(PieceType::NG),
            Piece::BUM | Piece::WUM => Some(PieceType::UM),
            Piece::BRY | Piece::WRY => Some(PieceType::RY),
        }
    }

    /// The type of this piece; `None` for the empty square.
    #[verifier::when_used_as_spec(spec_piece_type)]
    pub fn piece_type(self) -> (pt: Option<PieceType>)
        ensures
            pt == self.spec_piece_type(),
    {
        match self {
            Piece::EMP => None,
            Piece::BFU | Piece::WFU => Some(PieceType::FU),
            Piece::BKY | Piece::WKY => Some(PieceType::KY),
            Piece::BKE | Piece::WKE => Some(PieceType::KE),
            Piece::BGI | Piece::WGI => Some(PieceType::GI),
            Piece::BKI | Piece::WKI => Some(PieceType::KI),
            Piece::BKA | Piece::WKA => Some(PieceType::KA),
            Piece::BHI | Piece::WHI => Some(PieceType::HI),
            Piece::BOU | Piece::WOU => Some(PieceType::OU),
            Piece::BTO | Piece::WTO => Some(PieceType::TO),
            Piece::BNY | Piece::WNY => Some(PieceType::NY),
            Piece::BNK | Piece::WNK => Some(PieceType::NK),
            Piece::BNG | Piece::WNG => Some(PieceType::NG),
            Piece::BUM | Piece::WUM => Some(PieceType::UM),
            Piece::BRY | Piece::WRY => Some(PieceType::RY),
        }
    }

    /// Whether this is the piece of color `c` and type `pt`.
    pub open spec fn is(self, c: Color, pt: PieceType) -> bool {
        self.spec_color() == Some(c) && self.spec_piece_type() == Some(pt)
    }

    /// The same piece with its type promoted; the empty square and pieces
    /// without a promoted form are returned unchanged.
    pub open spec fn spec_promoted(self) -> Piece {
        match (self.spec_color(), self.spec_piece_type()) {
            (Some(c), Some(pt)) => Piece::spec_new(c, pt.spec_promoted()),
            _ => self,
        }
    }

    /// The same piece with its type promoted; the empty square and pieces
    /// without a promoted form are returned unchanged.
    #[verifier::when_used_as_spec(spec_promoted)]
    pub fn promoted(self) -> (p: Piece)
        ensures
            p == self.spec_promoted(),
    {
        match (self.color(), self.piece_type()) {
            (Some(c), Some(pt)) => Piece::new(c, pt.promoted()),
            _ => self,
        }
    }

    /// The same piece with its type reverted to the unpromoted form.
    pub open spec fn spec_demoted(self) -> Piece {
        match (self.spec_color(), self.spec_piece_type()) {
            (Some(c), Some(pt)) => Piece::spec_new(c, pt.spec_demoted()),
            _ => self,
        }
    }

    /// The same piece with its type reverted to the unpromoted form.
    #[verifier::when_used_as_spec(spec_demoted)]
    pub fn demoted(self) -> (p: Piece)
        ensures
            p == self.spec_demoted(),
    {
        match (self.color(), self.piece_type()) {
            (Some(c), Some(pt)) => Piece::new(c, pt.demoted()),
            _ => self,
        }
    }

    /// Whether promoting changes this piece.
    pub open spec fn spec_is_promotable(self) -> bool {
        match self.spec_piece_type() {
            Some(pt) => pt.spec_is_promotable(),
            None => false,
        }
    }

    /// Whether promoting changes this piece.
    #[verifier::when_used_as_spec(spec_is_promotable)]
    pub fn is_promotable(self) -> (b: bool)
        ensures
            b == self.spec_is_promotable(),
    {
        match self.piece_type() {
            Some(pt) => pt.is_promotable(),
            None => false,
        }
    }

    /// A piece is determined by its color and type.
    pub proof fn lemma_new_of_parts(self)
        ensures
            match (self.spec_color(), self.spec_piece_type()) {
                (Some(c), Some(pt)) => self == Piece::spec_new(c, pt),
                (None, None) => self == Piece::EMP,
                _ => false,
            },
    {
    }

    /// Color and type of a constructed piece are the ones given.
    pub proof fn lemma_parts_of_new(c: Color, pt: PieceType)
        ensures
            Piece::spec_new(c, pt).spec_color() == Some(c),
            Piece::spec_new(c, pt).spec_piece_type() == Some(pt),
            Piece::spec_new(c, pt) != Piece::EMP,
    {
    }
}

} // verus!
