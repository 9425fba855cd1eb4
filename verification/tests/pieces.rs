use yasai::attacks::{attack, between, pseudo_attack};
use yasai::{Bitboard, Color, Hand, Move, Piece, PieceType, Square};

fn squares(mut bb: Bitboard) -> Vec<Square> {
    let mut v = Vec::new();
    while let Some(sq) = bb.pop() {
        v.push(sq);
    }
    v
}

fn board_of(list: &[Square]) -> Bitboard {
    let mut bb = Bitboard::empty();
    for &sq in list {
        bb = bb.with(sq);
    }
    bb
}

#[test]
fn square_coordinates() {
    assert_eq!(0, Square::SQ11.index());
    assert_eq!(60, Square::SQ77.index());
    assert_eq!(80, Square::SQ99.index());
    assert_eq!(6, Square::SQ77.file());
    assert_eq!(5, Square::SQ76.rank());
    for (i, sq) in Square::ALL.iter().enumerate() {
        assert_eq!(i, sq.index());
        assert_eq!(Some(*sq), Square::from_index(i));
        assert_eq!(Some(*sq), Square::new(sq.file(), sq.rank()));
    }
    assert_eq!(None, Square::from_index(81));
    assert_eq!(None, Square::new(9, 0));
    assert_eq!(None, Square::new(0, 9));
    assert_eq!(Some(Square::SQ22), Square::SQ11.offset(1, 1));
    assert_eq!(None, Square::SQ11.offset(-1, 0));
    assert_eq!(None, Square::SQ99.offset(0, 1));
}

#[test]
fn color_and_piece_parts() {
    assert_eq!(Color::White, Color::Black.opponent());
    assert_eq!(Color::Black, Color::White.opponent());
    assert_eq!(0, Color::Black.index());
    assert_eq!(1, Color::White.index());
    assert_eq!(None, Piece::EMP.color());
    assert_eq!(None, Piece::EMP.piece_type());
    for c in Color::ALL {
        for (i, pt) in PieceType::ALL.iter().enumerate() {
            let p = Piece::new(c, *pt);
            assert_eq!(Some(c), p.color());
            assert_eq!(Some(*pt), p.piece_type());
            assert_eq!(i, pt.index());
        }
    }
    assert_eq!(Piece::BUM, Piece::BKA.promoted());
    assert_eq!(Piece::WRY, Piece::WHI.promoted());
    assert_eq!(Piece::BKI, Piece::BKI.promoted());
    assert_eq!(Piece::WFU, Piece::WTO.demoted());
    assert_eq!(Piece::WOU, Piece::WOU.demoted());
    assert_eq!(Piece::EMP, Piece::EMP.promoted());
    assert!(Piece::BGI.is_promotable());
    assert!(!Piece::BNG.is_promotable());
    assert!(!Piece::EMP.is_promotable());
    assert_eq!("RY", PieceType::RY.name());
    assert_eq!(Some(0), PieceType::TO.hand_index());
    assert_eq!(Some(6), PieceType::RY.hand_index());
    assert_eq!(None, PieceType::OU.hand_index());
}

#[test]
fn hand_counts() {
    let mut hand = Hand::new();
    assert!(hand.is_empty());
    hand.increment(PieceType::FU);
    hand.increment(PieceType::TO);
    hand.increment(PieceType::HI);
    hand.increment(PieceType::OU);
    assert!(!hand.is_empty());
    assert_eq!(2, hand.num(PieceType::FU));
    assert_eq!(1, hand.num(PieceType::RY));
    assert_eq!(0, hand.num(PieceType::OU));
    assert_eq!(0, hand.num(PieceType::KI));
    hand.decrement(PieceType::FU);
    hand.decrement(PieceType::HI);
    assert_eq!(1, hand.num(PieceType::FU));
    assert_eq!(0, hand.num(PieceType::HI));
    let hand = Hand::from_counts(&[1, 2, 3, 4, 5, 6, 255]);
    for (i, pt) in PieceType::ALL_HAND.iter().enumerate() {
        let expected = if i == 6 { 255 } else { i as u16 + 1 };
        assert_eq!(expected, hand.num(*pt));
    }
}

#[test]
fn move_fields() {
    let m = Move::new_normal(Square::SQ88, Square::SQ22, true, Piece::BKA, Piece::WKA);
    assert_eq!(Some(Square::SQ88), m.from());
    assert_eq!(Square::SQ22, m.to());
    assert!(m.is_promotion());
    assert!(!m.is_drop());
    assert_eq!(Piece::BKA, m.piece());
    assert_eq!(Some(Piece::WKA), m.captured());
    let m = Move::new_normal(Square::SQ77, Square::SQ76, false, Piece::BFU, Piece::EMP);
    assert_eq!(None, m.captured());
    let d = Move::new_drop(Square::SQ33, Piece::BKA);
    assert_eq!(None, d.from());
    assert_eq!(Square::SQ33, d.to());
    assert!(d.is_drop());
    assert!(!d.is_promotion());
    assert_eq!(Piece::BKA, d.piece());
    assert_eq!(None, d.captured());
}

#[test]
fn bitboard_sets() {
    let a = board_of(&[Square::SQ11, Square::SQ55, Square::SQ99]);
    let b = board_of(&[Square::SQ55, Square::SQ19]);
    assert_eq!(3, a.count_ones());
    assert!(a.contains(Square::SQ99));
    assert!(!a.contains(Square::SQ19));
    assert_eq!(vec![Square::SQ55], squares(a.and(b)));
    assert_eq!(
        vec![Square::SQ11, Square::SQ19, Square::SQ55, Square::SQ99],
        squares(a.or(b))
    );
    assert_eq!(
        vec![Square::SQ11, Square::SQ19, Square::SQ99],
        squares(a.xor(b))
    );
    assert_eq!(vec![Square::SQ11, Square::SQ99], squares(a.toggled(Square::SQ55)));
    assert_eq!(4, a.toggled(Square::SQ12).count_ones());
    assert_eq!(Some(Square::SQ11), a.first());
    assert_eq!(None, Bitboard::empty().first());
    assert!(Bitboard::empty().is_empty());
    assert!(!a.is_empty());
    assert!(Bitboard::from_square(Square::SQ99).is_single());
    assert!(!a.is_single());
    assert!(!Bitboard::empty().is_single());
    let mut all = Bitboard::empty();
    for sq in Square::ALL {
        all = all.with(sq);
    }
    assert_eq!(81, all.count_ones());
    assert_eq!(Square::ALL.to_vec(), squares(all));
}

#[test]
fn between_squares() {
    assert_eq!(
        vec![Square::SQ22, Square::SQ33, Square::SQ44],
        squares(between(Square::SQ11, Square::SQ55))
    );
    assert_eq!(
        vec![Square::SQ22, Square::SQ33, Square::SQ44],
        squares(between(Square::SQ55, Square::SQ11))
    );
    assert_eq!(
        vec![Square::SQ35, Square::SQ45],
        squares(between(Square::SQ55, Square::SQ25))
    );
    assert_eq!(
        vec![Square::SQ52, Square::SQ53, Square::SQ54],
        squares(between(Square::SQ51, Square::SQ55))
    );
    assert_eq!(
        vec![Square::SQ28, Square::SQ37, Square::SQ46],
        squares(between(Square::SQ19, Square::SQ55))
    );
    assert!(between(Square::SQ55, Square::SQ54).is_empty());
    assert!(between(Square::SQ55, Square::SQ55).is_empty());
    assert!(between(Square::SQ55, Square::SQ43).is_empty());
    assert!(between(Square::SQ11, Square::SQ23).is_empty());
}

#[test]
fn step_attacks() {
    let none = Bitboard::empty();
    assert_eq!(
        vec![Square::SQ54],
        squares(attack(PieceType::FU, Square::SQ55, Color::Black, &none))
    );
    assert_eq!(
        vec![Square::SQ56],
        squares(attack(PieceType::FU, Square::SQ55, Color::White, &none))
    );
    assert!(attack(PieceType::FU, Square::SQ51, Color::Black, &none).is_empty());
    assert_eq!(
        vec![Square::SQ43, Square::SQ63],
        squares(attack(PieceType::KE, Square::SQ55, Color::Black, &none))
    );
    assert_eq!(
        vec![Square::SQ47, Square::SQ67],
        squares(attack(PieceType::KE, Square::SQ55, Color::White, &none))
    );
    assert_eq!(
        vec![
            Square::SQ44,
            Square::SQ46,
            Square::SQ54,
            Square::SQ64,
            Square::SQ66
        ],
        squares(attack(PieceType::GI, Square::SQ55, Color::Black, &none))
    );
    assert_eq!(
        vec![
            Square::SQ44,
            Square::SQ46,
            Square::SQ56,
            Square::SQ64,
            Square::SQ66
        ],
        squares(attack(PieceType::GI, Square::SQ55, Color::White, &none))
    );
    let gold = vec![
        Square::SQ44,
        Square::SQ45,
        Square::SQ54,
        Square::SQ56,
        Square::SQ64,
        Square::SQ65,
    ];
    for pt in [
        PieceType::KI,
        PieceType::TO,
        PieceType::NY,
        PieceType::NK,
        PieceType::NG,
    ] {
        assert_eq!(gold, squares(attack(pt, Square::SQ55, Color::Black, &none)));
    }
    assert_eq!(
        vec![
            Square::SQ45,
            Square::SQ46,
            Square::SQ54,
            Square::SQ56,
            Square::SQ65,
            Square::SQ66
        ],
        squares(attack(PieceType::KI, Square::SQ55, Color::White, &none))
    );
    assert_eq!(
        8,
        attack(PieceType::OU, Square::SQ55, Color::Black, &none).count_ones()
    );
    assert_eq!(
        vec![Square::SQ12, Square::SQ21, Square::SQ22],
        squares(attack(PieceType::OU, Square::SQ11, Color::White, &none))
    );
}

#[test]
fn sliding_attacks() {
    let none = Bitboard::empty();
    assert_eq!(
        vec![Square::SQ51, Square::SQ52, Square::SQ53, Square::SQ54],
        squares(attack(PieceType::KY, Square::SQ55, Color::Black, &none))
    );
    assert_eq!(
        vec![Square::SQ56, Square::SQ57, Square::SQ58, Square::SQ59],
        squares(attack(PieceType::KY, Square::SQ55, Color::White, &none))
    );
    let occ = board_of(&[Square::SQ53, Square::SQ57, Square::SQ35, Square::SQ33]);
    assert_eq!(
        vec![Square::SQ53, Square::SQ54],
        squares(attack(PieceType::KY, Square::SQ55, Color::Black, &occ))
    );
    assert_eq!(
        vec![
            Square::SQ35,
            Square::SQ45,
            Square::SQ53,
            Square::SQ54,
            Square::SQ56,
            Square::SQ57,
            Square::SQ65,
            Square::SQ75,
            Square::SQ85,
            Square::SQ95
        ],
        squares(attack(PieceType::HI, Square::SQ55, Color::Black, &occ))
    );
    assert_eq!(
        16,
        attack(PieceType::HI, Square::SQ55, Color::White, &none).count_ones()
    );
    assert_eq!(
        16,
        attack(PieceType::KA, Square::SQ55, Color::Black, &none).count_ones()
    );
    assert_eq!(
        vec![
            Square::SQ19,
            Square::SQ28,
            Square::SQ33,
            Square::SQ37,
            Square::SQ44,
            Square::SQ46,
            Square::SQ64,
            Square::SQ66,
            Square::SQ73,
            Square::SQ77,
            Square::SQ82,
            Square::SQ88,
            Square::SQ91,
            Square::SQ99
        ],
        squares(attack(PieceType::KA, Square::SQ55, Color::Black, &occ))
    );
    assert_eq!(
        20,
        attack(PieceType::UM, Square::SQ55, Color::Black, &none).count_ones()
    );
    assert_eq!(
        20,
        attack(PieceType::RY, Square::SQ55, Color::White, &none).count_ones()
    );
    assert_eq!(
        vec![
            Square::SQ12,
            Square::SQ13,
            Square::SQ21,
            Square::SQ22,
            Square::SQ31
        ],
        squares(attack(
            PieceType::RY,
            Square::SQ11,
            Color::Black,
            &board_of(&[Square::SQ13, Square::SQ31])
        ))
    );
    assert_eq!(
        attack(PieceType::HI, Square::SQ55, Color::Black, &none),
        pseudo_attack(PieceType::HI, Square::SQ55, Color::Black)
    );
}
