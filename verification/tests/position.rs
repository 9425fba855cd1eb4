use yasai::{Color, Move, Piece, PieceType, Position, Square};

fn empty_board() -> [Piece; 81] {
    [Piece::EMP; 81]
}

fn no_hands() -> [[u8; 7]; 2] {
    [[0; 7]; 2]
}

#[test]
fn test_default() {
    let pos = Position::default();
    for sq in Square::ALL {
        let expected = match sq {
            Square::SQ17
            | Square::SQ27
            | Square::SQ37
            | Square::SQ47
            | Square::SQ57
            | Square::SQ67
            | Square::SQ77
            | Square::SQ87
            | Square::SQ97 => Piece::BFU,
            Square::SQ19 | Square::SQ99 => Piece::BKY,
            Square::SQ29 | Square::SQ89 => Piece::BKE,
            Square::SQ39 | Square::SQ79 => Piece::BGI,
            Square::SQ49 | Square::SQ69 => Piece::BKI,
            Square::SQ59 => Piece::BOU,
            Square::SQ88 => Piece::BKA,
            Square::SQ28 => Piece::BHI,
            Square::SQ13
            | Square::SQ23
            | Square::SQ33
            | Square::SQ43
            | Square::SQ53
            | Square::SQ63
            | Square::SQ73
            | Square::SQ83
            | Square::SQ93 => Piece::WFU,
            Square::SQ11 | Square::SQ91 => Piece::WKY,
            Square::SQ21 | Square::SQ81 => Piece::WKE,
            Square::SQ31 | Square::SQ71 => Piece::WGI,
            Square::SQ41 | Square::SQ61 => Piece::WKI,
            Square::SQ51 => Piece::WOU,
            Square::SQ22 => Piece::WKA,
            Square::SQ82 => Piece::WHI,
            _ => Piece::EMP,
        };
        assert_eq!(expected, pos.piece_on(sq), "square: {:?}", sq);
    }
    for c in Color::ALL {
        for pt in PieceType::ALL_HAND {
            assert_eq!(0, pos.hand(c).num(pt));
        }
    }
    assert_eq!(Color::Black, pos.side_to_move());
    assert!(!pos.in_check());
}

#[test]
fn test_do_undo_move() {
    let mut pos = Position::default();
    let moves = [
        Move::new_normal(Square::SQ77, Square::SQ76, false, Piece::BFU, Piece::EMP),
        Move::new_normal(Square::SQ33, Square::SQ34, false, Piece::WFU, Piece::EMP),
        Move::new_normal(Square::SQ88, Square::SQ22, true, Piece::BUM, Piece::WKA),
        Move::new_normal(Square::SQ31, Square::SQ22, false, Piece::WGI, Piece::BUM),
        Move::new_drop(Square::SQ33, Piece::BKA),
    ];
    // do moves
    for &m in moves.iter() {
        pos.do_move(m);
    }
    // check moved pieces, position states
    for (sq, expected) in [
        (Square::SQ22, Piece::WGI),
        (Square::SQ31, Piece::EMP),
        (Square::SQ33, Piece::BKA),
        (Square::SQ76, Piece::BFU),
        (Square::SQ77, Piece::EMP),
    ] {
        assert_eq!(expected, pos.piece_on(sq), "square: {:?}", sq);
    }
    assert!(pos.hand(Color::Black).is_empty());
    assert!(!pos.hand(Color::White).is_empty());
    assert_eq!(Color::White, pos.side_to_move());
    assert!(pos.in_check());
    // revert to default position
    for &m in moves.iter().rev() {
        pos.undo_move(m);
    }
    let default = Position::default();
    assert!(Square::ALL
        .iter()
        .all(|&sq| pos.piece_on(sq) == default.piece_on(sq)));
    assert_eq!(Color::Black, pos.side_to_move());
    assert!(!pos.in_check());
}

#[test]
fn default_bitboards_agree_with_board() {
    let pos = Position::default();
    assert_eq!(40, pos.occupied().count_ones());
    assert_eq!(20, pos.pieces_c(Color::Black).count_ones());
    assert_eq!(20, pos.pieces_c(Color::White).count_ones());
    assert_eq!(18, pos.pieces_p(PieceType::FU).count_ones());
    assert_eq!(9, pos.pieces_cp(Color::White, PieceType::FU).count_ones());
    assert_eq!(
        8,
        pos.pieces_ps(&[PieceType::KI, PieceType::GI]).count_ones()
    );
    assert_eq!(Some(Square::SQ59), pos.king(Color::Black));
    assert_eq!(Some(Square::SQ51), pos.king(Color::White));
    assert!(pos.checkers().is_empty());
    assert!(pos.pinned()[0].is_empty());
    assert!(pos.pinned()[1].is_empty());
}

#[test]
fn bitboards_agree_with_board_after_moves() {
    let mut pos = Position::default();
    let moves = [
        Move::new_normal(Square::SQ77, Square::SQ76, false, Piece::BFU, Piece::EMP),
        Move::new_normal(Square::SQ33, Square::SQ34, false, Piece::WFU, Piece::EMP),
        Move::new_normal(Square::SQ88, Square::SQ22, true, Piece::BKA, Piece::WKA),
        Move::new_normal(Square::SQ31, Square::SQ22, false, Piece::WGI, Piece::BUM),
        Move::new_drop(Square::SQ33, Piece::BKA),
    ];
    let check = |pos: &Position| {
        for sq in Square::ALL {
            let p = pos.piece_on(sq);
            assert_eq!(p != Piece::EMP, pos.occupied().contains(sq));
            for c in Color::ALL {
                assert_eq!(p.color() == Some(c), pos.pieces_c(c).contains(sq));
            }
            for pt in PieceType::ALL {
                assert_eq!(p.piece_type() == Some(pt), pos.pieces_p(pt).contains(sq));
            }
        }
    };
    check(&pos);
    for &m in moves.iter() {
        pos.do_move(m);
        check(&pos);
    }
    for &m in moves.iter().rev() {
        pos.undo_move(m);
        check(&pos);
    }
}

fn material(pos: &Position, pt: PieceType) -> u32 {
    let on_board = PieceType::ALL
        .iter()
        .filter(|t| t.demoted() == pt)
        .map(|&t| pos.pieces_p(t).count_ones())
        .sum::<u32>();
    on_board + pos.hand(Color::Black).num(pt) as u32 + pos.hand(Color::White).num(pt) as u32
}

#[test]
fn material_is_conserved() {
    let mut pos = Position::default();
    let moves = [
        Move::new_normal(Square::SQ77, Square::SQ76, false, Piece::BFU, Piece::EMP),
        Move::new_normal(Square::SQ33, Square::SQ34, false, Piece::WFU, Piece::EMP),
        Move::new_normal(Square::SQ88, Square::SQ22, true, Piece::BKA, Piece::WKA),
        Move::new_normal(Square::SQ31, Square::SQ22, false, Piece::WGI, Piece::BUM),
        Move::new_drop(Square::SQ33, Piece::BKA),
    ];
    let expected = [18, 4, 4, 4, 4, 2, 2];
    for &m in moves.iter() {
        pos.do_move(m);
        for (i, pt) in PieceType::ALL_HAND.iter().enumerate() {
            assert_eq!(expected[i], material(&pos, *pt), "type: {:?}", pt);
        }
    }
    assert_eq!(0, pos.hand(Color::Black).num(PieceType::KA));
    assert_eq!(1, pos.hand(Color::White).num(PieceType::KA));
    assert_eq!(1, pos.hand(Color::White).num(PieceType::UM));
    for &m in moves.iter().rev() {
        pos.undo_move(m);
        for (i, pt) in PieceType::ALL_HAND.iter().enumerate() {
            assert_eq!(expected[i], material(&pos, *pt), "type: {:?}", pt);
        }
    }
}

#[test]
fn round_trip_restores_everything() {
    let mut board = empty_board();
    board[Square::SQ59.index()] = Piece::BOU;
    board[Square::SQ51.index()] = Piece::WOU;
    board[Square::SQ24.index()] = Piece::BFU;
    board[Square::SQ23.index()] = Piece::WGI;
    let mut hands = no_hands();
    hands[0][0] = 2;
    hands[1][6] = 1;
    let mut pos = Position::new(board, hands, Color::Black);
    let m = Move::new_normal(Square::SQ24, Square::SQ23, true, Piece::BFU, Piece::WGI);
    pos.do_move(m);
    assert_eq!(Piece::BTO, pos.piece_on(Square::SQ23));
    assert_eq!(Piece::EMP, pos.piece_on(Square::SQ24));
    assert_eq!(1, pos.hand(Color::Black).num(PieceType::GI));
    assert_eq!(2, pos.hand(Color::Black).num(PieceType::FU));
    assert_eq!(Color::White, pos.side_to_move());
    pos.undo_move(m);
    for sq in Square::ALL {
        assert_eq!(board[sq.index()], pos.piece_on(sq), "square: {:?}", sq);
    }
    for (i, pt) in PieceType::ALL_HAND.iter().enumerate() {
        assert_eq!(hands[0][i] as u16, pos.hand(Color::Black).num(*pt));
        assert_eq!(hands[1][i] as u16, pos.hand(Color::White).num(*pt));
    }
    assert_eq!(Color::Black, pos.side_to_move());
    assert!(!pos.in_check());
}

#[test]
fn drop_round_trip() {
    let mut board = empty_board();
    board[Square::SQ59.index()] = Piece::BOU;
    board[Square::SQ51.index()] = Piece::WOU;
    let mut hands = no_hands();
    hands[1][4] = 1;
    let mut pos = Position::new(board, hands, Color::White);
    let m = Move::new_drop(Square::SQ58, Piece::WKI);
    pos.do_move(m);
    assert_eq!(Piece::WKI, pos.piece_on(Square::SQ58));
    assert!(pos.hand(Color::White).is_empty());
    assert_eq!(Color::Black, pos.side_to_move());
    assert!(pos.in_check());
    assert!(pos.checkers().contains(Square::SQ58));
    assert_eq!(1, pos.checkers().count_ones());
    pos.undo_move(m);
    assert_eq!(Piece::EMP, pos.piece_on(Square::SQ58));
    assert_eq!(1, pos.hand(Color::White).num(PieceType::KI));
    assert_eq!(Color::White, pos.side_to_move());
    assert!(!pos.in_check());
}

#[test]
fn check_symmetry() {
    let mut board = empty_board();
    board[Square::SQ59.index()] = Piece::BOU;
    board[Square::SQ51.index()] = Piece::WOU;
    board[Square::SQ53.index()] = Piece::WHI;
    let pos = Position::new(board, no_hands(), Color::Black);
    assert!(pos.in_check());
    assert!(!pos.checkers().is_empty());
    let king = pos.king(Color::Black).unwrap();
    assert_eq!(Square::SQ59, king);
    let attackers = pos.attackers_to(Color::White, king);
    assert_eq!(attackers, pos.checkers());
    assert!(attackers.contains(Square::SQ53));
    assert_eq!(1, attackers.count_ones());
    // Nothing stands between rook and king, so nothing is pinned.
    assert!(pos.pinned()[0].is_empty());
    assert!(pos.pinned()[1].is_empty());

    let pos = Position::new(board, no_hands(), Color::White);
    assert!(!pos.in_check());
    assert!(pos.checkers().is_empty());
    assert!(pos
        .attackers_to(Color::Black, pos.king(Color::White).unwrap())
        .is_empty());
}

#[test]
fn check_is_computed_at_construction() {
    let mut board = empty_board();
    board[Square::SQ55.index()] = Piece::BOU;
    board[Square::SQ43.index()] = Piece::WKE;
    let pos = Position::new(board, no_hands(), Color::Black);
    assert!(pos.in_check());
    assert!(pos.checkers().contains(Square::SQ43));
}

#[test]
fn no_king_means_no_check() {
    let mut board = empty_board();
    board[Square::SQ53.index()] = Piece::WHI;
    let pos = Position::new(board, no_hands(), Color::Black);
    assert_eq!(None, pos.king(Color::Black));
    assert!(!pos.in_check());
    assert!(pos.checkers().is_empty());
    assert!(pos.pinned()[0].is_empty());
}

#[test]
fn piece_next_to_rook_on_rank_is_pinned() {
    let mut board = empty_board();
    board[Square::SQ55.index()] = Piece::BOU;
    board[Square::SQ35.index()] = Piece::BGI;
    board[Square::SQ25.index()] = Piece::WHI;
    let pos = Position::new(board, no_hands(), Color::Black);
    let pinned = pos.pinned();
    assert!(pinned[Color::Black.index()].contains(Square::SQ35));
    assert_eq!(1, pinned[Color::Black.index()].count_ones());
    assert!(pinned[Color::White.index()].is_empty());
    assert!(!pos.in_check());
}

#[test]
fn two_blockers_are_not_pinned() {
    let mut board = empty_board();
    board[Square::SQ55.index()] = Piece::BOU;
    board[Square::SQ45.index()] = Piece::BFU;
    board[Square::SQ35.index()] = Piece::BGI;
    board[Square::SQ25.index()] = Piece::WHI;
    let pos = Position::new(board, no_hands(), Color::Black);
    assert!(pos.pinned()[0].is_empty());
    assert!(pos.pinned()[1].is_empty());
}

#[test]
fn enemy_blocker_is_not_pinned() {
    let mut board = empty_board();
    board[Square::SQ55.index()] = Piece::BOU;
    board[Square::SQ35.index()] = Piece::WGI;
    board[Square::SQ25.index()] = Piece::WHI;
    let pos = Position::new(board, no_hands(), Color::Black);
    assert!(pos.pinned()[0].is_empty());
    assert!(pos.pinned()[1].is_empty());
}

#[test]
fn lance_pins_only_along_its_way() {
    // A white lance advances towards rank 9.
    let mut board = empty_board();
    board[Square::SQ55.index()] = Piece::BOU;
    board[Square::SQ54.index()] = Piece::BKI;
    board[Square::SQ51.index()] = Piece::WKY;
    let pos = Position::new(board, no_hands(), Color::Black);
    assert!(pos.pinned()[0].contains(Square::SQ54));

    let mut board = empty_board();
    board[Square::SQ55.index()] = Piece::BOU;
    board[Square::SQ56.index()] = Piece::BKI;
    board[Square::SQ59.index()] = Piece::WKY;
    let pos = Position::new(board, no_hands(), Color::Black);
    assert!(pos.pinned()[0].is_empty());
}

#[test]
fn bishop_pins_on_diagonal_for_white_king() {
    let mut board = empty_board();
    board[Square::SQ51.index()] = Piece::WOU;
    board[Square::SQ42.index()] = Piece::WKI;
    board[Square::SQ15.index()] = Piece::BUM;
    let pos = Position::new(board, no_hands(), Color::Black);
    assert!(pos.pinned()[Color::White.index()].contains(Square::SQ42));
    assert!(pos.pinned()[Color::Black.index()].is_empty());
}

#[test]
fn pins_are_restored_by_undo() {
    let mut board = empty_board();
    board[Square::SQ55.index()] = Piece::BOU;
    board[Square::SQ35.index()] = Piece::BGI;
    board[Square::SQ25.index()] = Piece::WHI;
    board[Square::SQ11.index()] = Piece::WOU;
    let mut pos = Position::new(board, no_hands(), Color::Black);
    let before = pos.pinned();
    let m = Move::new_normal(Square::SQ35, Square::SQ34, false, Piece::BGI, Piece::EMP);
    pos.do_move(m);
    assert!(pos.pinned()[0].is_empty());
    assert!(!pos.in_check());
    pos.undo_move(m);
    assert_eq!(before, pos.pinned());
}

#[test]
fn attackers_of_every_kind() {
    let mut board = empty_board();
    // Black pieces round 55, each attacking it in its own way.
    board[Square::SQ56.index()] = Piece::BFU;
    board[Square::SQ59.index()] = Piece::BKY;
    board[Square::SQ47.index()] = Piece::BKE;
    board[Square::SQ66.index()] = Piece::BGI;
    board[Square::SQ45.index()] = Piece::BKI;
    board[Square::SQ28.index()] = Piece::BKA;
    board[Square::SQ51.index()] = Piece::BHI;
    // Black pieces that do not attack 55.
    board[Square::SQ54.index()] = Piece::BFU;
    board[Square::SQ67.index()] = Piece::BGI;
    board[Square::SQ44.index()] = Piece::BKI;
    // A white piece that would.
    board[Square::SQ65.index()] = Piece::WKI;
    let pos = Position::new(board, no_hands(), Color::Black);
    let attackers = pos.attackers_to(Color::Black, Square::SQ55);
    let mut expected = vec![
        Square::SQ56,
        Square::SQ47,
        Square::SQ66,
        Square::SQ45,
        Square::SQ28,
    ];
    // The lance is shielded by the pawn on 56, the rook by the pawn on 54.
    expected.sort_by_key(|sq| sq.index());
    let mut found = Vec::new();
    let mut rest = attackers;
    while let Some(sq) = rest.pop() {
        found.push(sq);
    }
    assert_eq!(expected, found);
    let white = pos.attackers_to(Color::White, Square::SQ55);
    assert!(white.contains(Square::SQ65));
    assert_eq!(1, white.count_ones());
}

#[test]
fn promoted_pieces_attack_both_ways() {
    let mut board = empty_board();
    board[Square::SQ44.index()] = Piece::WRY;
    board[Square::SQ56.index()] = Piece::WUM;
    board[Square::SQ65.index()] = Piece::WTO;
    board[Square::SQ54.index()] = Piece::WOU;
    let pos = Position::new(board, no_hands(), Color::Black);
    let attackers = pos.attackers_to(Color::White, Square::SQ55);
    assert!(attackers.contains(Square::SQ44));
    assert!(attackers.contains(Square::SQ56));
    assert!(attackers.contains(Square::SQ65));
    assert!(attackers.contains(Square::SQ54));
    assert_eq!(4, attackers.count_ones());
}

#[test]
fn render_default() {
    let pos = Position::default();
    let expected = "\
P1-KY-KE-GI-KI-OU-KI-GI-KE-KY
P2 * -HI *  *  *  *  * -KA * 
P3-FU-FU-FU-FU-FU-FU-FU-FU-FU
P4 *  *  *  *  *  *  *  *  * 
P5 *  *  *  *  *  *  *  *  * 
P6 *  *  *  *  *  *  *  *  * 
P7+FU+FU+FU+FU+FU+FU+FU+FU+FU
P8 * +KA *  *  *  *  * +HI * 
P9+KY+KE+GI+KI+OU+KI+GI+KE+KY
+
";
    assert_eq!(expected, pos.render());
}

#[test]
fn render_with_hands() {
    let mut board = empty_board();
    board[Square::SQ59.index()] = Piece::BOU;
    board[Square::SQ51.index()] = Piece::WOU;
    board[Square::SQ11.index()] = Piece::BRY;
    let mut hands = no_hands();
    hands[1][0] = 2;
    hands[1][5] = 1;
    let pos = Position::new(board, hands, Color::White);
    let expected = "\
P1 *  *  *  * -OU *  *  * +RY
P2 *  *  *  *  *  *  *  *  * 
P3 *  *  *  *  *  *  *  *  * 
P4 *  *  *  *  *  *  *  *  * 
P5 *  *  *  *  *  *  *  *  * 
P6 *  *  *  *  *  *  *  *  * 
P7 *  *  *  *  *  *  *  *  * 
P8 *  *  *  *  *  *  *  *  * 
P9 *  *  *  * +OU *  *  *  * 
P-00KA00FU00FU
-
";
    assert_eq!(expected, pos.render());
}
