use yasai::movegen::{playable_moves, pseudo_legal_moves};
use yasai::{Color, Move, MoveList, Piece, Position, Square};

fn empty_board() -> [Piece; 81] {
    [Piece::EMP; 81]
}

fn no_hands() -> [[u8; 7]; 2] {
    [[0; 7]; 2]
}

fn perft(pos: &mut Position, depth: u32) -> u64 {
    if depth == 0 {
        return 1;
    }
    let moves = pos.legal_moves();
    if depth == 1 {
        return moves.len() as u64;
    }
    let mut nodes = 0;
    for &m in moves.as_slice() {
        pos.do_move(m);
        nodes += perft(pos, depth - 1);
        pos.undo_move(m);
    }
    nodes
}

#[test]
fn thirty_moves_at_the_start() {
    let pos = Position::default();
    let moves = pos.legal_moves();
    assert_eq!(30, moves.len());
    assert!(!moves.is_empty());
    assert!(moves.contains(Move::new_normal(
        Square::SQ77,
        Square::SQ76,
        false,
        Piece::BFU,
        Piece::EMP
    )));
    assert!(moves.contains(Move::new_normal(
        Square::SQ28,
        Square::SQ18,
        false,
        Piece::BHI,
        Piece::EMP
    )));
    assert!(!moves.contains(Move::new_normal(
        Square::SQ88,
        Square::SQ22,
        true,
        Piece::BKA,
        Piece::WKA
    )));
    assert!(!moves.contains(Move::new_normal(
        Square::SQ77,
        Square::SQ75,
        false,
        Piece::BFU,
        Piece::EMP
    )));
    assert_eq!(Some(moves.as_slice()[0]), moves.get(0));
    assert_eq!(None, moves.get(30));
    for (i, a) in moves.as_slice().iter().enumerate() {
        for b in &moves.as_slice()[i + 1..] {
            assert_ne!(a, b);
        }
    }
}

#[test]
fn perft_from_the_start() {
    let mut pos = Position::default();
    assert_eq!(30, perft(&mut pos, 1));
    assert_eq!(900, perft(&mut pos, 2));
    assert_eq!(25470, perft(&mut pos, 3));
    assert_eq!(719731, perft(&mut pos, 4));
    let fresh = Position::default();
    for sq in Square::ALL {
        assert_eq!(fresh.piece_on(sq), pos.piece_on(sq));
    }
    assert_eq!(Color::Black, pos.side_to_move());
}

#[test]
fn every_legal_move_round_trips() {
    let mut pos = Position::default();
    for &m in [
        Move::new_normal(Square::SQ77, Square::SQ76, false, Piece::BFU, Piece::EMP),
        Move::new_normal(Square::SQ33, Square::SQ34, false, Piece::WFU, Piece::EMP),
        Move::new_normal(Square::SQ88, Square::SQ22, true, Piece::BKA, Piece::WKA),
        Move::new_normal(Square::SQ31, Square::SQ22, false, Piece::WGI, Piece::BUM),
    ]
    .iter()
    {
        assert!(pos.legal_moves().contains(m));
        pos.do_move(m);
    }
    let board: Vec<Piece> = Square::ALL.iter().map(|&sq| pos.piece_on(sq)).collect();
    let black = pos.hand(Color::Black);
    let white = pos.hand(Color::White);
    let in_check = pos.in_check();
    let moves = pos.legal_moves();
    assert!(moves.contains(Move::new_drop(Square::SQ33, Piece::BKA)));
    for &m in moves.as_slice() {
        pos.do_move(m);
        assert_eq!(Color::White, pos.side_to_move());
        pos.undo_move(m);
        for sq in Square::ALL {
            assert_eq!(board[sq.index()], pos.piece_on(sq));
        }
        assert_eq!(black, pos.hand(Color::Black));
        assert_eq!(white, pos.hand(Color::White));
        assert_eq!(Color::Black, pos.side_to_move());
        assert_eq!(in_check, pos.in_check());
    }
}

#[test]
fn check_must_be_answered() {
    let mut board = empty_board();
    board[Square::SQ59.index()] = Piece::BOU;
    board[Square::SQ51.index()] = Piece::WOU;
    board[Square::SQ53.index()] = Piece::WHI;
    board[Square::SQ17.index()] = Piece::BFU;
    let mut hands = no_hands();
    hands[0][4] = 1;
    let pos = Position::new(board, hands, Color::Black);
    assert!(pos.in_check());
    let moves = pos.legal_moves();
    // The king steps off the file (48, 49, 68, 69), or a gold is dropped
    // between rook and king (54 to 58).
    assert_eq!(9, moves.len());
    assert!(moves.contains(Move::new_normal(
        Square::SQ59,
        Square::SQ48,
        false,
        Piece::BOU,
        Piece::EMP
    )));
    assert!(moves.contains(Move::new_drop(Square::SQ55, Piece::BKI)));
    assert!(!moves.contains(Move::new_normal(
        Square::SQ59,
        Square::SQ58,
        false,
        Piece::BOU,
        Piece::EMP
    )));
    assert!(!moves.contains(Move::new_normal(
        Square::SQ17,
        Square::SQ16,
        false,
        Piece::BFU,
        Piece::EMP
    )));
    assert!(!moves.contains(Move::new_drop(Square::SQ45, Piece::BKI)));
}

#[test]
fn pinned_piece_stays_on_its_line() {
    let mut board = empty_board();
    board[Square::SQ55.index()] = Piece::BOU;
    board[Square::SQ35.index()] = Piece::BGI;
    board[Square::SQ25.index()] = Piece::WHI;
    board[Square::SQ11.index()] = Piece::WOU;
    let pos = Position::new(board, no_hands(), Color::Black);
    let moves = pos.legal_moves();
    // The silver has no move along the rank, so it cannot move at all;
    // the king has its eight steps.
    assert_eq!(8, moves.len());
    for &m in moves.as_slice() {
        assert_eq!(Some(Square::SQ55), m.from());
    }

    let mut board = board;
    board[Square::SQ35.index()] = Piece::BHI;
    let pos = Position::new(board, no_hands(), Color::Black);
    let moves = pos.legal_moves();
    let rook: Vec<Move> = moves
        .as_slice()
        .iter()
        .copied()
        .filter(|m| m.from() == Some(Square::SQ35))
        .collect();
    // The rook slides to 45 or captures on 25.
    assert_eq!(2, rook.len());
    assert!(moves.contains(Move::new_normal(
        Square::SQ35,
        Square::SQ25,
        false,
        Piece::BHI,
        Piece::WHI
    )));
    assert!(moves.contains(Move::new_normal(
        Square::SQ35,
        Square::SQ45,
        false,
        Piece::BHI,
        Piece::EMP
    )));
}

#[test]
fn promotion_in_the_zone() {
    let mut board = empty_board();
    board[Square::SQ59.index()] = Piece::BOU;
    board[Square::SQ51.index()] = Piece::WOU;
    board[Square::SQ14.index()] = Piece::BFU;
    board[Square::SQ92.index()] = Piece::BFU;
    board[Square::SQ83.index()] = Piece::BKE;
    board[Square::SQ76.index()] = Piece::BKE;
    let pos = Position::new(board, no_hands(), Color::Black);
    let moves = pos.legal_moves();
    let has = |from, to, promotion, piece| {
        moves.contains(Move::new_normal(from, to, promotion, piece, Piece::EMP))
    };
    // Into the zone: with or without promotion.
    assert!(has(Square::SQ14, Square::SQ13, false, Piece::BFU));
    assert!(has(Square::SQ14, Square::SQ13, true, Piece::BFU));
    // Onto the last rank: a pawn must promote.
    assert!(!has(Square::SQ92, Square::SQ91, false, Piece::BFU));
    assert!(has(Square::SQ92, Square::SQ91, true, Piece::BFU));
    // Onto the last two ranks: a knight must promote.
    assert!(!has(Square::SQ83, Square::SQ71, false, Piece::BKE));
    assert!(has(Square::SQ83, Square::SQ71, true, Piece::BKE));
    assert!(has(Square::SQ83, Square::SQ91, true, Piece::BKE));
    // Short of the zone: no promotion.
    assert!(has(Square::SQ76, Square::SQ64, false, Piece::BKE));
    assert!(!has(Square::SQ76, Square::SQ64, true, Piece::BKE));
    assert!(has(Square::SQ76, Square::SQ84, false, Piece::BKE));
    // The king never promotes.
    assert!(!has(Square::SQ59, Square::SQ58, true, Piece::BOU));
    assert!(has(Square::SQ59, Square::SQ58, false, Piece::BOU));
}

#[test]
fn no_second_pawn_on_a_file() {
    let mut board = empty_board();
    board[Square::SQ59.index()] = Piece::BOU;
    board[Square::SQ51.index()] = Piece::WOU;
    board[Square::SQ27.index()] = Piece::BFU;
    board[Square::SQ33.index()] = Piece::BTO;
    board[Square::SQ47.index()] = Piece::WFU;
    let mut hands = no_hands();
    hands[0][0] = 1;
    let pos = Position::new(board, hands, Color::Black);
    let moves = pos.legal_moves();
    let drop = |to| moves.contains(Move::new_drop(to, Piece::BFU));
    assert!(!drop(Square::SQ25));
    assert!(!drop(Square::SQ29));
    // A promoted pawn and the other side's pawn do not count.
    assert!(drop(Square::SQ35));
    assert!(drop(Square::SQ45));
    // Never onto the last rank, never onto a piece.
    assert!(!drop(Square::SQ11));
    assert!(!drop(Square::SQ33));
    assert!(drop(Square::SQ12));
    // Nothing is dropped that the hand does not hold.
    assert!(!moves.contains(Move::new_drop(Square::SQ55, Piece::BKI)));
    assert!(!moves.contains(Move::new_drop(Square::SQ55, Piece::WFU)));
}

#[test]
fn drops_where_the_piece_can_stand() {
    let mut board = empty_board();
    board[Square::SQ59.index()] = Piece::BOU;
    board[Square::SQ51.index()] = Piece::WOU;
    let mut hands = no_hands();
    hands[1][1] = 1;
    hands[1][2] = 1;
    let pos = Position::new(board, hands, Color::White);
    let moves = pos.legal_moves();
    assert!(moves.contains(Move::new_drop(Square::SQ18, Piece::WKY)));
    assert!(!moves.contains(Move::new_drop(Square::SQ19, Piece::WKY)));
    assert!(moves.contains(Move::new_drop(Square::SQ17, Piece::WKE)));
    assert!(!moves.contains(Move::new_drop(Square::SQ18, Piece::WKE)));
    assert!(!moves.contains(Move::new_drop(Square::SQ19, Piece::WKE)));
    assert!(moves.contains(Move::new_drop(Square::SQ11, Piece::WKE)));
}

#[test]
fn no_mate_by_a_dropped_pawn() {
    // The white king on 11 has no flight: 21 and 22 are covered by the gold
    // on 32, and a pawn on 12 is guarded by the lance on 19.
    let mut board = empty_board();
    board[Square::SQ11.index()] = Piece::WOU;
    board[Square::SQ32.index()] = Piece::BKI;
    board[Square::SQ19.index()] = Piece::BKY;
    board[Square::SQ59.index()] = Piece::BOU;
    let mut hands = no_hands();
    hands[0][0] = 1;
    let pos = Position::new(board, hands, Color::Black);
    let moves = pos.legal_moves();
    assert!(!moves.contains(Move::new_drop(Square::SQ12, Piece::BFU)));
    assert!(moves.contains(Move::new_drop(Square::SQ13, Piece::BFU)));

    // With a white rook next to it the pawn can be taken.
    board[Square::SQ22.index()] = Piece::WHI;
    let pos = Position::new(board, hands, Color::Black);
    let moves = pos.legal_moves();
    assert!(moves.contains(Move::new_drop(Square::SQ12, Piece::BFU)));

    // Mate by a dropped gold is allowed.
    board[Square::SQ22.index()] = Piece::EMP;
    hands[0][4] = 1;
    let mut pos = Position::new(board, hands, Color::Black);
    let moves = pos.legal_moves();
    let mate = Move::new_drop(Square::SQ12, Piece::BKI);
    assert!(moves.contains(mate));
    pos.do_move(mate);
    assert!(pos.in_check());
    assert!(pos.legal_moves().is_empty());
}

#[test]
fn pseudo_legal_and_playable() {
    let mut board = empty_board();
    board[Square::SQ55.index()] = Piece::BOU;
    board[Square::SQ35.index()] = Piece::BGI;
    board[Square::SQ25.index()] = Piece::WHI;
    board[Square::SQ11.index()] = Piece::WOU;
    let mut pos = Position::new(board, no_hands(), Color::Black);
    let pseudo = pseudo_legal_moves(&pos);
    // Eight king steps and five silver steps.
    assert_eq!(13, pseudo.len());
    let playable = playable_moves(&mut pos);
    assert_eq!(8, playable.len());
    for sq in Square::ALL {
        assert_eq!(board[sq.index()], pos.piece_on(sq));
    }
    assert_eq!(Color::Black, pos.side_to_move());
    let mut list = MoveList::default();
    assert!(list.is_empty());
    list.generate_legals(&pos);
    assert_eq!(8, list.len());
}

#[test]
fn copy_is_independent() {
    let mut pos = Position::default();
    let m = Move::new_normal(Square::SQ77, Square::SQ76, false, Piece::BFU, Piece::EMP);
    pos.do_move(m);
    let mut copy = pos.clone();
    copy.undo_move(m);
    assert_eq!(Piece::BFU, copy.piece_on(Square::SQ77));
    assert_eq!(Piece::EMP, pos.piece_on(Square::SQ77));
    assert_eq!(Piece::BFU, pos.piece_on(Square::SQ76));
    assert_eq!(Color::White, pos.side_to_move());
    assert_eq!(Color::Black, copy.side_to_move());
    pos.undo_move(m);
    assert_eq!(Piece::BFU, pos.piece_on(Square::SQ77));
}
