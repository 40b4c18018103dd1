use std::collections::VecDeque;
use giffibot::ordering::{move_score_guess, order_moves};
use giffibot::piece::{Color, Move, MoveFlag, PieceType};
use giffibot::position::Position;
use giffibot::transposition_table::{NodeKind, TranspositionEntry, TranspositionTable, ENTRY_COUNT};

fn position(men: &[(Color, PieceType, u8)], turn: Color) -> Position {
    let mut bitboards = [0u64; 12];
    for &(color, kind, square) in men {
        bitboards[kind.get_side_index(color)] |= 1u64 << square;
    }
    Position { bitboards, turn }
}

fn mv(from: u8, to: u8, flag: MoveFlag) -> Move {
    Move { from, to, flag }
}

fn sample() -> Position {
    // White pawn d4 and knight f3 can take a black rook on e5; a black pawn
    // stands on c5.
    position(
        &[
            (Color::White, PieceType::Pawn, 27),
            (Color::White, PieceType::Knight, 21),
            (Color::White, PieceType::Pawn, 54),
            (Color::Black, PieceType::Rook, 36),
            (Color::Black, PieceType::Pawn, 34),
        ],
        Color::White,
    )
}

#[test]
fn move_scores_follow_victim_and_attacker() {
    let pos = sample();
    assert_eq!(move_score_guess(&pos, mv(27, 36, MoveFlag::Capture)), 400);
    assert_eq!(move_score_guess(&pos, mv(21, 36, MoveFlag::Capture)), 200);
    assert_eq!(move_score_guess(&pos, mv(27, 34, MoveFlag::Capture)), 0);
    assert_eq!(move_score_guess(&pos, mv(21, 38, MoveFlag::Quiet)), 0);
    assert_eq!(move_score_guess(&pos, mv(54, 62, MoveFlag::PromoteQueen)), 900);
}

#[test]
fn ordering_puts_best_capture_first() {
    let pos = sample();
    let quiet = mv(21, 38, MoveFlag::Quiet);
    let pawn_takes = mv(27, 36, MoveFlag::Capture);
    let knight_takes = mv(21, 36, MoveFlag::Capture);
    let mut moves = vec![quiet, knight_takes, pawn_takes];
    let mut pv = VecDeque::new();
    order_moves(&pos, &mut pv, &mut moves);
    assert_eq!(moves[0], pawn_takes);
    assert_eq!(moves.len(), 3);
    assert!(moves.contains(&quiet) && moves.contains(&knight_takes));
}

#[test]
fn ordering_ties_favour_later_moves() {
    let pos = sample();
    let a = mv(21, 38, MoveFlag::Quiet);
    let b = mv(21, 4, MoveFlag::Quiet);
    let mut moves = vec![a, b];
    let mut pv = VecDeque::new();
    order_moves(&pos, &mut pv, &mut moves);
    assert_eq!(moves, vec![b, a]);
}

#[test]
fn ordering_puts_hint_first_and_consumes_it() {
    let pos = sample();
    let quiet = mv(21, 38, MoveFlag::Quiet);
    let pawn_takes = mv(27, 36, MoveFlag::Capture);
    let knight_takes = mv(21, 36, MoveFlag::Capture);
    let next_hint = mv(36, 27, MoveFlag::Capture);
    let mut moves = vec![pawn_takes, knight_takes, quiet];
    let mut pv = VecDeque::from(vec![quiet, next_hint]);
    order_moves(&pos, &mut pv, &mut moves);
    assert_eq!(moves[0], quiet);
    assert_eq!(moves[1], pawn_takes);
    assert_eq!(pv, VecDeque::from(vec![next_hint]));
}

#[test]
fn absent_hint_sorts_whole_list() {
    let pos = sample();
    let a = mv(21, 38, MoveFlag::Quiet);
    let b = mv(21, 4, MoveFlag::Quiet);
    let absent = mv(1, 2, MoveFlag::Quiet);
    let mut moves = vec![a, b];
    let mut pv = VecDeque::from(vec![absent]);
    order_moves(&pos, &mut pv, &mut moves);
    // The later tie moves to the front, as with no hint at all.
    assert_eq!(moves, vec![b, a]);
    assert!(pv.is_empty());
}

#[test]
fn ordering_twice_with_same_hint_keeps_first_move() {
    let pos = sample();
    let quiet = mv(21, 38, MoveFlag::Quiet);
    let other = mv(21, 4, MoveFlag::Quiet);
    let pawn_takes = mv(27, 36, MoveFlag::Capture);
    for hint in [quiet, other] {
        let mut moves = vec![other, pawn_takes, quiet];
        let mut pv = VecDeque::from(vec![hint]);
        order_moves(&pos, &mut pv, &mut moves);
        let first = moves[0];
        let mut pv = VecDeque::from(vec![hint]);
        order_moves(&pos, &mut pv, &mut moves);
        assert_eq!(moves[0], first);
        assert_eq!(first, hint);
    }
}

#[test]
fn transposition_store_and_probe() {
    let mut tt = TranspositionTable::new();
    assert_eq!(tt.probe_hash(12345, 0, -10, 10), None);
    tt.store_evaluation(NodeKind::Exact, 12345, 4, 37);
    assert_eq!(tt.probe_hash(12345, 4, -10, 10), Some(37));
    assert_eq!(tt.probe_hash(12345, 3, -10, 10), Some(37));
    assert_eq!(tt.probe_hash(12345, 5, -10, 10), None);
    assert_eq!(tt.lookups, 2);
    assert_eq!(tt.writes, 1);
    // Another hash in the same slot does not match.
    assert_eq!(tt.probe_hash(12345 + ENTRY_COUNT, 0, -10, 10), None);
}

#[test]
fn transposition_bounds() {
    let mut tt = TranspositionTable::new();
    tt.store_evaluation(NodeKind::UpperBound, 7, 2, -20);
    assert_eq!(tt.probe_hash(7, 2, -20, 10), Some(-20));
    assert_eq!(tt.probe_hash(7, 2, -21, 10), None);
    tt.store_evaluation(NodeKind::LowerBound, 7, 2, 30);
    assert_eq!(tt.probe_hash(7, 2, -10, 30), Some(30));
    assert_eq!(tt.probe_hash(7, 2, -10, 31), None);
    assert_eq!(tt.writes, 2);
}

#[test]
fn transposition_entry_fields() {
    let e = TranspositionEntry::new(9, NodeKind::LowerBound, -3, 6);
    assert_eq!(e.zobrist_hash, 9);
    assert_eq!(e.kind, NodeKind::LowerBound);
    assert_eq!(e.score, -3);
    assert_eq!(e.depth, 6);
    assert_eq!(ENTRY_COUNT, 64 * 1024 * 1024 / std::mem::size_of::<TranspositionEntry>() as u64);
}
