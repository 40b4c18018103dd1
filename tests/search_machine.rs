use giffibot::piece::{Color, Move, MoveFlag, PieceType};
use giffibot::position::Position;
use giffibot::search::{timer_step, Action, Event, GiffiBot, NodeInfo, SearchReport, TimerStep, SCORE_MAX};

/// A hand-made game tree standing in for a board.
struct TreeNode {
    pos: Position,
    in_check: bool,
    is_draw: bool,
    moves: Vec<(Move, usize)>,
    captures: Vec<(Move, usize)>,
}

fn position(men: &[(Color, PieceType, u8)], turn: Color) -> Position {
    let mut bitboards = [0u64; 12];
    for &(color, kind, square) in men {
        bitboards[kind.get_side_index(color)] |= 1u64 << square;
    }
    Position { bitboards, turn }
}

fn kings(turn: Color) -> Position {
    position(&[(Color::White, PieceType::King, 4), (Color::Black, PieceType::King, 60)], turn)
}

fn quiet(from: u8, to: u8) -> Move {
    Move { from, to, flag: MoveFlag::Quiet }
}

fn leaf(pos: Position, in_check: bool) -> TreeNode {
    TreeNode { pos, in_check, is_draw: false, moves: vec![], captures: vec![] }
}

fn info(tree: &[TreeNode], n: usize) -> NodeInfo {
    NodeInfo {
        position: tree[n].pos,
        in_check: tree[n].in_check,
        is_draw: tree[n].is_draw,
        legal_moves: tree[n].moves.iter().map(|p| p.0).collect(),
        legal_captures: tree[n].captures.iter().map(|p| p.0).collect(),
    }
}

struct Run {
    reports: Vec<SearchReport>,
    last: Action,
    makes: usize,
    unmakes: usize,
    max_stack: usize,
}

/// Drives the search over `tree` from node 0; `cancel_after` cancels once
/// that many moves have been made.
fn drive(bot: &mut GiffiBot, tree: &[TreeNode], depth: usize, cancel_after: Option<usize>) -> Run {
    let mut stack: Vec<usize> = vec![0];
    let mut reports = Vec::new();
    let mut makes = 0;
    let mut unmakes = 0;
    let mut max_stack = 1;
    let mut act = bot.go_depth(depth);
    loop {
        let cancelled = match cancel_after {
            Some(k) => makes >= k,
            None => false,
        };
        act = match act {
            Action::Inspect => bot.step(Event::Node(info(tree, *stack.last().unwrap())), cancelled),
            Action::Make(m) => {
                let cur = *stack.last().unwrap();
                let child = tree[cur]
                    .moves
                    .iter()
                    .chain(tree[cur].captures.iter())
                    .find(|p| p.0 == m)
                    .expect("the search makes listed moves only")
                    .1;
                stack.push(child);
                makes += 1;
                max_stack = max_stack.max(stack.len());
                let cancelled = match cancel_after {
                    Some(k) => makes >= k,
                    None => false,
                };
                bot.step(Event::Node(info(tree, child)), cancelled)
            }
            Action::Unmake => {
                stack.pop();
                unmakes += 1;
                bot.step(Event::Resume, cancelled)
            }
            Action::Report(r) => {
                assert_eq!(stack.len(), 1, "reports come with the board at the root");
                reports.push(r);
                bot.step(Event::Resume, cancelled)
            }
            done => {
                assert_eq!(stack.len(), 1);
                return Run { reports, last: done, makes, unmakes, max_stack };
            }
        };
    }
}

/// Root (White to move): `a` leads to a quiet position with one reply,
/// `mate` leads to a position where Black is mated.
fn mate_in_one_tree() -> (Vec<TreeNode>, Move, Move) {
    let a = quiet(0, 1);
    let mate = quiet(0, 56);
    let reply = quiet(60, 59);
    let tree = vec![
        TreeNode { pos: kings(Color::White), in_check: false, is_draw: false, moves: vec![(a, 1), (mate, 2)], captures: vec![] },
        TreeNode { pos: kings(Color::Black), in_check: false, is_draw: false, moves: vec![(reply, 3)], captures: vec![] },
        leaf(kings(Color::Black), true),
        leaf(kings(Color::White), false),
    ];
    (tree, a, mate)
}

#[test]
fn mate_in_one_found_at_every_depth() {
    let (tree, _a, mate) = mate_in_one_tree();
    let mut bot = GiffiBot::new(tree[0].pos);
    let run = drive(&mut bot, &tree, 3, None);
    assert_eq!(run.reports.len(), 3);
    for (i, r) in run.reports.iter().enumerate() {
        assert_eq!(r.depth, i + 1);
        assert_eq!(r.score, SCORE_MAX - 1);
        assert_eq!(r.pv[0], mate);
    }
    assert!(matches!(run.last, Action::BestMove(m) if m == mate));
    assert_eq!(bot.completed_depth(), 3);
    assert_eq!(run.makes, run.unmakes);
}

#[test]
fn mate_score_seen_from_black() {
    // Same tree with Black to move at the root: White-relative score flips.
    let (mut tree, _a, mate) = mate_in_one_tree();
    tree[0].pos.turn = Color::Black;
    let mut bot = GiffiBot::new(tree[0].pos);
    let run = drive(&mut bot, &tree, 1, None);
    assert_eq!(run.reports[0].score, -(SCORE_MAX - 1));
    assert!(matches!(run.last, Action::BestMove(m) if m == mate));
}

#[test]
fn stalemate_scores_zero_and_gives_no_move() {
    // 7k/5Q2/6K1/8/8/8/8/8 b - - 0 1: Black has no legal move and is not in check.
    let pos = position(
        &[(Color::Black, PieceType::King, 63), (Color::White, PieceType::Queen, 53), (Color::White, PieceType::King, 46)],
        Color::Black,
    );
    let tree = vec![leaf(pos, false)];
    let mut bot = GiffiBot::new(pos);
    let run = drive(&mut bot, &tree, 4, None);
    assert_eq!(run.reports.len(), 1);
    assert_eq!(run.reports[0].score, 0);
    assert!(run.reports[0].pv.is_empty());
    assert!(matches!(run.last, Action::NoMove));
}

#[test]
fn checkmated_root_gives_no_move() {
    let tree = vec![leaf(kings(Color::White), true)];
    let mut bot = GiffiBot::new(tree[0].pos);
    let run = drive(&mut bot, &tree, 2, None);
    assert_eq!(run.reports[0].score, -SCORE_MAX);
    assert!(matches!(run.last, Action::NoMove));
}

#[test]
fn cancelled_before_any_depth_gives_no_move() {
    let (tree, _a, _mate) = mate_in_one_tree();
    let mut bot = GiffiBot::new(tree[0].pos);
    let run = drive(&mut bot, &tree, 5, Some(0));
    assert!(run.reports.is_empty());
    assert!(matches!(run.last, Action::NoMove));
    assert_eq!(bot.completed_depth(), 0);
    assert_eq!(run.makes, run.unmakes);
}

#[test]
fn cancellation_keeps_last_completed_depth() {
    let (tree, _a, mate) = mate_in_one_tree();
    let mut full = GiffiBot::new(tree[0].pos);
    let first = drive(&mut full, &tree, 1, None);
    let mut bot = GiffiBot::new(tree[0].pos);
    // Cancel during the second iteration.
    let run = drive(&mut bot, &tree, 5, Some(first.makes + 1));
    assert_eq!(run.reports.len(), 1);
    assert_eq!(bot.completed_depth(), 1);
    assert!(matches!(run.last, Action::BestMove(m) if m == mate));
    assert_eq!(run.makes, run.unmakes);
}

#[test]
fn depth_zero_gives_no_move() {
    let (tree, _a, _mate) = mate_in_one_tree();
    let mut bot = GiffiBot::new(tree[0].pos);
    assert!(matches!(bot.go_depth(0), Action::NoMove));
}

#[test]
fn node_counts_grow_with_depth() {
    // A two-by-two tree three plies deep.
    let mut tree: Vec<TreeNode> = Vec::new();
    let turn = |d: usize| if d % 2 == 0 { Color::White } else { Color::Black };
    fn build(tree: &mut Vec<TreeNode>, d: usize, turn: &dyn Fn(usize) -> Color) -> usize {
        let idx = tree.len();
        tree.push(leaf(kings(turn(d)), false));
        if d < 3 {
            let c1 = build(tree, d + 1, turn);
            let c2 = build(tree, d + 1, turn);
            tree[idx].moves = vec![(quiet(4, 5), c1), (quiet(4, 3), c2)];
        }
        idx
    }
    build(&mut tree, 0, &turn);
    let mut bot = GiffiBot::new(tree[0].pos);
    let run = drive(&mut bot, &tree, 3, None);
    assert_eq!(run.reports.len(), 3);
    for w in run.reports.windows(2) {
        assert!(w[1].nodes > w[0].nodes);
        assert_eq!(w[1].depth, w[0].depth + 1);
    }
    assert!(matches!(run.last, Action::BestMove(_)));
    assert_eq!(run.makes, run.unmakes);
    assert_eq!(bot.iterations(), run.reports[2].nodes);
    assert!(run.max_stack <= 4);
}

#[test]
fn quiescence_takes_a_free_queen() {
    // White to move can capture an undefended black queen: depth 1 sees it.
    let root = position(
        &[(Color::White, PieceType::King, 4), (Color::Black, PieceType::King, 60), (Color::White, PieceType::Rook, 0), (Color::Black, PieceType::Queen, 56)],
        Color::White,
    );
    let after = position(&[(Color::White, PieceType::King, 4), (Color::Black, PieceType::King, 60), (Color::White, PieceType::Rook, 56)], Color::Black);
    let after_quiet = position(
        &[(Color::White, PieceType::King, 4), (Color::Black, PieceType::King, 60), (Color::White, PieceType::Rook, 1), (Color::Black, PieceType::Queen, 56)],
        Color::Black,
    );
    let take = Move { from: 0, to: 56, flag: MoveFlag::Capture };
    let slide = quiet(0, 1);
    let tree = vec![
        TreeNode { pos: root, in_check: false, is_draw: false, moves: vec![(slide, 2), (take, 1)], captures: vec![(take, 1)] },
        leaf(after, false),
        leaf(after_quiet, false),
    ];
    let mut bot = GiffiBot::new(root);
    let run = drive(&mut bot, &tree, 1, None);
    assert!(matches!(run.last, Action::BestMove(m) if m == take));
    assert_eq!(run.reports[0].score, -after.evaluate());
}

#[test]
fn timer_decisions() {
    assert_eq!(timer_step(true, 0, 50), TimerStep::Stop);
    assert_eq!(timer_step(false, 49, 50), TimerStep::Sleep);
    assert_eq!(timer_step(false, 50, 50), TimerStep::Expire);
    assert_eq!(timer_step(false, 80, 50), TimerStep::Expire);
}

#[test]
fn extension_rules() {
    let bot = GiffiBot::new(kings(Color::White));
    let promo = Move { from: 52, to: 60, flag: MoveFlag::PromoteQueen };
    let plain = quiet(4, 5);
    assert_eq!(bot.get_extension(promo, 0), 1);
    assert_eq!(bot.get_extension(plain, 0), 0);
    assert_eq!(bot.get_extension(promo, 16), 0);
    assert_eq!(bot.get_extension(promo, 15), 1);
}
