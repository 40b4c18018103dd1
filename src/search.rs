use vstd::prelude::*;
use std::collections::VecDeque;
use crate::ordering::{all_valid, order_moves, ordered};
use crate::piece::{Color, Move, MoveFlag};
use crate::position::Position;
use crate::value::{evaluation, SQUARE_SCORE_BOUND};

verus! {

/// Largest score; a mate scores `-SCORE_MAX + ply` for the mated side.
pub const SCORE_MAX: i32 = 2147483647;

/// Deepest iteration that `go_depth` runs.
pub const MAX_DEPTH: usize = 256;

/// Most extensions granted along one path from the root.
pub const MAX_MOVE_EXTENSIONS: u8 = 15;

/// Penalty for castling on the principal branch.
pub const CASTLE_PENALTY: i32 = 80;

/// What the driver reports about the position it stands on.
#[derive(Debug, Clone)]
pub struct NodeInfo {
    pub position: Position,
    /// The side to move is in check.
    pub in_check: bool,
    /// Repetition, fifty-move rule or insufficient material.
    pub is_draw: bool,
    pub legal_moves: Vec<Move>,
    pub legal_captures: Vec<Move>,
}

impl NodeInfo {
    pub open spec fn valid(&self) -> bool {
        all_valid(self.legal_moves@) && all_valid(self.legal_captures@)
    }
}

/// What the driver hands back after carrying out an action.
pub enum Event {
    /// After `Make` or `Inspect`: the position now stood on.
    Node(NodeInfo),
    /// After `Unmake` or `Report`.
    Resume,
}

/// One completed iteration.
#[derive(Debug, Clone)]
pub struct SearchReport {
    pub depth: usize,
    /// Centipawns from White's point of view.
    pub score: i32,
    /// Moves made so far in this search.
    pub nodes: u64,
    /// Principal variation; its first move is the current best move.
    pub pv: Vec<Move>,
}

/// What the search asks its driver to do next.
pub enum Action {
    /// Play this move on the board, then describe the new position.
    Make(Move),
    /// Take back the last move, then resume.
    Unmake,
    /// Describe the current position again.
    Inspect,
    /// Publish a completed iteration, then resume.
    Report(SearchReport),
    /// The search is over; this is its move.
    BestMove(Move),
    /// The search is over without a move: the root has no legal move (its
    /// score was reported), or no iteration completed.
    NoMove,
}

/// Which search a frame runs.
#[derive(Debug, Clone, Copy, PartialEq, Eq, Structural)]
pub enum Mode {
    /// Principal-variation search over the window `[alpha, beta]`.
    Principal,
    /// Zero-window probe: does the position reach `beta`?
    Scout,
    /// Captures-only search.
    Quiesce,
}

/// Which child search of a principal frame is outstanding.
#[derive(Debug, Clone, Copy, PartialEq, Eq, Structural)]
pub enum Probe {
    First,
    Scout,
    Research,
}

/// A search to start on the next position the driver describes.
#[derive(Debug, Clone, Copy, PartialEq, Eq, Structural)]
pub struct Call {
    pub mode: Mode,
    pub alpha: i32,
    pub beta: i32,
    pub depth: i32,
    pub ply: i32,
    pub ext: u8,
    /// The move that led to the position may extend the search.
    pub extend: bool,
    pub via: Move,
}

/// Where the engine stands in its exchange with the driver.
#[derive(Debug, Clone, Copy, PartialEq, Eq, Structural)]
pub enum Stage {
    Idle,
    AwaitNode,
    AfterUnmake,
    AfterReport,
    Done,
}

/// The search state of one frame of the recursion.
pub struct Frame {
    pub mode: Mode,
    pub alpha: i32,
    pub beta: i32,
    pub depth: i32,
    pub ply: i32,
    pub ext: u8,
    pub moves: Vec<Move>,
    /// Index of the move being searched.
    pub next: usize,
    /// No move has raised alpha yet.
    pub first: bool,
    pub line: VecDeque<Move>,
    pub probe: Probe,
    /// Score of the current move once its search came back.
    pub score: i32,
}

/// Outcome of a step inside the recursion: an action for the driver, or the
/// value the current search returns to its caller.
enum Flow {
    Emit(Action),
    Return(i32),
}

/// A score that can be negated without overflow.
pub open spec fn in_range(v: int) -> bool {
    -SCORE_MAX <= v <= SCORE_MAX
}

/// A pending search has a proper window, a remaining depth, at most 16
/// extensions, and has not gone deeper than the iteration allows.
pub open spec fn call_ok(c: Call, root_depth: int) -> bool {
    &&& -SCORE_MAX <= c.alpha < c.beta <= SCORE_MAX
    &&& 0 <= c.depth
    &&& c.ext <= 16
    &&& 0 <= c.ply
    &&& c.ply + c.depth <= root_depth + c.ext
}

/// A running search frame: proper window, a move under search, and the
/// same depth accounting as `call_ok`.
pub open spec fn frame_ok(f: Frame, root_depth: int) -> bool {
    &&& -SCORE_MAX <= f.alpha < f.beta <= SCORE_MAX
    &&& in_range(f.score as int)
    &&& f.next < f.moves@.len()
    &&& all_valid(f.moves@)
    &&& f.ext <= 16
    &&& 0 <= f.ply
    &&& 0 <= f.depth
    &&& (f.mode != Mode::Quiesce ==> 1 <= f.depth)
    &&& f.ply + f.depth <= root_depth + f.ext
}

/// The move each frame is searching.
pub open spec fn current_moves(frames: Seq<Frame>) -> Seq<Move> {
    frames.map_values(|f: Frame| f.moves@[f.next as int])
}

proof fn lemma_current_push(frames: Seq<Frame>, f: Frame)
    ensures
        current_moves(frames.push(f)) == current_moves(frames).push(f.moves@[f.next as int]),
{
    assert(current_moves(frames.push(f)) =~= current_moves(frames).push(f.moves@[f.next as int]));
}

proof fn lemma_current_replace_top(before: Seq<Frame>, f: Frame)
    requires
        before.len() > 0,
        f.moves@ == before.last().moves@,
        f.next == before.last().next,
    ensures
        current_moves(before.drop_last().push(f)) == current_moves(before),
{
    assert(current_moves(before.drop_last().push(f)) =~= current_moves(before));
}

/// A value handed to frames whose top line was just rewritten is handed as
/// if the rewrite belonged to the hand-over.
proof fn lemma_handed_through_line(
    below: Seq<Frame>,
    mid: GiffiBot,
    v: int,
    set: Option<Seq<Move>>,
    cancelled: bool,
    line: Seq<Move>,
    r: Action,
    fin: GiffiBot,
)
    requires
        frames_after_line(below, mid.spec_frames(), set),
        mid.spec_line() == (if below.len() == 0 { line_after(set, line) } else { line }),
        handed(mid.spec_frames(), v, None, cancelled, mid.spec_line(), r, fin),
    ensures
        handed(below, v, set, cancelled, line, r, fin),
{
    if below.len() > 0 {
        let t = below.last();
        let m = mid.spec_frames().last();
        assert(research(m, v) == research(t, v));
        assert(received(m, v) == received(t, v));
        assert(fin.spec_frames().drop_last() == below.drop_last());
    }
}

proof fn lemma_current_drop(frames: Seq<Frame>)
    requires
        frames.len() > 0,
    ensures
        current_moves(frames.drop_last()) == current_moves(frames).drop_last(),
{
    assert(current_moves(frames.drop_last()) =~= current_moves(frames).drop_last());
}

/// Remaining depth of a node: the call's depth plus the extension of the
/// move that led to it.
pub open spec fn node_depth(c: Call, info: NodeInfo) -> int {
    c.depth + if c.extend { extension(info.in_check, c.via, c.ext) as int } else { 0 }
}

/// The search a node actually runs: at depth 0 the main search and the
/// probe hand over to quiescence.
pub open spec fn node_mode(c: Call, info: NodeInfo) -> Mode {
    if c.mode != Mode::Quiesce && node_depth(c, info) == 0 { Mode::Quiesce } else { c.mode }
}

/// The moves a node searches: captures in quiescence, all legal moves
/// otherwise.
pub open spec fn node_moves(c: Call, info: NodeInfo) -> Seq<Move> {
    if node_mode(c, info) == Mode::Quiesce { info.legal_captures@ } else { info.legal_moves@ }
}

pub open spec fn max_of(a: int, b: int) -> int {
    if a >= b { a } else { b }
}

/// The value a node returns without making a move, or `None` when it
/// searches its moves:
/// - cancelled: 0;
/// - main search: 0 on a draw; with no legal move `-SCORE_MAX + ply` in
///   check and 0 in stalemate;
/// - zero-window probe with no legal move: `beta - 1`;
/// - quiescence: `beta` when the stand-pat score reaches it, else with no
///   capture the larger of alpha and the stand-pat score.
pub open spec fn node_value(c: Call, info: NodeInfo, cancelled: bool) -> Option<int> {
    if cancelled {
        Some(0)
    } else {
        match node_mode(c, info) {
            Mode::Principal => if info.is_draw {
                Some(0)
            } else if info.legal_moves@.len() == 0 {
                Some(if info.in_check { -SCORE_MAX + c.ply } else { 0 })
            } else {
                None
            },
            Mode::Scout => if info.legal_moves@.len() == 0 { Some(c.beta - 1) } else { None },
            Mode::Quiesce => if evaluation(info.position) >= c.beta {
                Some(c.beta as int)
            } else if info.legal_captures@.len() == 0 {
                Some(max_of(c.alpha as int, evaluation(info.position)))
            } else {
                None
            },
        }
    }
}

/// Alpha of a node that searches its moves (quiescence raises it to the
/// stand-pat score).
pub open spec fn node_alpha(c: Call, info: NodeInfo) -> int {
    if node_mode(c, info) == Mode::Quiesce { max_of(c.alpha as int, evaluation(info.position)) } else { c.alpha as int }
}

/// A main search that reaches depth 0 clears the line it reports into.
pub open spec fn node_clears_line(c: Call, info: NodeInfo, cancelled: bool) -> bool {
    !cancelled && c.mode == Mode::Principal && node_depth(c, info) == 0
}

/// The search a frame starts for its current move.
pub open spec fn child_call(f: Frame) -> Call {
    let m = f.moves@[f.next as int];
    match f.mode {
        Mode::Principal => if f.first {
            Call { mode: Mode::Principal, alpha: (-f.beta) as i32, beta: (-f.alpha) as i32, depth: (f.depth - 1) as i32,
                ply: (f.ply + 1) as i32, ext: f.ext, extend: true, via: m }
        } else {
            Call { mode: Mode::Scout, alpha: (-f.alpha - 1) as i32, beta: (-f.alpha) as i32, depth: (f.depth - 1) as i32,
                ply: (f.ply + 1) as i32, ext: f.ext, extend: false, via: m }
        },
        Mode::Scout => Call { mode: Mode::Scout, alpha: (-f.beta) as i32, beta: (1 - f.beta) as i32, depth: (f.depth - 1) as i32,
            ply: (f.ply + 1) as i32, ext: f.ext, extend: false, via: m },
        Mode::Quiesce => Call { mode: Mode::Quiesce, alpha: (-f.beta) as i32, beta: (-f.alpha) as i32, depth: 0,
            ply: f.ply, ext: f.ext, extend: false, via: m },
    }
}

/// The probe outstanding once a frame starts the search of its current move.
pub open spec fn child_probe(f: Frame) -> Probe {
    match f.mode {
        Mode::Principal => if f.first { Probe::First } else { Probe::Scout },
        Mode::Scout => Probe::Scout,
        Mode::Quiesce => Probe::First,
    }
}

/// A principal frame whose zero-window probe returned `v` re-searches with
/// the full window when the probe beat alpha.
pub open spec fn research(t: Frame, v: int) -> bool {
    t.mode == Mode::Principal && t.probe == Probe::Scout && -v > t.alpha
}

pub open spec fn research_call(t: Frame) -> Call {
    Call { mode: Mode::Principal, alpha: (-t.beta) as i32, beta: (-t.alpha) as i32, depth: (t.depth - 1) as i32,
        ply: (t.ply + 1) as i32, ext: t.ext, extend: true, via: t.moves@[t.next as int] }
}

/// Score a frame gives its current move when the move's search returned
/// `v`: negated, less the castling penalty on the first principal move.
pub open spec fn received(t: Frame, v: int) -> int {
    if t.mode == Mode::Principal && t.probe == Probe::First {
        castle_adjusted(-v, t.moves@[t.next as int])
    } else {
        -v
    }
}

/// Value a frame returns when its move's score cuts it off: 0 for a
/// cancelled main search, `beta` at or above beta.
pub open spec fn resume_cut(f: Frame, cancelled: bool) -> Option<int> {
    if f.mode == Mode::Principal && cancelled {
        Some(0)
    } else if f.score >= f.beta {
        Some(f.beta as int)
    } else {
        None
    }
}

/// Alpha after a move's score came back (without cut-off).
pub open spec fn raised_alpha(f: Frame) -> int {
    if f.mode != Mode::Scout && f.score > f.alpha { f.score as int } else { f.alpha as int }
}

pub open spec fn raised_first(f: Frame) -> bool {
    if f.mode == Mode::Principal && f.score > f.alpha { false } else { f.first }
}

/// A principal frame puts a move that raised alpha in front of its line.
pub open spec fn raised_line(f: Frame) -> Seq<Move> {
    if f.mode == Mode::Principal && f.score > f.alpha { seq![f.moves@[f.next as int]] + f.line@ } else { f.line@ }
}

/// Value a frame returns once its moves are exhausted.
pub open spec fn end_value(mode: Mode, alpha: int, beta: int) -> int {
    match mode {
        Mode::Scout => beta - 1,
        _ => alpha,
    }
}

pub open spec fn line_after(set: Option<Seq<Move>>, line: Seq<Move>) -> Seq<Move> {
    match set {
        Some(l) => l,
        None => line,
    }
}

/// Fields a frame keeps while its line is rewritten.
pub open spec fn same_frame_core(a: Frame, b: Frame) -> bool {
    &&& a.mode == b.mode
    &&& a.alpha == b.alpha
    &&& a.beta == b.beta
    &&& a.depth == b.depth
    &&& a.ply == b.ply
    &&& a.ext == b.ext
    &&& a.moves@ == b.moves@
    &&& a.next == b.next
    &&& a.first == b.first
}

/// `new` is `old` with the top frame's line set as `set` says.
pub open spec fn frames_after_line(old: Seq<Frame>, new: Seq<Frame>, set: Option<Seq<Move>>) -> bool {
    &&& new.len() == old.len()
    &&& old.len() > 0 ==> {
        &&& new.drop_last() == old.drop_last()
        &&& same_frame_core(new.last(), old.last())
        &&& new.last().probe == old.last().probe
        &&& new.last().score == old.last().score
        &&& new.last().line@ == line_after(set, old.last().line@)
    }
}

pub open spec fn white_score(v: int, turn: Color) -> int {
    match turn {
        Color::White => v,
        Color::Black => -v,
    }
}

/// The frame on top of `fin` was just opened on `moves` and makes its first
/// move `m`.
pub open spec fn opened(fin: GiffiBot, below: Seq<Frame>, mode: Mode, alpha: int, beta: int, moves: Seq<Move>, r: Action) -> bool {
    let t = fin.spec_frames().last();
    &&& fin.spec_frames().len() == below.len() + 1
    &&& fin.spec_frames().drop_last() == below
    &&& t.mode == mode && t.alpha == alpha && t.beta == beta
    &&& t.moves@ == moves
    &&& t.next == 0 && t.first && t.line@.len() == 0
    &&& t.probe == child_probe(t)
    &&& r == Action::Make(moves[0])
    &&& fin.spec_pending() == child_call(t)
    &&& fin.spec_stage() == Stage::AwaitNode
}

/// Value `v` came back to the frames `below`, with the line of the frame
/// it came back to (or of the iteration) set as `set` says.
pub open spec fn handed(below: Seq<Frame>, v: int, set: Option<Seq<Move>>, cancelled: bool, line: Seq<Move>, r: Action, fin: GiffiBot) -> bool {
    if below.len() == 0 {
        &&& cancelled ==> (r is BestMove || r is NoMove)
        &&& !cancelled ==> r is Report && r->Report_0.score == white_score(v, fin.spec_root_turn())
            && r->Report_0.pv@ == line_after(set, line) && r->Report_0.nodes == fin.spec_iterations()
    } else {
        let t = below.last();
        let u = fin.spec_frames().last();
        &&& fin.spec_frames().len() == below.len()
        &&& fin.spec_frames().drop_last() == below.drop_last()
        &&& same_frame_core(u, t)
        &&& u.line@ == line_after(set, t.line@)
        &&& if research(t, v) {
            &&& r is Inspect
            &&& u.probe == Probe::Research
            &&& fin.spec_pending() == research_call(t)
        } else {
            &&& r is Unmake
            &&& u.probe == t.probe
            &&& u.score == received(t, v)
        }
    }
}

/// The extension a move earns: one ply when the side to move after it is
/// in check or when it promotes to a queen, unless the path has already
/// had more than `MAX_MOVE_EXTENSIONS`.
pub open spec fn extension(in_check: bool, m: Move, count: u8) -> u8 {
    if count > MAX_MOVE_EXTENSIONS {
        0
    } else if in_check || m.flag == MoveFlag::PromoteQueen {
        1
    } else {
        0
    }
}

/// The extension a move earns (see `extension`).
pub fn move_extension(in_check: bool, chess_move: Move, extension_count: u8) -> (r: u8)
    ensures
        r == extension(in_check, chess_move, extension_count),
{
    if extension_count > MAX_MOVE_EXTENSIONS {
        return 0;
    }
    if in_check {
        return 1;
    }
    if chess_move.flag == MoveFlag::PromoteQueen {
        return 1;
    }
    0
}

/// Score of a principal-branch move after the castling penalty, kept in
/// range.
pub open spec fn castle_adjusted(s: int, m: Move) -> int {
    if m.flag == MoveFlag::Castle {
        if s - CASTLE_PENALTY < -SCORE_MAX { -SCORE_MAX as int } else { s - CASTLE_PENALTY }
    } else {
        s
    }
}

fn castle_bias(s: i32, m: Move) -> (r: i32)
    requires
        in_range(s as int),
    ensures
        r == castle_adjusted(s as int, m),
        in_range(r as int),
{
    if m.flag == MoveFlag::Castle {
        if s < -SCORE_MAX + CASTLE_PENALTY {
            -SCORE_MAX
        } else {
            s - CASTLE_PENALTY
        }
    } else {
        s
    }
}

/// Decision of the search timer after one sleep: stop watching once the
/// search was stopped, cancel it once the budget is spent, else sleep on.
#[derive(Debug, Clone, Copy, PartialEq, Eq, Structural)]
pub enum TimerStep {
    Stop,
    Expire,
    Sleep,
}

/// What the timer does after a sleep, given whether the search is already
/// cancelled and how much of the budget has gone.
pub fn timer_step(cancelled: bool, elapsed_ms: u64, budget_ms: u64) -> (r: TimerStep)
    ensures
        r == (if cancelled {
            TimerStep::Stop
        } else if elapsed_ms >= budget_ms {
            TimerStep::Expire
        } else {
            TimerStep::Sleep
        }),
{
    if cancelled {
        TimerStep::Stop
    } else if elapsed_ms >= budget_ms {
        TimerStep::Expire
    } else {
        TimerStep::Sleep
    }
}

/// The first search of iteration `depth`: the full window at the root.
pub open spec fn root_call_spec(depth: int) -> Call {
    Call {
        mode: Mode::Principal,
        alpha: (-SCORE_MAX) as i32,
        beta: SCORE_MAX,
        depth: depth as i32,
        ply: 0,
        ext: 0,
        extend: false,
        via: Move { from: 0, to: 0, flag: MoveFlag::Quiet },
    }
}

/// What `step` does with the description `info` of the position reached
/// by the pending search: the node either returns a value at once, which
/// goes to the frame below (or ends the iteration), or opens a frame on its
/// ordered moves and makes the first of them.
pub open spec fn node_step(old: GiffiBot, info: NodeInfo, cancelled: bool, r: Action, fin: GiffiBot) -> bool {
    let c = old.spec_pending();
    let eff = if node_clears_line(c, info, cancelled) { Some(Seq::<Move>::empty()) } else { None };
    let line = if old.spec_frames().len() == 0 { Seq::<Move>::empty() } else { old.spec_line() };
    &&& old.spec_frames().len() == 0 ==> fin.spec_root_turn() == info.position.turn
        && fin.spec_root_has_moves() == (info.legal_moves@.len() > 0)
    &&& match node_value(c, info, cancelled) {
        Some(v) => handed(old.spec_frames(), v, eff, cancelled, line, r, fin),
        None => {
            &&& frames_after_line(old.spec_frames(), fin.spec_frames().drop_last(), eff)
            &&& opened(fin, fin.spec_frames().drop_last(), node_mode(c, info), node_alpha(c, info), c.beta as int,
                ordered(info.position, node_moves(c, info), old.spec_pv()), r)
            &&& fin.spec_iterations() == old.spec_iterations().saturating_add(1)
        },
    }
}

/// What `step` does once the top frame's move was taken back: the score
/// of the move cuts the frame off (beta, or 0 when cancelled), or raises
/// alpha and the line, and the frame makes its next move or returns.
pub open spec fn resume_step(old: GiffiBot, cancelled: bool, r: Action, fin: GiffiBot) -> bool {
    let f = old.spec_frames().last();
    let below = old.spec_frames().drop_last();
    match resume_cut(f, cancelled) {
        Some(v) => handed(below, v, None, cancelled, old.spec_line(), r, fin),
        None => if f.next + 1 < f.moves@.len() {
            let t = fin.spec_frames().last();
            &&& r == Action::Make(f.moves@[f.next + 1])
            &&& fin.spec_frames().len() == old.spec_frames().len()
            &&& fin.spec_frames().drop_last() == below
            &&& t.mode == f.mode && t.beta == f.beta && t.depth == f.depth && t.ply == f.ply && t.ext == f.ext
            &&& t.moves@ == f.moves@
            &&& t.next == f.next + 1
            &&& t.alpha == raised_alpha(f)
            &&& t.first == raised_first(f)
            &&& t.line@ == raised_line(f)
            &&& t.probe == child_probe(t)
            &&& fin.spec_pending() == child_call(t)
            &&& fin.spec_iterations() == old.spec_iterations().saturating_add(1)
        } else {
            handed(below, end_value(f.mode, raised_alpha(f), f.beta as int),
                if f.mode == Mode::Principal { Some(raised_line(f)) } else { None }, cancelled, old.spec_line(), r, fin)
        },
    }
}

/// What `step` does after a report: the next depth starts at the root,
/// or, with every depth done or no legal move at the root, the search ends
/// with the head of the best line, if there is one.
pub open spec fn report_step(old: GiffiBot, r: Action, fin: GiffiBot) -> bool {
    if old.spec_completed_depth() < old.spec_max_depth() && old.spec_root_has_moves() {
        r is Inspect && fin.spec_pending() == root_call_spec(old.spec_completed_depth() + 1)
    } else {
        &&& r is BestMove || r is NoMove
        &&& r is BestMove <==> old.spec_best_line().len() > 0
    }
}

/// Iterative-deepening principal-variation search, run as a state machine.
///
/// The engine never touches a board: each call of `step` hands it what the
/// driver learnt about the current position and returns the next thing to
/// do (make a move, take it back, describe the position, publish an
/// iteration, or finish). The driver also passes the cancellation flag with
/// every step; once it is seen set, the iteration in flight is dropped and
/// the last completed one stands.
pub struct GiffiBot {
    board: Position,
    in_check: bool,
    iterations: u64,
    completed_depth: usize,
    pv: VecDeque<Move>,
    best_line: VecDeque<Move>,
    line: VecDeque<Move>,
    frames: Vec<Frame>,
    pending: Call,
    stage: Stage,
    depth: usize,
    max_depth: usize,
    root_turn: Color,
    root_has_moves: bool,
}

impl GiffiBot {
    /// Every frame is well formed, with the depth accounting of the current
    /// iteration; a best line exists only after a completed iteration.
    pub open spec fn frames_ok(&self) -> bool {
        &&& self.spec_depth() <= self.spec_max_depth() <= MAX_DEPTH
        &&& forall|i: int| 0 <= i < self.spec_frames().len() ==> frame_ok(#[trigger] self.spec_frames()[i], self.spec_depth() as int)
        &&& (self.spec_has_best() ==> self.spec_completed_depth() >= 1)
        &&& (self.spec_frames().len() > 0 ==> 1 <= self.spec_depth())
    }

    pub closed spec fn spec_has_best(&self) -> bool {
        self.best_line@.len() > 0
    }

    /// Principal variation of the last reported iteration.
    pub closed spec fn spec_best_line(&self) -> Seq<Move> {
        self.best_line@
    }

    /// The engine's invariant: well-formed frames, a well-formed pending
    /// search while it waits for a position, and iteration bookkeeping that
    /// matches the stage.
    pub open spec fn wf(&self) -> bool {
        &&& self.frames_ok()
        &&& (self.spec_stage() == Stage::AwaitNode ==> call_ok(self.spec_pending(), self.spec_depth() as int))
        &&& (self.spec_stage() == Stage::AwaitNode && self.spec_pending().mode == Mode::Scout ==>
                self.spec_pending().alpha == self.spec_pending().beta - 1)
        &&& (self.spec_stage() == Stage::AwaitNode && self.spec_frames().len() == 0 ==>
                self.spec_pending().mode == Mode::Principal && self.spec_pending().ply == 0
                && !self.spec_pending().extend && 1 <= self.spec_depth())
        &&& (self.spec_stage() == Stage::AfterUnmake ==> self.spec_frames().len() > 0)
        &&& (self.spec_stage() == Stage::AfterReport ==> self.spec_frames().len() == 0 && 1 <= self.spec_depth())
        &&& (self.spec_stage() == Stage::AwaitNode || self.spec_stage() == Stage::AfterUnmake ==>
                self.spec_depth() == self.spec_completed_depth() + 1)
        &&& (self.spec_stage() == Stage::AfterReport ==> self.spec_depth() == self.spec_completed_depth())
    }

    pub closed spec fn spec_frames(&self) -> Seq<Frame> {
        self.frames@
    }

    /// The moves the search has asked the driver to make and not yet to
    /// take back, oldest first.
    pub open spec fn made_line(&self) -> Seq<Move> {
        if self.spec_stage() == Stage::AfterUnmake {
            current_moves(self.spec_frames()).drop_last()
        } else {
            current_moves(self.spec_frames())
        }
    }

    pub closed spec fn spec_stage(&self) -> Stage {
        self.stage
    }

    pub closed spec fn spec_pending(&self) -> Call {
        self.pending
    }

    pub closed spec fn spec_depth(&self) -> usize {
        self.depth
    }

    pub closed spec fn spec_max_depth(&self) -> usize {
        self.max_depth
    }

    pub closed spec fn spec_completed_depth(&self) -> usize {
        self.completed_depth
    }

    /// The position the driver last described.
    pub closed spec fn spec_board(&self) -> Position {
        self.board
    }

    pub closed spec fn spec_iterations(&self) -> u64 {
        self.iterations
    }

    /// The root of the running search has a legal move.
    pub closed spec fn spec_root_has_moves(&self) -> bool {
        self.root_has_moves
    }

    pub closed spec fn spec_root_turn(&self) -> Color {
        self.root_turn
    }

    /// The principal-variation hint that ordering consumes.
    pub closed spec fn spec_pv(&self) -> Seq<Move> {
        self.pv@
    }

    /// The line the running iteration's root search reports into.
    pub closed spec fn spec_line(&self) -> Seq<Move> {
        self.line@
    }

    pub closed spec fn spec_in_check(&self) -> bool {
        self.in_check
    }

    /// The event that the next `step` must bring.
    pub open spec fn accepts(&self, event: Event) -> bool {
        match event {
            Event::Node(info) => self.spec_stage() == Stage::AwaitNode && info.valid(),
            Event::Resume => self.spec_stage() == Stage::AfterUnmake || self.spec_stage() == Stage::AfterReport,
        }
    }

    /// An engine standing on `board`, with no search run yet.
    pub fn new(board: Position) -> (r: Self)
        ensures
            r.wf(),
            r.spec_stage() == Stage::Idle,
            r.spec_completed_depth() == 0,
            r.spec_board() == board,
    {
        GiffiBot {
            board,
            in_check: false,
            iterations: 0,
            completed_depth: 0,
            pv: VecDeque::new(),
            best_line: VecDeque::new(),
            line: VecDeque::new(),
            frames: Vec::new(),
            pending: root_call(1),
            stage: Stage::Idle,
            depth: 0,
            max_depth: 0,
            root_turn: Color::White,
            root_has_moves: true,
        }
    }

    /// The position the driver last described.
    pub fn board(&self) -> (r: Position)
        ensures
            r == self.spec_board(),
    {
        self.board
    }

    /// The next `step` must bring a node description.
    pub fn expects_node(&self) -> (r: bool)
        ensures
            r == (self.spec_stage() == Stage::AwaitNode),
    {
        self.stage == Stage::AwaitNode
    }

    /// The next `step` must bring `Event::Resume`.
    pub fn expects_resume(&self) -> (r: bool)
        ensures
            r == (self.spec_stage() == Stage::AfterUnmake || self.spec_stage() == Stage::AfterReport),
    {
        self.stage == Stage::AfterUnmake || self.stage == Stage::AfterReport
    }

    /// Deepest iteration completed by the last search.
    pub fn completed_depth(&self) -> (r: usize)
        ensures
            r == self.spec_completed_depth(),
    {
        self.completed_depth
    }

    /// Moves made by the last search.
    pub fn iterations(&self) -> (r: u64)
        ensures
            r == self.spec_iterations(),
    {
        self.iterations
    }

    /// Best line of the last completed iteration.
    pub fn principal_variation(&self) -> (r: Vec<Move>)
        ensures
            r@ == self.spec_best_line(),
    {
        deque_to_vec(&self.best_line)
    }

    /// Static evaluation of the current position, from the side to move's
    /// point of view.
    pub fn evaluate(&self) -> (r: i32)
        ensures
            r == evaluation(self.spec_board()),
    {
        self.board.evaluate()
    }

    /// The current position counts as an endgame.
    pub fn is_end_game(&self) -> (r: bool)
        ensures
            r == crate::value::endgame(self.spec_board()),
    {
        self.board.is_end_game()
    }

    /// Another pawn of `color` stands on the file of `square`.
    pub fn contains_multiple_pawns_this_file(&self, color: Color, square: i32) -> (r: bool)
        requires
            0 <= square < 64,
        ensures
            r == crate::value::doubled(self.spec_board(), color, square as u64),
    {
        self.board.contains_multiple_pawns_this_file(color, square)
    }

    /// No enemy pawn can stop a pawn of `color` on `square`.
    pub fn is_passed_pawn(&self, color: Color, square: i32) -> (r: bool)
        requires
            0 <= square < 64,
        ensures
            r == crate::value::passed(self.spec_board(), color, square as u64),
    {
        self.board.is_passed_pawn(color, square)
    }

    /// A rook or queen of `color` stands among `rook_attacks`.
    pub fn rooks_connected(&self, color: Color, rook_attacks: u64) -> (r: bool)
        ensures
            r == ((rook_attacks & (self.spec_board().bitboards[crate::piece::board_index(color, crate::piece::PieceType::Rook)]
                | self.spec_board().bitboards[crate::piece::board_index(color, crate::piece::PieceType::Queen)])) != 0),
    {
        self.board.rooks_connected(color, rook_attacks)
    }

    /// The extension that `chess_move`, which led to the current position,
    /// earns after `extension_count` earlier ones on its path.
    pub fn get_extension(&self, chess_move: Move, extension_count: u8) -> (r: u8)
        ensures
            r == extension(self.spec_in_check(), chess_move, extension_count),
    {
        move_extension(self.in_check, chess_move, extension_count)
    }

    /// Starts an iterative-deepening search of depths `1..=depth` (at most
    /// `MAX_DEPTH`) from the position the driver stands on. The first action
    /// is always `Inspect`.
    pub fn go_depth(&mut self, depth: usize) -> (r: Action)
        ensures
            final(self).wf(),
            r is Inspect ==> final(self).spec_stage() == Stage::AwaitNode,
            r is NoMove ==> final(self).spec_stage() == Stage::Done,
            final(self).spec_max_depth() == if depth <= MAX_DEPTH { depth } else { MAX_DEPTH },
            final(self).spec_completed_depth() == 0,
            final(self).spec_best_line().len() == 0,
            final(self).made_line().len() == 0,
            final(self).spec_iterations() == 0,
            depth >= 1 <==> r is Inspect,
            r is Inspect ==> final(self).spec_pending() == root_call_spec(1),
    {
        self.iterations = 0;
        self.completed_depth = 0;
        self.best_line = VecDeque::new();
        self.pv = VecDeque::new();
        self.line = VecDeque::new();
        self.frames = Vec::new();
        self.max_depth = if depth <= MAX_DEPTH { depth } else { MAX_DEPTH };
        if self.max_depth == 0 {
            self.depth = 0;
            self.stage = Stage::Done;
            return Action::NoMove;
        }
        self.depth = 1;
        self.pending = root_call(1);
        self.stage = Stage::AwaitNode;
        Action::Inspect
    }

    /// Search until the driver cancels (at most `MAX_DEPTH` iterations).
    pub fn go_infinite(&mut self) -> (r: Action)
        ensures
            final(self).wf(),
            final(self).spec_stage() == Stage::AwaitNode,
            r is Inspect,
    {
        self.go_depth(MAX_DEPTH)
    }

    /// Advances the search by one event; `cancelled` is the current value of
    /// the cancellation flag.
    pub fn step(&mut self, event: Event, cancelled: bool) -> (r: Action)
        requires
            old(self).wf(),
            old(self).accepts(event),
        ensures
            final(self).wf(),
            r is Make ==> final(self).spec_stage() == Stage::AwaitNode,
            r is Inspect ==> final(self).spec_stage() == Stage::AwaitNode,
            r is Unmake ==> final(self).spec_stage() == Stage::AfterUnmake,
            r is Report ==> final(self).spec_stage() == Stage::AfterReport,
            r is BestMove ==> final(self).spec_stage() == Stage::Done && final(self).spec_completed_depth() >= 1,
            r is NoMove ==> final(self).spec_stage() == Stage::Done,
            r is Report ==> r->Report_0.depth == final(self).spec_completed_depth()
                && final(self).spec_completed_depth() >= 1,
            r is Make ==> final(self).made_line() == old(self).made_line().push(r->Make_0),
            r is Unmake ==> old(self).made_line().len() > 0
                && final(self).made_line() == old(self).made_line().drop_last(),
            r is Inspect ==> final(self).made_line() == old(self).made_line(),
            r is Report || r is BestMove || r is NoMove ==> old(self).made_line().len() == 0
                && final(self).made_line().len() == 0,
            r is Report ==> r->Report_0.depth == old(self).spec_completed_depth() + 1,
            cancelled ==> !(r is Report) && final(self).spec_completed_depth() == old(self).spec_completed_depth(),
            !(r is Report) ==> final(self).spec_completed_depth() == old(self).spec_completed_depth(),
            r is Report ==> r->Report_0.pv@ == final(self).spec_best_line(),
            r is BestMove ==> final(self).spec_best_line().len() > 0 && r->BestMove_0 == final(self).spec_best_line()[0],
            !(r is Report) ==> final(self).spec_best_line() == old(self).spec_best_line(),
            event is Node ==> final(self).spec_board() == event->Node_0.position
                && final(self).spec_in_check() == event->Node_0.in_check,
            event is Resume ==> final(self).spec_board() == old(self).spec_board(),
            old(self).spec_stage() == Stage::AwaitNode && event is Node ==> node_step(*old(self), event->Node_0, cancelled, r, *final(self)),
            old(self).spec_stage() == Stage::AfterUnmake ==> resume_step(*old(self), cancelled, r, *final(self)),
            old(self).spec_stage() == Stage::AfterReport ==> report_step(*old(self), r, *final(self)),
    {
        match event {
            Event::Node(info) => self.on_node(info, cancelled),
            Event::Resume => {
                if self.stage == Stage::AfterReport {
                    self.next_iteration()
                } else {
                    self.stage = Stage::Idle;
                    let ghost before = *self;
                    match self.resume_frame(cancelled) {
                        Flow::Emit(a) => a,
                        Flow::Return(v) => {
                            let ghost mid = *self;
                            let r = self.deliver(v, cancelled);
                            proof {
                                let f = before.spec_frames().last();
                                let eff = if resume_cut(f, cancelled) is None && f.mode == Mode::Principal
                                    && f.next + 1 >= f.moves@.len() { Some(raised_line(f)) } else { None };
                                lemma_handed_through_line(before.spec_frames().drop_last(), mid, v as int, eff, cancelled,
                                    before.spec_line(), r, *self);
                            }
                            r
                        },
                    }
                }
            },
        }
    }
}

/// Once a search has ended with `BestMove` or `NoMove`, the engine takes no
/// further event: one search gives exactly one final answer.
pub proof fn lemma_single_final_answer(bot: GiffiBot, event: Event)
    requires
        bot.spec_stage() == Stage::Done,
    ensures
        !bot.accepts(event),
{
}

impl GiffiBot {
    fn on_node(&mut self, info: NodeInfo, cancelled: bool) -> (r: Action)
        requires
            old(self).wf(),
            old(self).spec_stage() == Stage::AwaitNode,
            info.valid(),
        ensures
            final(self).wf(),
            r is Make ==> final(self).spec_stage() == Stage::AwaitNode,
            r is Inspect ==> final(self).spec_stage() == Stage::AwaitNode,
            r is Unmake ==> final(self).spec_stage() == Stage::AfterUnmake,
            r is Report ==> final(self).spec_stage() == Stage::AfterReport,
            r is BestMove ==> final(self).spec_stage() == Stage::Done && final(self).spec_completed_depth() >= 1,
            r is NoMove ==> final(self).spec_stage() == Stage::Done,
            r is Report ==> r->Report_0.depth == final(self).spec_completed_depth()
                && final(self).spec_completed_depth() >= 1,
            r is Make ==> final(self).made_line() == old(self).made_line().push(r->Make_0),
            r is Unmake ==> old(self).made_line().len() > 0
                && final(self).made_line() == old(self).made_line().drop_last(),
            r is Inspect ==> final(self).made_line() == old(self).made_line(),
            r is Report || r is BestMove || r is NoMove ==> old(self).made_line().len() == 0
                && final(self).made_line().len() == 0,
            r is Report ==> r->Report_0.depth == old(self).spec_completed_depth() + 1,
            cancelled ==> !(r is Report) && final(self).spec_completed_depth() == old(self).spec_completed_depth(),
            !(r is Report) ==> final(self).spec_completed_depth() == old(self).spec_completed_depth(),
            r is Report ==> r->Report_0.pv@ == final(self).spec_best_line(),
            r is BestMove ==> final(self).spec_best_line().len() > 0 && r->BestMove_0 == final(self).spec_best_line()[0],
            !(r is Report) ==> final(self).spec_best_line() == old(self).spec_best_line(),
            final(self).spec_board() == info.position,
            final(self).spec_in_check() == info.in_check,
            node_step(*old(self), info, cancelled, r, *final(self)),
    {
        self.board = info.position;
        self.in_check = info.in_check;
        let call = self.pending;
        self.stage = Stage::Idle;
        if self.frames.len() == 0 {
            self.root_has_moves = info.legal_moves.len() > 0;
            self.root_turn = info.position.turn;
            self.line = VecDeque::new();
        }
        let ghost before = *self;
        match self.enter(call, info, cancelled) {
            Flow::Emit(a) => a,
            Flow::Return(v) => {
                let ghost mid = *self;
                let r = self.deliver(v, cancelled);
                proof {
                    let eff = if node_clears_line(call, info, cancelled) { Some(Seq::<Move>::empty()) } else { None };
                    lemma_handed_through_line(before.spec_frames(), mid, v as int, eff, cancelled, before.spec_line(), r, *self);
                }
                r
            },
        }
    }

    /// Starts the search that `call` asks for on the position `info`
    /// describes.
    fn enter(&mut self, call: Call, info: NodeInfo, cancelled: bool) -> (r: Flow)
        requires
            old(self).frames_ok(),
            old(self).spec_depth() == old(self).spec_completed_depth() + 1,
            1 <= old(self).spec_depth(),
            call_ok(call, old(self).spec_depth() as int),
            call.mode == Mode::Scout ==> call.alpha == call.beta - 1,
            info.valid(),
        ensures
            final(self).frames_ok(),
            final(self).spec_depth() == old(self).spec_depth(),
            r is Return ==> in_range(r->Return_0 as int) && final(self).spec_frames().len() == old(self).spec_frames().len(),
            r is Emit ==> r->Emit_0 is Make && final(self).wf() && final(self).spec_stage() == Stage::AwaitNode,
            r is Return ==> current_moves(final(self).spec_frames()) == current_moves(old(self).spec_frames()),
            r is Emit ==> current_moves(final(self).spec_frames()) == current_moves(old(self).spec_frames()).push(r->Emit_0->Make_0),
            final(self).spec_completed_depth() == old(self).spec_completed_depth(),
            final(self).spec_best_line() == old(self).spec_best_line(),
            final(self).spec_board() == old(self).spec_board(),
            final(self).spec_in_check() == old(self).spec_in_check(),
            final(self).spec_root_turn() == old(self).spec_root_turn(),
            ({
                let eff = if node_clears_line(call, info, cancelled) { Some(Seq::<Move>::empty()) } else { None };
                &&& final(self).spec_line() == (if old(self).spec_frames().len() == 0 { line_after(eff, old(self).spec_line()) } else { old(self).spec_line() })
                &&& match node_value(call, info, cancelled) {
                    Some(v) => r == Flow::Return(v as i32) && frames_after_line(old(self).spec_frames(), final(self).spec_frames(), eff)
                        && final(self).spec_iterations() == old(self).spec_iterations(),
                    None => r is Emit && frames_after_line(old(self).spec_frames(), final(self).spec_frames().drop_last(), eff)
                        && opened(*final(self), final(self).spec_frames().drop_last(), node_mode(call, info), node_alpha(call, info), call.beta as int,
                            ordered(info.position, node_moves(call, info), old(self).spec_pv()), r->Emit_0)
                        && final(self).spec_iterations() == old(self).spec_iterations().saturating_add(1),
                }
            }),
            final(self).spec_root_has_moves() == old(self).spec_root_has_moves(),
            final(self).spec_root_turn() == old(self).spec_root_turn(),
    {
        let e: u8 = if call.extend { move_extension(info.in_check, call.via, call.ext) } else { 0 };
        let depth: i32 = call.depth + e as i32;
        let ext: u8 = call.ext + e;
        match call.mode {
            Mode::Principal => {
                if cancelled {
                    return Flow::Return(0);
                }
                if depth == 0 {
                    self.clear_out_line();
                    return self.enter_quiesce(call.alpha, call.beta, call.ply, ext, info, cancelled);
                }
                if info.is_draw {
                    return Flow::Return(0);
                }
                if info.legal_moves.len() == 0 {
                    return Flow::Return(if info.in_check { -SCORE_MAX + call.ply } else { 0 });
                }
                let mut moves = info.legal_moves;
                self.order(&info.position, &mut moves);
                let f = Frame {
                    mode: Mode::Principal,
                    alpha: call.alpha,
                    beta: call.beta,
                    depth,
                    ply: call.ply,
                    ext,
                    moves,
                    next: 0,
                    first: true,
                    line: VecDeque::new(),
                    probe: Probe::First,
                    score: 0,
                };
                self.advance(f)
            },
            Mode::Scout => {
                if cancelled {
                    return Flow::Return(0);
                }
                if depth == 0 {
                    return self.enter_quiesce(call.beta - 1, call.beta, call.ply, ext, info, cancelled);
                }
                let mut moves = info.legal_moves;
                self.order(&info.position, &mut moves);
                if moves.len() == 0 {
                    return Flow::Return(call.beta - 1);
                }
                let f = Frame {
                    mode: Mode::Scout,
                    alpha: call.beta - 1,
                    beta: call.beta,
                    depth,
                    ply: call.ply,
                    ext,
                    moves,
                    next: 0,
                    first: true,
                    line: VecDeque::new(),
                    probe: Probe::Scout,
                    score: 0,
                };
                self.advance(f)
            },
            Mode::Quiesce => self.enter_quiesce(call.alpha, call.beta, call.ply, ext, info, cancelled),
        }
    }

    /// Captures-only search with stand-pat over `[alpha, beta]`.
    fn enter_quiesce(&mut self, alpha: i32, beta: i32, ply: i32, ext: u8, info: NodeInfo, cancelled: bool) -> (r: Flow)
        requires
            old(self).frames_ok(),
            old(self).spec_depth() == old(self).spec_completed_depth() + 1,
            1 <= old(self).spec_depth(),
            -SCORE_MAX <= alpha < beta <= SCORE_MAX,
            ext <= 16,
            0 <= ply <= old(self).spec_depth() + ext,
            info.valid(),
        ensures
            final(self).frames_ok(),
            final(self).spec_depth() == old(self).spec_depth(),
            r is Return ==> in_range(r->Return_0 as int) && final(self).spec_frames().len() == old(self).spec_frames().len(),
            r is Emit ==> r->Emit_0 is Make && final(self).wf() && final(self).spec_stage() == Stage::AwaitNode,
            r is Return ==> current_moves(final(self).spec_frames()) == current_moves(old(self).spec_frames()),
            r is Emit ==> current_moves(final(self).spec_frames()) == current_moves(old(self).spec_frames()).push(r->Emit_0->Make_0),
            final(self).spec_completed_depth() == old(self).spec_completed_depth(),
            final(self).spec_best_line() == old(self).spec_best_line(),
            final(self).spec_board() == old(self).spec_board(),
            final(self).spec_in_check() == old(self).spec_in_check(),
            final(self).spec_root_turn() == old(self).spec_root_turn(),
            final(self).spec_line() == old(self).spec_line(),
            ({
                let c = Call { mode: Mode::Quiesce, alpha, beta, depth: 0, ply, ext, extend: false, via: info.legal_moves@.first() };
                match node_value(c, info, cancelled) {
                    Some(v) => r == Flow::Return(v as i32) && final(self).spec_frames() == old(self).spec_frames()
                        && final(self).spec_iterations() == old(self).spec_iterations(),
                    None => r is Emit && opened(*final(self), old(self).spec_frames(), Mode::Quiesce, node_alpha(c, info), beta as int,
                        ordered(info.position, info.legal_captures@, old(self).spec_pv()), r->Emit_0)
                        && final(self).spec_iterations() == old(self).spec_iterations().saturating_add(1),
                }
            }),
            final(self).spec_root_has_moves() == old(self).spec_root_has_moves(),
            final(self).spec_root_turn() == old(self).spec_root_turn(),
    {
        if cancelled {
            return Flow::Return(0);
        }
        let stand_pat = info.position.evaluate();
        assert(-64 * SQUARE_SCORE_BOUND <= stand_pat <= 64 * SQUARE_SCORE_BOUND);
        if stand_pat >= beta {
            return Flow::Return(beta);
        }
        let alpha = if stand_pat > alpha { stand_pat } else { alpha };
        let mut captures = info.legal_captures;
        self.order(&info.position, &mut captures);
        if captures.len() == 0 {
            return Flow::Return(alpha);
        }
        let f = Frame {
            mode: Mode::Quiesce,
            alpha,
            beta,
            depth: 0,
            ply,
            ext,
            moves: captures,
            next: 0,
            first: true,
            line: VecDeque::new(),
            probe: Probe::First,
            score: 0,
        };
        self.advance(f)
    }

    /// Orders `moves`, consuming the head of the principal-variation hint.
    fn order(&mut self, pos: &Position, moves: &mut Vec<Move>)
        requires
            all_valid(old(moves)@),
        ensures
            all_valid(final(moves)@),
            final(moves)@.len() == old(moves)@.len(),
            final(self).spec_frames() == old(self).spec_frames(),
            final(self).spec_depth() == old(self).spec_depth(),
            final(self).spec_max_depth() == old(self).spec_max_depth(),
            final(self).spec_stage() == old(self).spec_stage(),
            final(self).spec_pending() == old(self).spec_pending(),
            final(self).spec_has_best() == old(self).spec_has_best(),
            final(self).spec_completed_depth() == old(self).spec_completed_depth(),
            final(self).spec_best_line() == old(self).spec_best_line(),
            final(self).spec_board() == old(self).spec_board(),
            final(self).spec_in_check() == old(self).spec_in_check(),
            final(moves)@ == ordered(*pos, old(moves)@, old(self).spec_pv()),
            final(self).spec_iterations() == old(self).spec_iterations(),
            final(self).spec_line() == old(self).spec_line(),
            final(self).spec_root_turn() == old(self).spec_root_turn(),
            final(self).spec_root_has_moves() == old(self).spec_root_has_moves(),
            final(self).spec_root_turn() == old(self).spec_root_turn(),
    {
        order_moves(pos, &mut self.pv, moves);
        proof {
            vstd::seq_lib::to_multiset_len(old(moves)@);
            vstd::seq_lib::to_multiset_len(moves@);
        }
    }

    /// Makes the frame's next move, or ends the frame when none is left.
    fn advance(&mut self, f: Frame) -> (r: Flow)
        requires
            old(self).frames_ok(),
            old(self).spec_depth() == old(self).spec_completed_depth() + 1,
            1 <= old(self).spec_depth(),
            f.next <= f.moves@.len(),
            frame_ok(Frame { next: 0, ..f }, old(self).spec_depth() as int) || f.moves@.len() == 0,
            -SCORE_MAX <= f.alpha < f.beta <= SCORE_MAX,
        ensures
            final(self).frames_ok(),
            final(self).spec_depth() == old(self).spec_depth(),
            r is Return ==> in_range(r->Return_0 as int) && final(self).spec_frames().len() == old(self).spec_frames().len(),
            r is Emit ==> r->Emit_0 is Make && final(self).wf() && final(self).spec_stage() == Stage::AwaitNode,
            r is Return ==> current_moves(final(self).spec_frames()) == current_moves(old(self).spec_frames()),
            r is Emit ==> current_moves(final(self).spec_frames()) == current_moves(old(self).spec_frames()).push(r->Emit_0->Make_0),
            final(self).spec_completed_depth() == old(self).spec_completed_depth(),
            final(self).spec_best_line() == old(self).spec_best_line(),
            final(self).spec_board() == old(self).spec_board(),
            final(self).spec_in_check() == old(self).spec_in_check(),
            final(self).spec_root_turn() == old(self).spec_root_turn(),
            final(self).spec_pv() == old(self).spec_pv(),
            f.next < f.moves@.len() ==> {
                let t = final(self).spec_frames().last();
                &&& r == Flow::Emit(Action::Make(f.moves@[f.next as int]))
                &&& final(self).spec_frames().len() == old(self).spec_frames().len() + 1
                &&& final(self).spec_frames().drop_last() == old(self).spec_frames()
                &&& same_frame_core(t, f)
                &&& t.line@ == f.line@
                &&& t.probe == child_probe(f)
                &&& final(self).spec_pending() == child_call(f)
                &&& final(self).spec_iterations() == old(self).spec_iterations().saturating_add(1)
                &&& final(self).spec_line() == old(self).spec_line()
            },
            f.next >= f.moves@.len() ==> {
                &&& r == Flow::Return(end_value(f.mode, f.alpha as int, f.beta as int) as i32)
                &&& frames_after_line(old(self).spec_frames(), final(self).spec_frames(),
                    if f.mode == Mode::Principal { Some(f.line@) } else { None })
                &&& final(self).spec_line() == (if old(self).spec_frames().len() == 0 {
                    line_after(if f.mode == Mode::Principal { Some(f.line@) } else { None }, old(self).spec_line())
                } else { old(self).spec_line() })
                &&& final(self).spec_iterations() == old(self).spec_iterations()
            },
            final(self).spec_root_has_moves() == old(self).spec_root_has_moves(),
            final(self).spec_root_turn() == old(self).spec_root_turn(),
    {
        let mut f = f;
        if f.next < f.moves.len() {
            let m = f.moves[f.next];
            let call = match f.mode {
                Mode::Principal => {
                    if f.first {
                        f.probe = Probe::First;
                        Call { mode: Mode::Principal, alpha: -f.beta, beta: -f.alpha, depth: f.depth - 1, ply: f.ply + 1, ext: f.ext, extend: true, via: m }
                    } else {
                        f.probe = Probe::Scout;
                        Call { mode: Mode::Scout, alpha: -f.alpha - 1, beta: -f.alpha, depth: f.depth - 1, ply: f.ply + 1, ext: f.ext, extend: false, via: m }
                    }
                },
                Mode::Scout => {
                    f.probe = Probe::Scout;
                    Call { mode: Mode::Scout, alpha: -f.beta, beta: 1 - f.beta, depth: f.depth - 1, ply: f.ply + 1, ext: f.ext, extend: false, via: m }
                },
                Mode::Quiesce => {
                    f.probe = Probe::First;
                    Call { mode: Mode::Quiesce, alpha: -f.beta, beta: -f.alpha, depth: 0, ply: f.ply, ext: f.ext, extend: false, via: m }
                },
            };
            self.pending = call;
            self.iterations = self.iterations.saturating_add(1);
            let ghost before = self.frames@;
            self.frames.push(f);
            proof {
                assert(self.frames@.drop_last() =~= before);
                lemma_current_push(before, f);
                assert forall|i: int| 0 <= i < self.frames@.len() implies frame_ok(#[trigger] self.frames@[i], self.depth as int) by {
                    if i < before.len() {
                        assert(self.frames@[i] == before[i]);
                    }
                }
            }
            self.stage = Stage::AwaitNode;
            Flow::Emit(Action::Make(m))
        } else {
            match f.mode {
                Mode::Principal => {
                    let a = f.alpha;
                    self.set_out_line(f.line);
                    Flow::Return(a)
                },
                Mode::Scout => Flow::Return(f.beta - 1),
                Mode::Quiesce => Flow::Return(f.alpha),
            }
        }
    }

    /// A child search came back with `v` while its move is still made.
    fn deliver(&mut self, v: i32, cancelled: bool) -> (r: Action)
        requires
            old(self).frames_ok(),
            old(self).spec_depth() == old(self).spec_completed_depth() + 1,
            in_range(v as int),
            old(self).spec_frames().len() == 0 ==> 1 <= old(self).spec_depth(),
        ensures
            final(self).wf(),
            r is Make ==> final(self).spec_stage() == Stage::AwaitNode,
            r is Inspect ==> final(self).spec_stage() == Stage::AwaitNode,
            r is Unmake ==> final(self).spec_stage() == Stage::AfterUnmake,
            r is Report ==> final(self).spec_stage() == Stage::AfterReport,
            r is BestMove ==> final(self).spec_stage() == Stage::Done && final(self).spec_completed_depth() >= 1,
            r is NoMove ==> final(self).spec_stage() == Stage::Done,
            r is Report ==> r->Report_0.depth == final(self).spec_completed_depth()
                && final(self).spec_completed_depth() >= 1,
            r is Unmake ==> final(self).spec_frames().len() > 0
                && current_moves(final(self).spec_frames()) == current_moves(old(self).spec_frames()),
            r is Inspect ==> current_moves(final(self).spec_frames()) == current_moves(old(self).spec_frames()),
            r is Report || r is BestMove || r is NoMove ==> old(self).spec_frames().len() == 0
                && final(self).spec_frames().len() == 0,
            !(r is Make),
            r is Report ==> r->Report_0.depth == old(self).spec_completed_depth() + 1,
            cancelled ==> !(r is Report) && final(self).spec_completed_depth() == old(self).spec_completed_depth(),
            !(r is Report) ==> final(self).spec_completed_depth() == old(self).spec_completed_depth(),
            r is Report ==> r->Report_0.pv@ == final(self).spec_best_line(),
            r is BestMove ==> final(self).spec_best_line().len() > 0 && r->BestMove_0 == final(self).spec_best_line()[0],
            !(r is Report) ==> final(self).spec_best_line() == old(self).spec_best_line(),
            final(self).spec_board() == old(self).spec_board(),
            final(self).spec_in_check() == old(self).spec_in_check(),
            handed(old(self).spec_frames(), v as int, None, cancelled, old(self).spec_line(), r, *final(self)),
            final(self).spec_root_has_moves() == old(self).spec_root_has_moves(),
            final(self).spec_root_turn() == old(self).spec_root_turn(),
    {
        if self.frames.len() == 0 {
            return self.iteration_done(v, cancelled);
        }
        let ghost before = self.frames@;
        assert(frame_ok(self.spec_frames()[self.spec_frames().len() - 1], self.spec_depth() as int));
        let mut f = self.frames.pop().unwrap();
        let s = -v;
        let m = f.moves[f.next];
        if f.mode == Mode::Principal {
            match f.probe {
                Probe::First => {
                    f.score = castle_bias(s, m);
                },
                Probe::Scout => {
                    if s > f.alpha {
                        f.probe = Probe::Research;
                        self.pending = Call {
                            mode: Mode::Principal,
                            alpha: -f.beta,
                            beta: -f.alpha,
                            depth: f.depth - 1,
                            ply: f.ply + 1,
                            ext: f.ext,
                            extend: true,
                            via: m,
                        };
                        self.frames.push(f);
                        proof {
                            assert(self.frames@.drop_last() =~= before.drop_last());
                            lemma_current_replace_top(before, f);
                        }
                        self.stage = Stage::AwaitNode;
                        return Action::Inspect;
                    }
                    f.score = s;
                },
                Probe::Research => {
                    f.score = s;
                },
            }
        } else {
            f.score = s;
        }
        self.frames.push(f);
        proof {
            assert(self.frames@.drop_last() =~= before.drop_last());
            lemma_current_replace_top(before, f);
        }
        self.stage = Stage::AfterUnmake;
        Action::Unmake
    }

    /// The top frame's move was taken back: score it and go on.
    fn resume_frame(&mut self, cancelled: bool) -> (r: Flow)
        requires
            old(self).frames_ok(),
            old(self).spec_depth() == old(self).spec_completed_depth() + 1,
            old(self).spec_frames().len() > 0,
        ensures
            final(self).frames_ok(),
            final(self).spec_depth() == old(self).spec_depth(),
            r is Return ==> in_range(r->Return_0 as int) && final(self).spec_frames().len() == old(self).spec_frames().len() - 1,
            r is Emit ==> r->Emit_0 is Make && final(self).wf() && final(self).spec_stage() == Stage::AwaitNode,
            r is Return ==> current_moves(final(self).spec_frames()) == current_moves(old(self).spec_frames()).drop_last(),
            r is Emit ==> current_moves(final(self).spec_frames()) == current_moves(old(self).spec_frames()).drop_last().push(r->Emit_0->Make_0),
            final(self).spec_completed_depth() == old(self).spec_completed_depth(),
            final(self).spec_best_line() == old(self).spec_best_line(),
            final(self).spec_board() == old(self).spec_board(),
            final(self).spec_in_check() == old(self).spec_in_check(),
            final(self).spec_root_turn() == old(self).spec_root_turn(),
            ({
                let f = old(self).spec_frames().last();
                let below = old(self).spec_frames().drop_last();
                match resume_cut(f, cancelled) {
                    Some(v) => r == Flow::Return(v as i32) && final(self).spec_frames() == below
                        && final(self).spec_line() == old(self).spec_line()
                        && final(self).spec_iterations() == old(self).spec_iterations(),
                    None => if f.next + 1 < f.moves@.len() {
                        let t = final(self).spec_frames().last();
                        &&& r == Flow::Emit(Action::Make(f.moves@[f.next + 1]))
                        &&& final(self).spec_frames().len() == old(self).spec_frames().len()
                        &&& final(self).spec_frames().drop_last() == below
                        &&& t.mode == f.mode && t.beta == f.beta && t.depth == f.depth && t.ply == f.ply && t.ext == f.ext
                        &&& t.moves@ == f.moves@
                        &&& t.next == f.next + 1
                        &&& t.alpha == raised_alpha(f)
                        &&& t.first == raised_first(f)
                        &&& t.line@ == raised_line(f)
                        &&& t.probe == child_probe(t)
                        &&& final(self).spec_pending() == child_call(t)
                        &&& final(self).spec_iterations() == old(self).spec_iterations().saturating_add(1)
                        &&& final(self).spec_line() == old(self).spec_line()
                    } else {
                        let eff = if f.mode == Mode::Principal { Some(raised_line(f)) } else { None };
                        &&& r == Flow::Return(end_value(f.mode, raised_alpha(f), f.beta as int) as i32)
                        &&& frames_after_line(below, final(self).spec_frames(), eff)
                        &&& final(self).spec_line() == (if below.len() == 0 { line_after(eff, old(self).spec_line()) } else { old(self).spec_line() })
                        &&& final(self).spec_iterations() == old(self).spec_iterations()
                    },
                }
            }),
            final(self).spec_root_has_moves() == old(self).spec_root_has_moves(),
            final(self).spec_root_turn() == old(self).spec_root_turn(),
    {
        let ghost before = self.frames@;
        assert(frame_ok(self.spec_frames()[self.spec_frames().len() - 1], self.spec_depth() as int));
        let mut f = self.frames.pop().unwrap();
        proof {
            lemma_current_drop(before);
            vstd::std_specs::vec::axiom_spec_len(&f.moves);
        }
        let s = f.score;
        let m = f.moves[f.next];
        match f.mode {
            Mode::Principal => {
                if cancelled {
                    return Flow::Return(0);
                }
                if s >= f.beta {
                    return Flow::Return(f.beta);
                }
                if s > f.alpha {
                    f.alpha = s;
                    f.first = false;
                    f.line.push_front(m);
                }
            },
            Mode::Scout => {
                if s >= f.beta {
                    return Flow::Return(f.beta);
                }
            },
            Mode::Quiesce => {
                if s >= f.beta {
                    return Flow::Return(f.beta);
                }
                if s > f.alpha {
                    f.alpha = s;
                }
            },
        }
        f.next = f.next + 1;
        self.advance(f)
    }

    /// Hands `line` to whoever asked for the current search's line: the
    /// parent frame, or the iteration when the root returns.
    fn set_out_line(&mut self, line: VecDeque<Move>)
        requires
            old(self).frames_ok(),
        ensures
            final(self).frames_ok(),
            final(self).spec_frames().len() == old(self).spec_frames().len(),
            final(self).spec_depth() == old(self).spec_depth(),
            final(self).spec_stage() == old(self).spec_stage(),
            final(self).spec_pending() == old(self).spec_pending(),
            current_moves(final(self).spec_frames()) == current_moves(old(self).spec_frames()),
            final(self).spec_completed_depth() == old(self).spec_completed_depth(),
            final(self).spec_best_line() == old(self).spec_best_line(),
            final(self).spec_board() == old(self).spec_board(),
            final(self).spec_in_check() == old(self).spec_in_check(),
            frames_after_line(old(self).spec_frames(), final(self).spec_frames(), Some(line@)),
            final(self).spec_line() == (if old(self).spec_frames().len() == 0 { line_after(Some(line@), old(self).spec_line()) } else { old(self).spec_line() }),
            final(self).spec_iterations() == old(self).spec_iterations(),
            final(self).spec_pv() == old(self).spec_pv(),
            final(self).spec_root_turn() == old(self).spec_root_turn(),
            final(self).spec_root_has_moves() == old(self).spec_root_has_moves(),
            final(self).spec_root_turn() == old(self).spec_root_turn(),
    {
        if self.frames.len() > 0 {
            let ghost before = self.frames@;
            let mut f = self.frames.pop().unwrap();
            f.line = line;
            self.frames.push(f);
            proof {
                assert(self.frames@.drop_last() =~= before.drop_last());
                lemma_current_replace_top(before, f);
                assert forall|i: int| 0 <= i < self.frames@.len() implies frame_ok(#[trigger] self.frames@[i], self.depth as int) by {
                    assert(frame_ok(before[i], self.depth as int));
                }
            }
        } else {
            self.line = line;
        }
    }

    fn clear_out_line(&mut self)
        requires
            old(self).frames_ok(),
        ensures
            final(self).frames_ok(),
            final(self).spec_frames().len() == old(self).spec_frames().len(),
            final(self).spec_depth() == old(self).spec_depth(),
            final(self).spec_stage() == old(self).spec_stage(),
            final(self).spec_pending() == old(self).spec_pending(),
            current_moves(final(self).spec_frames()) == current_moves(old(self).spec_frames()),
            final(self).spec_completed_depth() == old(self).spec_completed_depth(),
            final(self).spec_best_line() == old(self).spec_best_line(),
            final(self).spec_board() == old(self).spec_board(),
            final(self).spec_in_check() == old(self).spec_in_check(),
            frames_after_line(old(self).spec_frames(), final(self).spec_frames(), Some(Seq::<Move>::empty())),
            final(self).spec_line() == (if old(self).spec_frames().len() == 0 { line_after(Some(Seq::<Move>::empty()), old(self).spec_line()) } else { old(self).spec_line() }),
            final(self).spec_iterations() == old(self).spec_iterations(),
            final(self).spec_pv() == old(self).spec_pv(),
            final(self).spec_root_turn() == old(self).spec_root_turn(),
            final(self).spec_root_has_moves() == old(self).spec_root_has_moves(),
            final(self).spec_root_turn() == old(self).spec_root_turn(),
    {
        self.set_out_line(VecDeque::new());
    }

    /// The root search of the current iteration returned `raw`.
    fn iteration_done(&mut self, raw: i32, cancelled: bool) -> (r: Action)
        requires
            old(self).frames_ok(),
            old(self).spec_depth() == old(self).spec_completed_depth() + 1,
            old(self).spec_frames().len() == 0,
            in_range(raw as int),
            1 <= old(self).spec_depth(),
        ensures
            final(self).wf(),
            r is Report ==> final(self).spec_stage() == Stage::AfterReport
                && r->Report_0.depth == final(self).spec_completed_depth()
                && final(self).spec_completed_depth() >= 1,
            r is BestMove ==> final(self).spec_stage() == Stage::Done && final(self).spec_completed_depth() >= 1,
            r is NoMove ==> final(self).spec_stage() == Stage::Done,
            !(r is Make) && !(r is Inspect) && !(r is Unmake),
            final(self).spec_frames().len() == 0,
            r is Report ==> r->Report_0.depth == old(self).spec_completed_depth() + 1,
            cancelled ==> !(r is Report) && final(self).spec_completed_depth() == old(self).spec_completed_depth(),
            !(r is Report) ==> final(self).spec_completed_depth() == old(self).spec_completed_depth(),
            r is Report ==> r->Report_0.pv@ == final(self).spec_best_line(),
            r is BestMove ==> final(self).spec_best_line().len() > 0 && r->BestMove_0 == final(self).spec_best_line()[0],
            !(r is Report) ==> final(self).spec_best_line() == old(self).spec_best_line(),
            final(self).spec_board() == old(self).spec_board(),
            final(self).spec_in_check() == old(self).spec_in_check(),
            !cancelled ==> r is Report && r->Report_0.score == white_score(raw as int, final(self).spec_root_turn())
                && r->Report_0.pv@ == old(self).spec_line() && r->Report_0.nodes == final(self).spec_iterations(),
            cancelled ==> (r is BestMove || r is NoMove),
            final(self).spec_root_has_moves() == old(self).spec_root_has_moves(),
            final(self).spec_root_turn() == old(self).spec_root_turn(),
    {
        let score = match self.root_turn {
            Color::White => raw,
            Color::Black => -raw,
        };
        if cancelled {
            return self.finish();
        }
        self.best_line = copy_line(&self.line);
        self.line = VecDeque::new();
        self.pv = copy_line(&self.best_line);
        self.completed_depth = self.depth;
        self.stage = Stage::AfterReport;
        Action::Report(SearchReport { depth: self.depth, score, nodes: self.iterations, pv: deque_to_vec(&self.best_line) })
    }

    /// Starts the next deeper iteration, or ends the search.
    fn next_iteration(&mut self) -> (r: Action)
        requires
            old(self).wf(),
            old(self).spec_stage() == Stage::AfterReport,
        ensures
            final(self).wf(),
            r is Inspect ==> final(self).spec_stage() == Stage::AwaitNode,
            r is BestMove ==> final(self).spec_stage() == Stage::Done && final(self).spec_completed_depth() >= 1,
            r is NoMove ==> final(self).spec_stage() == Stage::Done,
            r is Inspect || r is BestMove || r is NoMove,
            final(self).spec_frames().len() == 0,
            final(self).spec_completed_depth() == old(self).spec_completed_depth(),
            final(self).spec_best_line() == old(self).spec_best_line(),
            r is BestMove ==> final(self).spec_best_line().len() > 0 && r->BestMove_0 == final(self).spec_best_line()[0],
            final(self).spec_board() == old(self).spec_board(),
            final(self).spec_in_check() == old(self).spec_in_check(),
            report_step(*old(self), r, *final(self)),
    {
        if self.depth < self.max_depth && self.root_has_moves {
            self.depth = self.depth + 1;
            self.pending = root_call(self.depth as i32);
            self.line = VecDeque::new();
            self.stage = Stage::AwaitNode;
            Action::Inspect
        } else {
            self.finish()
        }
    }

    /// Ends the search with the first move of the best completed line.
    fn finish(&mut self) -> (r: Action)
        requires
            old(self).frames_ok(),
        ensures
            final(self).wf(),
            final(self).spec_stage() == Stage::Done,
            r is BestMove ==> final(self).spec_completed_depth() >= 1,
            r is BestMove || r is NoMove,
            final(self).spec_frames().len() == 0,
            final(self).spec_completed_depth() == old(self).spec_completed_depth(),
            final(self).spec_best_line() == old(self).spec_best_line(),
            r is BestMove ==> final(self).spec_best_line().len() > 0 && r->BestMove_0 == final(self).spec_best_line()[0],
            final(self).spec_board() == old(self).spec_board(),
            final(self).spec_in_check() == old(self).spec_in_check(),
            r is BestMove <==> old(self).spec_best_line().len() > 0,
            final(self).spec_root_has_moves() == old(self).spec_root_has_moves(),
            final(self).spec_root_turn() == old(self).spec_root_turn(),
    {
        self.frames = Vec::new();
        self.stage = Stage::Done;
        self.pv = copy_line(&self.best_line);
        if self.best_line.len() > 0 {
            Action::BestMove(self.best_line[0])
        } else {
            Action::NoMove
        }
    }
}

fn root_call(depth: i32) -> (r: Call)
    ensures
        r == root_call_spec(depth as int),
{
    Call {
        mode: Mode::Principal,
        alpha: -SCORE_MAX,
        beta: SCORE_MAX,
        depth,
        ply: 0,
        ext: 0,
        extend: false,
        via: Move { from: 0, to: 0, flag: MoveFlag::Quiet },
    }
}

fn copy_line(d: &VecDeque<Move>) -> (r: VecDeque<Move>)
    ensures
        r@ == d@,
{
    let mut r: VecDeque<Move> = VecDeque::new();
    let mut i: usize = 0;
    while i < d.len()
        invariant
            i <= d@.len(),
            r@ == d@.subrange(0, i as int),
        decreases d@.len() - i,
    {
        r.push_back(d[i]);
        i = i + 1;
        assert(r@ =~= d@.subrange(0, i as int));
    }
    assert(r@ =~= d@);
    r
}

fn deque_to_vec(d: &VecDeque<Move>) -> (r: Vec<Move>)
    ensures
        r@ == d@,
{
    let mut r: Vec<Move> = Vec::new();
    let mut i: usize = 0;
    while i < d.len()
        invariant
            i <= d@.len(),
            r@ == d@.subrange(0, i as int),
        decreases d@.len() - i,
    {
        r.push(d[i]);
        i = i + 1;
        assert(r@ =~= d@.subrange(0, i as int));
    }
    assert(r@ =~= d@);
    r
}

} // verus!
