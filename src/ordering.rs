use vstd::prelude::*;
use std::collections::VecDeque;
use crate::piece::{Move, MoveFlag, PieceType, piece_value, get_piece_value};
use crate::position::{Position, piece_at};

verus! {

broadcast use {vstd::seq_lib::to_multiset_update, vstd::multiset::group_multiset_axioms};

/// Both squares of the move are on the board.
pub open spec fn valid_move(m: Move) -> bool {
    m.from < 64 && m.to < 64
}

pub open spec fn all_valid(s: Seq<Move>) -> bool {
    forall|i: int| 0 <= i < s.len() ==> valid_move(#[trigger] s[i])
}

/// Guess of a move's worth: a queen promotion scores a queen; a capture
/// scores the victim's value less the mover's; anything else scores 0.
pub open spec fn move_score(pos: Position, m: Move) -> int {
    if m.flag == MoveFlag::PromoteQueen {
        piece_value(PieceType::Queen)
    } else {
        match piece_at(pos, m.to as u64) {
            Some(victim) => piece_value(victim.kind) - match piece_at(pos, m.from as u64) {
                Some(mover) => piece_value(mover.kind),
                None => 0,
            },
            None => 0,
        }
    }
}

pub open spec fn swap_seq(s: Seq<Move>, i: int, j: int) -> Seq<Move> {
    s.update(i, s[j]).update(j, s[i])
}

/// One ordering sweep over `s[idx..]`: each move that scores at least the
/// best so far is swapped into slot `start`.
pub open spec fn sweep(pos: Position, s: Seq<Move>, start: int, idx: int, best: int) -> Seq<Move>
    decreases s.len() - idx,
{
    if idx < 0 || idx >= s.len() || start < 0 || start >= s.len() {
        s
    } else if move_score(pos, s[idx]) >= best {
        sweep(pos, swap_seq(s, start, idx), start, idx + 1, move_score(pos, s[idx]))
    } else {
        sweep(pos, s, start, idx + 1, best)
    }
}

/// Index of the first occurrence of `m` in `s`, if any.
pub open spec fn first_index_from(s: Seq<Move>, m: Move, i: int) -> Option<int>
    decreases s.len() - i,
{
    if i < 0 || i >= s.len() {
        None
    } else if s[i] == m {
        Some(i)
    } else {
        first_index_from(s, m, i + 1)
    }
}

/// The list after ordering against `hint`: when the list holds the hint's
/// first move, that move is swapped to the front and the sweep covers the
/// rest; otherwise the sweep covers the whole list.
pub open spec fn ordered(pos: Position, s: Seq<Move>, hint: Seq<Move>) -> Seq<Move> {
    if hint.len() == 0 {
        sweep(pos, s, 0, 0, 0)
    } else {
        match first_index_from(s, hint[0], 0) {
            Some(k) => sweep(pos, swap_seq(s, 0, k), 1, 1, 0),
            None => sweep(pos, s, 0, 0, 0),
        }
    }
}

proof fn lemma_swap_multiset(s: Seq<Move>, i: int, j: int)
    requires
        0 <= i < s.len(),
        0 <= j < s.len(),
    ensures
        swap_seq(s, i, j).to_multiset() == s.to_multiset(),
        swap_seq(s, i, j).len() == s.len(),
{
    let s1 = s.update(i, s[j]);
    assert(s1.to_multiset() == s.to_multiset().insert(s[j]).remove(s[i]));
    assert(s1.update(j, s[i]).to_multiset() == s1.to_multiset().insert(s[i]).remove(s1[j]));
    if i == j {
        assert(s1[j] == s[j]);
    } else {
        assert(s1[j] == s[j]);
    }
    assert(s.to_multiset().count(s[i]) > 0) by {
        vstd::seq_lib::to_multiset_contains(s, s[i]);
        assert(s.contains(s[i]));
    }
    assert(swap_seq(s, i, j).to_multiset() =~= s.to_multiset());
}

proof fn lemma_sweep(pos: Position, s: Seq<Move>, start: int, idx: int, best: int)
    requires
        0 <= start <= idx,
    ensures
        sweep(pos, s, start, idx, best).to_multiset() == s.to_multiset(),
        sweep(pos, s, start, idx, best).len() == s.len(),
        forall|k: int| 0 <= k < start ==> #[trigger] sweep(pos, s, start, idx, best)[k] == s[k],
    decreases s.len() - idx,
{
    if idx < 0 || idx >= s.len() || start < 0 || start >= s.len() {
    } else if move_score(pos, s[idx]) >= best {
        lemma_swap_multiset(s, start, idx);
        lemma_sweep(pos, swap_seq(s, start, idx), start, idx + 1, move_score(pos, s[idx]));
    } else {
        lemma_sweep(pos, s, start, idx + 1, best);
    }
}

proof fn lemma_first_index(s: Seq<Move>, m: Move, i: int)
    requires
        0 <= i,
    ensures
        match first_index_from(s, m, i) {
            Some(k) => i <= k < s.len() && s[k] == m,
            None => forall|k: int| i <= k < s.len() ==> s[k] != m,
        },
    decreases s.len() - i,
{
    if i < s.len() && s[i] != m {
        lemma_first_index(s, m, i + 1);
    }
}

/// Ordering only rearranges the list.
pub proof fn lemma_ordered_permutes(pos: Position, s: Seq<Move>, hint: Seq<Move>)
    ensures
        ordered(pos, s, hint).to_multiset() == s.to_multiset(),
        ordered(pos, s, hint).len() == s.len(),
{
    if hint.len() > 0 {
        lemma_first_index(s, hint[0], 0);
    }
    if hint.len() > 0 && first_index_from(s, hint[0], 0) is Some {
        let k = first_index_from(s, hint[0], 0)->Some_0;
        lemma_swap_multiset(s, 0, k);
        lemma_sweep(pos, swap_seq(s, 0, k), 1, 1, 0);
    } else {
        lemma_sweep(pos, s, 0, 0, 0);
    }
}

/// The move ordering puts first is one of the listed moves.
pub proof fn lemma_ordered_first_listed(pos: Position, s: Seq<Move>, hint: Seq<Move>)
    requires
        s.len() > 0,
    ensures
        s.contains(ordered(pos, s, hint)[0]),
{
    lemma_ordered_permutes(pos, s, hint);
    let r = ordered(pos, s, hint);
    vstd::seq_lib::to_multiset_contains(r, r[0]);
    vstd::seq_lib::to_multiset_contains(s, r[0]);
    assert(r.contains(r[0]));
}

/// Ordering keeps every move on the board.
pub proof fn lemma_ordered_valid(pos: Position, s: Seq<Move>, hint: Seq<Move>)
    requires
        all_valid(s),
    ensures
        all_valid(ordered(pos, s, hint)),
{
    lemma_ordered_permutes(pos, s, hint);
    let r = ordered(pos, s, hint);
    assert forall|i: int| 0 <= i < r.len() implies valid_move(#[trigger] r[i]) by {
        vstd::seq_lib::to_multiset_contains(r, r[i]);
        vstd::seq_lib::to_multiset_contains(s, r[i]);
        assert(r.contains(r[i]));
        let k = choose|k: int| 0 <= k < s.len() && s[k] == r[i];
        assert(valid_move(s[k]));
    }
}

/// Ordering a list twice with the same hint, when the list holds the
/// hint's move, puts that move first both times.
pub proof fn lemma_order_twice_same_first(pos: Position, s: Seq<Move>, hint: Seq<Move>)
    requires
        hint.len() > 0,
        s.contains(hint[0]),
    ensures
        ordered(pos, s, hint)[0] == hint[0],
        ordered(pos, ordered(pos, s, hint), hint)[0] == hint[0],
{
    let m = hint[0];
    lemma_first_index(s, m, 0);
    let k = choose|k: int| 0 <= k < s.len() && s[k] == m;
    if first_index_from(s, m, 0) is None {
        assert(s[k] != m);
    }
    let k0 = first_index_from(s, m, 0)->Some_0;
    lemma_swap_multiset(s, 0, k0);
    lemma_sweep(pos, swap_seq(s, 0, k0), 1, 1, 0);
    let r = ordered(pos, s, hint);
    assert(r[0] == m);
    lemma_ordered_permutes(pos, s, hint);
    assert(first_index_from(r, m, 0) == Some(0int));
    lemma_swap_multiset(r, 0, 0);
    lemma_sweep(pos, swap_seq(r, 0, 0), 1, 1, 0);
    assert(swap_seq(r, 0, 0)[0] == m);
}

/// Worth guess of one move, as `move_score`.
pub fn move_score_guess(pos: &Position, m: Move) -> (r: i32)
    requires
        valid_move(m),
    ensures
        r == move_score(*pos, m),
        -900 <= r <= 900,
{
    let mut guess: i32 = 0;
    if let Some(victim) = pos.get_piece(m.to) {
        let mover_value = match pos.get_piece(m.from) {
            Some(mover) => get_piece_value(mover.kind),
            None => 0,
        };
        guess = get_piece_value(victim.kind) - mover_value;
    }
    if m.flag == MoveFlag::PromoteQueen {
        guess = get_piece_value(PieceType::Queen);
    }
    guess
}

fn find_move(moves: &Vec<Move>, m: Move) -> (r: Option<usize>)
    ensures
        match r {
            Some(i) => first_index_from(moves@, m, 0) == Some(i as int) && i < moves.len(),
            None => first_index_from(moves@, m, 0) is None,
        },
{
    let mut i: usize = 0;
    while i < moves.len()
        invariant
            i <= moves.len(),
            first_index_from(moves@, m, 0) == first_index_from(moves@, m, i as int),
        decreases moves.len() - i,
    {
        if moves[i] == m {
            return Some(i);
        }
        i = i + 1;
    }
    None
}

fn swap_moves(v: &mut Vec<Move>, i: usize, j: usize)
    requires
        i < old(v).len(),
        j < old(v).len(),
    ensures
        final(v)@ == swap_seq(old(v)@, i as int, j as int),
{
    let a = v[i];
    let b = v[j];
    v.set(i, b);
    v.set(j, a);
}

/// Reorders `moves` in place so that likely good moves come first, and
/// consumes the first move of the `pv` hint: that move goes to the front
/// when the list holds it, and a single sweep over the rest of the list
/// (the whole list otherwise) swaps into the first open slot each move whose
/// guess is at least the best guess so far.
pub fn order_moves(pos: &Position, pv: &mut VecDeque<Move>, moves: &mut Vec<Move>)
    requires
        all_valid(old(moves)@),
    ensures
        final(moves)@ == ordered(*pos, old(moves)@, old(pv)@),
        final(moves)@.to_multiset() == old(moves)@.to_multiset(),
        all_valid(final(moves)@),
        final(pv)@ == if old(pv)@.len() == 0 { old(pv)@ } else { old(pv)@.drop_first() },
{
    proof {
        lemma_ordered_permutes(*pos, moves@, pv@);
        lemma_ordered_valid(*pos, moves@, pv@);
    }
    let ghost hint = pv@;
    let ghost orig = moves@;
    let mut start: usize = 0;
    if let Some(pv_move) = pv.pop_front() {
        if let Some(i) = find_move(moves, pv_move) {
            swap_moves(moves, 0, i);
            start = 1;
        }
    }
    assert(pv@ =~= if hint.len() == 0 { hint } else { hint.drop_first() });
    let ghost front = moves@;
    assert(sweep(*pos, front, start as int, start as int, 0) == ordered(*pos, orig, hint));
    let mut current_best: i32 = 0;
    let mut idx: usize = start;
    while idx < moves.len()
        invariant
            start <= idx,
            start <= 1,
            idx <= moves.len() || moves.len() == 0,
            all_valid(moves@),
            sweep(*pos, moves@, start as int, idx as int, current_best as int) == ordered(*pos, orig, hint),
            moves@.len() == orig.len(),
            -900 <= current_best <= 900,
        decreases moves.len() - idx,
    {
        let m = moves[idx];
        let guess = move_score_guess(pos, m);
        if current_best <= guess {
            current_best = guess;
            swap_moves(moves, start, idx);
        }
        idx = idx + 1;
    }
}

} // verus!
