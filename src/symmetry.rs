use vstd::prelude::*;
use crate::masks::{
    A_FILE, has_bit, file_of, rank_of, in_passed_span, passed_pawn_mask, lemma_passed_mask_bits,
    lemma_bit_and, lemma_bit_xor, lemma_bit_single, lemma_bit_zero, lemma_file_column, lemma_square_parts,
};
use crate::piece::{Color, PieceType, opposite, board_index};
use crate::position::{Position, first_board_from, piece_at, piece_of_board, lowest_square_from, king_square, pawns};
use crate::value::{
    CENTER_MANHATTAN_DISTANCE, pop_count, phase_material, endgame, doubled, passed, mirrored, positional,
    square_score, board_sum, evaluation, enemy_king_centrality,
};

verus! {

/// The square a half turn of the board takes `t` to.
pub open spec fn rot(t: u64) -> u64 {
    (63 - t) as u64
}

/// The bitboard of the same kind of man of the other colour.
pub open spec fn other_board(i: int) -> int {
    if i < 6 { i + 6 } else { i - 6 }
}

/// No square holds two men.
pub open spec fn disjoint_boards(p: Position) -> bool {
    forall|i: int, j: int, t: u64|
        0 <= i < 12 && 0 <= j < 12 && i != j && t < 64 ==> !(#[trigger] has_bit(p.bitboards[i], t) && #[trigger] has_bit(p.bitboards[j], t))
}

/// Each side has at most one king.
pub open spec fn single_kings(p: Position) -> bool {
    forall|c: Color, t1: u64, t2: u64|
        t1 < 64 && t2 < 64 && #[trigger] has_bit(p.bitboards[board_index(c, PieceType::King)], t1)
            && #[trigger] has_bit(p.bitboards[board_index(c, PieceType::King)], t2) ==> t1 == t2
}

pub open spec fn valid_position(p: Position) -> bool {
    disjoint_boards(p) && single_kings(p)
}

/// `q` is `p` turned half round with the colours and the side to move
/// swapped: a man of one colour on `t` in `p` is the same man of the other
/// colour on `63 - t` in `q`.
pub open spec fn is_half_turn(p: Position, q: Position) -> bool {
    &&& q.turn == opposite(p.turn)
    &&& forall|i: int, t: u64| 0 <= i < 12 && t < 64 ==> #[trigger] has_bit(q.bitboards[other_board(i)], rot(t)) == has_bit(p.bitboards[i], t)
}

proof fn lemma_half_turn_back(p: Position, q: Position)
    requires
        is_half_turn(p, q),
    ensures
        forall|j: int, u: u64| 0 <= j < 12 && u < 64 ==> #[trigger] has_bit(q.bitboards[j], u) == has_bit(p.bitboards[other_board(j)], rot(u)),
{
    assert forall|j: int, u: u64| 0 <= j < 12 && u < 64 implies #[trigger] has_bit(q.bitboards[j], u) == has_bit(p.bitboards[other_board(j)], rot(u)) by {
        let i = other_board(j);
        assert(other_board(i) == j);
        assert(rot(rot(u)) == u);
        assert(has_bit(q.bitboards[other_board(i)], rot(rot(u))) == has_bit(p.bitboards[i], rot(u)));
    }
}

proof fn lemma_half_turn_disjoint(p: Position, q: Position)
    requires
        disjoint_boards(p),
        is_half_turn(p, q),
    ensures
        disjoint_boards(q),
{
    lemma_half_turn_back(p, q);
    assert forall|i: int, j: int, t: u64| 0 <= i < 12 && 0 <= j < 12 && i != j && t < 64 implies
        !(#[trigger] has_bit(q.bitboards[i], t) && #[trigger] has_bit(q.bitboards[j], t)) by {
        assert(has_bit(q.bitboards[i], t) == has_bit(p.bitboards[other_board(i)], rot(t)));
        assert(has_bit(q.bitboards[j], t) == has_bit(p.bitboards[other_board(j)], rot(t)));
    }
}

proof fn lemma_first_board(pos: Position, sq: u64, i: int)
    requires
        0 <= i,
    ensures
        match first_board_from(pos, sq, i) {
            Some(j) => i <= j < 12 && has_bit(pos.bitboards[j], sq),
            None => forall|k: int| i <= k < 12 ==> !has_bit(#[trigger] pos.bitboards[k], sq),
        },
    decreases 12 - i,
{
    if i < 12 && !has_bit(pos.bitboards[i], sq) {
        lemma_first_board(pos, sq, i + 1);
    }
}

/// With no square doubly occupied, the man on a square is the one whose
/// bitboard has it.
proof fn lemma_piece_at_board(pos: Position, sq: u64, j: int)
    requires
        disjoint_boards(pos),
        sq < 64,
        0 <= j < 12,
        has_bit(pos.bitboards[j], sq),
    ensures
        piece_at(pos, sq) == Some(piece_of_board(j)),
{
    lemma_first_board(pos, sq, 0);
    if let Some(k) = first_board_from(pos, sq, 0) {
        if k != j {
            assert(!(has_bit(pos.bitboards[k], sq) && has_bit(pos.bitboards[j], sq)));
        }
    }
}

proof fn lemma_lowest_square(b: u64, i: int)
    requires
        0 <= i,
    ensures
        match lowest_square_from(b, i) {
            Some(k) => i <= k < 64 && has_bit(b, k as u64),
            None => forall|k: u64| i <= k < 64 ==> !#[trigger] has_bit(b, k),
        },
    decreases 64 - i,
{
    if i < 64 && !has_bit(b, i as u64) {
        lemma_lowest_square(b, i + 1);
    }
}

proof fn lemma_lowest_square_of(b: u64, k: u64)
    requires
        k < 64,
        has_bit(b, k),
        forall|t: u64| t < 64 && #[trigger] has_bit(b, t) ==> t == k,
    ensures
        lowest_square_from(b, 0) == Some(k as int),
{
    lemma_lowest_square(b, 0);
}

proof fn lemma_king_square_turned(p: Position, q: Position, c: Color)
    requires
        valid_position(p),
        is_half_turn(p, q),
    ensures
        king_square(q, opposite(c)) == match king_square(p, c) {
            Some(k) => Some(63 - k),
            None => None::<int>,
        },
{
    lemma_half_turn_back(p, q);
    let i = board_index(c, PieceType::King);
    let j = board_index(opposite(c), PieceType::King);
    assert(j == other_board(i));
    let kp = p.bitboards[i];
    let kq = q.bitboards[j];
    lemma_lowest_square(kp, 0);
    lemma_lowest_square(kq, 0);
    match king_square(p, c) {
        Some(k) => {
            let k = k as u64;
            assert(has_bit(kq, rot(k)));
            assert forall|t: u64| t < 64 && #[trigger] has_bit(kq, t) implies t == rot(k) by {
                assert(has_bit(kp, rot(t)));
                assert(rot(t) == k);
            }
            lemma_lowest_square_of(kq, rot(k));
        },
        None => {
            if let Some(k) = lowest_square_from(kq, 0) {
                assert(has_bit(kp, rot(k as u64)));
            }
        },
    }
}

/// Two words share no set square exactly when their intersection is zero.
proof fn lemma_and_zero(a: u64, b: u64)
    ensures
        (a & b == 0) == (forall|u: u64| u < 64 ==> !(#[trigger] has_bit(a, u) && has_bit(b, u))),
{
    if a & b == 0 {
        assert forall|u: u64| u < 64 implies !(#[trigger] has_bit(a, u) && has_bit(b, u)) by {
            lemma_bit_and(a, b, u);
            lemma_bit_zero(u);
        }
    } else {
        let u = lemma_some_bit(a & b);
        lemma_bit_and(a, b, u);
    }
}

/// A non-zero word has a set square.
proof fn lemma_some_bit(a: u64) -> (t: u64)
    requires
        a != 0,
    ensures
        t < 64,
        has_bit(a, t),
    decreases a,
{
    if a & 1 == 1 {
        assert(has_bit(a, 0)) by (bit_vector)
            requires
                a & 1 == 1,
        ;
        0
    } else {
        let b = a >> 1;
        assert(b != 0 && b < a) by (bit_vector)
            requires
                a != 0,
                a & 1 != 1,
                b == a >> 1,
        ;
        let t = lemma_some_bit(b);
        assert(t < 63 && has_bit(a, (t + 1) as u64)) by (bit_vector)
            requires
                b == a >> 1,
                t < 64,
                (b >> t) & 1 == 1,
        ;
        (t + 1) as u64
    }
}

proof fn lemma_rot_coords(x: int)
    requires
        0 <= x < 64,
    ensures
        file_of(63 - x) == 7 - file_of(x),
        rank_of(63 - x) == 7 - rank_of(x),
{
}

proof fn lemma_passed_turned(p: Position, q: Position, c: Color, t: u64)
    requires
        is_half_turn(p, q),
        t < 64,
    ensures
        passed(q, opposite(c), rot(t)) == passed(p, c, t),
{
    lemma_half_turn_back(p, q);
    let mp = passed_pawn_mask(c, t);
    let mq = passed_pawn_mask(opposite(c), rot(t));
    let ep = pawns(p, opposite(c));
    let eq = pawns(q, opposite(opposite(c)));
    assert(board_index(opposite(opposite(c)), PieceType::Pawn) == other_board(board_index(opposite(c), PieceType::Pawn)));
    lemma_passed_mask_bits(c, t);
    lemma_passed_mask_bits(opposite(c), rot(t));
    lemma_and_zero(mp, ep);
    lemma_and_zero(mq, eq);
    assert forall|u: u64| u < 64 implies (has_bit(mq, rot(u)) == has_bit(mp, u) && has_bit(eq, rot(u)) == has_bit(ep, u)) by {
        lemma_rot_coords(u as int);
        lemma_rot_coords(t as int);
        assert(has_bit(mq, rot(u)) == in_passed_span(opposite(c), rot(t) as int, rot(u) as int));
        assert(rot(rot(u)) == u);
    }
    if mp & ep == 0 {
        assert forall|u: u64| u < 64 implies !(#[trigger] has_bit(mq, u) && has_bit(eq, u)) by {
            assert(rot(rot(u)) == u);
            assert(has_bit(mq, rot(rot(u))) == has_bit(mp, rot(u)));
        }
    } else {
        let u = choose|u: u64| u < 64 && (has_bit(mp, u) && has_bit(ep, u));
        assert(has_bit(mq, rot(u)) && has_bit(eq, rot(u)));
    }
}

/// The squares of the doubled-pawn mask of `sq`: the other squares of its file.
proof fn lemma_doubled_mask_bits(sq: u64, u: u64)
    requires
        sq < 64,
        u < 64,
    ensures
        has_bit((A_FILE << (sq % 8) as u64) ^ (1u64 << sq), u) == (file_of(u as int) == file_of(sq as int) && u != sq),
{
    lemma_square_parts(u);
    lemma_file_column((sq % 8) as u64, u);
    lemma_bit_single(sq, u);
    lemma_bit_xor(A_FILE << (sq % 8) as u64, 1u64 << sq, u);
}

proof fn lemma_doubled_turned(p: Position, q: Position, c: Color, t: u64)
    requires
        is_half_turn(p, q),
        t < 64,
    ensures
        doubled(q, opposite(c), rot(t)) == doubled(p, c, t),
{
    lemma_half_turn_back(p, q);
    let mp = (A_FILE << (t % 8) as u64) ^ (1u64 << t);
    let mq = (A_FILE << (rot(t) % 8) as u64) ^ (1u64 << rot(t));
    let fp = pawns(p, c);
    let fq = pawns(q, opposite(c));
    assert(board_index(opposite(c), PieceType::Pawn) == other_board(board_index(c, PieceType::Pawn)));
    lemma_and_zero(mp, fp);
    lemma_and_zero(mq, fq);
    assert forall|u: u64| u < 64 implies (has_bit(mq, rot(u)) == has_bit(mp, u) && has_bit(fq, rot(u)) == has_bit(fp, u)) by {
        lemma_rot_coords(u as int);
        lemma_rot_coords(t as int);
        lemma_doubled_mask_bits(t, u);
        lemma_doubled_mask_bits(rot(t), rot(u));
    }
    if mp & fp == 0 {
        assert forall|u: u64| u < 64 implies !(#[trigger] has_bit(mq, u) && has_bit(fq, u)) by {
            assert(rot(rot(u)) == u);
            assert(has_bit(mq, rot(rot(u))) == has_bit(mp, rot(u)));
        }
    } else {
        let u = choose|u: u64| u < 64 && (has_bit(mp, u) && has_bit(fp, u));
        assert(has_bit(mq, rot(u)) && has_bit(fq, rot(u)));
    }
}

/// Sum of `f` over `0..n`.
pub open spec fn sum_to(f: spec_fn(int) -> int, n: int) -> int
    decreases n,
{
    if n <= 0 { 0 } else { sum_to(f, n - 1) + f(n - 1) }
}

proof fn lemma_sum_congruent(f: spec_fn(int) -> int, g: spec_fn(int) -> int, n: int)
    requires
        forall|s: int| 0 <= s < n ==> #[trigger] f(s) == g(s),
    ensures
        sum_to(f, n) == sum_to(g, n),
    decreases n,
{
    if n > 0 {
        lemma_sum_congruent(f, g, n - 1);
    }
}

proof fn lemma_sum_drop_first(f: spec_fn(int) -> int, g: spec_fn(int) -> int, n: int)
    requires
        n >= 1,
        forall|s: int| 0 <= s < n - 1 ==> #[trigger] g(s) == f(s + 1),
    ensures
        sum_to(f, n) == f(0) + sum_to(g, n - 1),
    decreases n,
{
    assert(sum_to(f, n) == sum_to(f, n - 1) + f(n - 1));
    if n > 1 {
        lemma_sum_drop_first(f, g, n - 1);
        assert(sum_to(g, n - 1) == sum_to(g, n - 2) + g(n - 2));
        assert(g(n - 2) == f(n - 1));
    } else {
        assert(sum_to(f, 0) == 0);
        assert(sum_to(g, 0) == 0);
    }
}

proof fn lemma_sum_reversed(f: spec_fn(int) -> int, g: spec_fn(int) -> int, n: int)
    requires
        forall|s: int| 0 <= s < n ==> #[trigger] g(s) == f(n - 1 - s),
    ensures
        sum_to(g, n) == sum_to(f, n),
    decreases n,
{
    if n > 0 {
        let f1 = |s: int| f(s + 1);
        assert forall|s: int| 0 <= s < n - 1 implies #[trigger] g(s) == f1(n - 2 - s) by {}
        lemma_sum_reversed(f1, g, n - 1);
        lemma_sum_drop_first(f, f1, n);
    }
}

proof fn lemma_sum_negated(f: spec_fn(int) -> int, g: spec_fn(int) -> int, n: int)
    requires
        forall|s: int| 0 <= s < n ==> #[trigger] g(s) == -f(s),
    ensures
        sum_to(g, n) == -sum_to(f, n),
    decreases n,
{
    if n > 0 {
        lemma_sum_negated(f, g, n - 1);
    }
}

/// Number of set squares of `b` below `n`.
pub open spec fn bit_total(b: u64, n: int) -> int {
    sum_to(|u: int| if has_bit(b, u as u64) { 1int } else { 0int }, n)
}

proof fn lemma_bit_total_shift(b: u64, n: int)
    requires
        1 <= n <= 64,
    ensures
        bit_total(b, n) == (b % 2) + bit_total(b / 2, n - 1),
    decreases n,
{
    let fb = |u: int| if has_bit(b, u as u64) { 1int } else { 0int };
    let fh = |u: int| if has_bit(b / 2, u as u64) { 1int } else { 0int };
    assert(bit_total(b, n) == sum_to(fb, n));
    assert(bit_total(b / 2, n - 1) == sum_to(fh, n - 1));
    assert(sum_to(fb, n) == sum_to(fb, n - 1) + fb(n - 1));
    if n == 1 {
        assert(has_bit(b, 0) == (b % 2 == 1)) by (bit_vector);
        assert(sum_to(fb, 0) == 0);
        assert(sum_to(fh, 0) == 0);
    } else {
        lemma_bit_total_shift(b, n - 1);
        assert(bit_total(b, n - 1) == sum_to(fb, n - 1));
        assert(bit_total(b / 2, n - 2) == sum_to(fh, n - 2));
        assert(sum_to(fh, n - 1) == sum_to(fh, n - 2) + fh(n - 2));
        let k1 = (n - 2) as u64;
        assert(has_bit(b, (k1 + 1) as u64) == has_bit(b / 2, k1)) by (bit_vector)
            requires
                k1 < 63,
        ;
        assert(((n - 1) as u64) == (k1 + 1) as u64);
    }
}

proof fn lemma_pop_count_bits(b: u64)
    ensures
        pop_count(b) == bit_total(b, 64),
    decreases b,
{
    if b == 0 {
        let f0 = |u: int| if has_bit(0u64, u as u64) { 1int } else { 0int };
        assert forall|u: int| 0 <= u < 64 implies #[trigger] f0(u) == 0int by {
            lemma_bit_zero(u as u64);
        }
        lemma_sum_congruent(f0, |u: int| 0int, 64);
        lemma_sum_zero(64);
    } else {
        lemma_pop_count_bits(b / 2);
        lemma_bit_total_shift(b, 64);
        assert(!has_bit(b / 2, 63)) by (bit_vector);
    }
}

proof fn lemma_sum_zero(n: int)
    ensures
        sum_to(|u: int| 0int, n) == 0,
    decreases n,
{
    if n > 0 {
        lemma_sum_zero(n - 1);
    }
}

proof fn lemma_pop_count_turned(a: u64, b: u64)
    requires
        forall|u: u64| u < 64 ==> #[trigger] has_bit(b, rot(u)) == has_bit(a, u),
    ensures
        pop_count(b) == pop_count(a),
{
    lemma_pop_count_bits(a);
    lemma_pop_count_bits(b);
    let fa = |u: int| if has_bit(a, u as u64) { 1int } else { 0int };
    let fb = |u: int| if has_bit(b, u as u64) { 1int } else { 0int };
    assert forall|s: int| 0 <= s < 64 implies #[trigger] fb(s) == fa(64 - 1 - s) by {
        assert(rot((63 - s) as u64) == s as u64);
        assert(has_bit(b, rot((63 - s) as u64)) == has_bit(a, (63 - s) as u64));
    }
    lemma_sum_reversed(fa, fb, 64);
    assert(bit_total(a, 64) == sum_to(fa, 64));
    assert(bit_total(b, 64) == sum_to(fb, 64));
}

proof fn lemma_phase_turned(p: Position, q: Position)
    requires
        is_half_turn(p, q),
    ensures
        endgame(q) == endgame(p),
{
    lemma_half_turn_back(p, q);
    let kinds = seq![PieceType::Bishop, PieceType::Rook, PieceType::Queen];
    assert forall|k: int| 0 <= k < 3 implies ({
        let kind = #[trigger] kinds[k];
        let wp = p.bitboards[board_index(Color::White, kind)] | p.bitboards[board_index(Color::Black, kind)];
        let wq = q.bitboards[board_index(Color::White, kind)] | q.bitboards[board_index(Color::Black, kind)];
        pop_count(wq) == pop_count(wp)
    }) by {
        let kind = kinds[k];
        let i = board_index(Color::White, kind);
        let j = board_index(Color::Black, kind);
        let wp = p.bitboards[i] | p.bitboards[j];
        let wq = q.bitboards[i] | q.bitboards[j];
        assert forall|u: u64| u < 64 implies #[trigger] has_bit(wq, rot(u)) == has_bit(wp, u) by {
            crate::masks::lemma_bit_or(p.bitboards[i], p.bitboards[j], u);
            crate::masks::lemma_bit_or(q.bitboards[i], q.bitboards[j], rot(u));
            assert(other_board(i) == j && other_board(j) == i);
            assert(rot(rot(u)) == u);
        }
        lemma_pop_count_turned(wp, wq);
    }
    assert(kinds[0] == PieceType::Bishop && kinds[1] == PieceType::Rook && kinds[2] == PieceType::Queen);
    assert(phase_material(q) == phase_material(p));
}

proof fn lemma_square_turned(p: Position, q: Position, t: u64, e: bool)
    requires
        valid_position(p),
        is_half_turn(p, q),
        t < 64,
    ensures
        square_score(q, rot(t) as int, e) == -square_score(p, t as int, e),
{
    lemma_half_turn_back(p, q);
    lemma_half_turn_disjoint(p, q);
    lemma_first_board(p, t, 0);
    lemma_first_board(q, rot(t), 0);
    assert(rot(t) as int == 63 - t);
    match first_board_from(p, t, 0) {
        Some(j) => {
            lemma_piece_at_board(p, t, j);
            assert(has_bit(q.bitboards[other_board(j)], rot(t)));
            lemma_piece_at_board(q, rot(t), other_board(j));
            let pc = piece_of_board(j);
            let qc = piece_of_board(other_board(j));
            assert(qc.kind == pc.kind);
            assert(qc.color == opposite(pc.color));
            assert(mirrored(qc.color, 63 - t) == mirrored(pc.color, t as int));
            lemma_passed_turned(p, q, pc.color, t);
            lemma_doubled_turned(p, q, pc.color, t);
            lemma_king_square_turned(p, q, opposite(pc.color));
            assert(opposite(opposite(pc.color)) == pc.color);
            match king_square(p, opposite(pc.color)) {
                Some(k) => {
                    lemma_lowest_square(p.bitboards[board_index(opposite(pc.color), PieceType::King)], 0);
                    lemma_center_symmetric(k);
                },
                None => {},
            }
            assert(enemy_king_centrality(q, qc.color) == enemy_king_centrality(p, pc.color));
            assert(positional(q, qc, 63 - t, e) == positional(p, pc, t as int, e));
        },
        None => {
            assert forall|k: int| 0 <= k < 12 implies !has_bit(#[trigger] q.bitboards[k], rot(t)) by {
                assert(rot(rot(t)) == t);
                assert(has_bit(q.bitboards[k], rot(t)) == has_bit(p.bitboards[other_board(k)], t));
            }
            if let Some(k) = first_board_from(q, rot(t), 0) {
                assert(has_bit(q.bitboards[k], rot(t)));
            }
        },
    }
}

proof fn lemma_center_symmetric(k: int)
    requires
        0 <= k < 64,
    ensures
        CENTER_MANHATTAN_DISTANCE[k] == CENTER_MANHATTAN_DISTANCE[63 - k],
{
}

proof fn lemma_board_sum_is_sum(pos: Position, n: int, e: bool)
    ensures
        board_sum(pos, n, e) == sum_to(|s: int| square_score(pos, s, e), n),
    decreases n,
{
    if n > 0 {
        lemma_board_sum_is_sum(pos, n - 1, e);
    }
}

/// The evaluation does not depend on which colour a position is seen for:
/// turning a legal position half round, with the colours and the side to
/// move swapped, leaves the side to move's score unchanged.
pub proof fn lemma_evaluation_half_turn(p: Position, q: Position)
    requires
        valid_position(p),
        is_half_turn(p, q),
    ensures
        evaluation(q) == evaluation(p),
{
    lemma_phase_turned(p, q);
    let e = endgame(p);
    let fp = |s: int| square_score(p, s, e);
    let fq = |s: int| square_score(q, s, e);
    lemma_board_sum_is_sum(p, 64, e);
    lemma_board_sum_is_sum(q, 64, e);
    let g = |s: int| fp(64 - 1 - s);
    assert forall|s: int| 0 <= s < 64 implies #[trigger] fq(s) == -g(s) by {
        let t = (63 - s) as u64;
        lemma_square_turned(p, q, t, e);
        assert(rot(t) as int == s);
    }
    lemma_sum_negated(g, fq, 64);
    assert forall|s: int| 0 <= s < 64 implies #[trigger] g(s) == fp(64 - 1 - s) by {}
    lemma_sum_reversed(fp, g, 64);
    assert(board_sum(q, 64, endgame(q)) == -board_sum(p, 64, endgame(p)));
}

} // verus!
