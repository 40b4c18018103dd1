use vstd::prelude::*;
use crate::piece::Color;

verus! {

/// Every square of the a-file.
pub const A_FILE: u64 = 0x0101_0101_0101_0101;

/// Square `sq` is set in bitboard `b`.
pub open spec fn has_bit(b: u64, sq: u64) -> bool {
    (b >> sq) & 1 == 1
}

pub open spec fn file_of(sq: int) -> int {
    sq % 8
}

pub open spec fn rank_of(sq: int) -> int {
    sq / 8
}

/// Square `t` lies on the file of `square` or on a neighbouring file, and
/// strictly ahead of `square` as seen by `color`.
pub open spec fn in_passed_span(color: Color, square: int, t: int) -> bool {
    &&& -1 <= file_of(t) - file_of(square) <= 1
    &&& match color {
        Color::White => rank_of(t) > rank_of(square),
        Color::Black => rank_of(t) < rank_of(square),
    }
}

pub proof fn lemma_bit_and(a: u64, b: u64, t: u64)
    requires
        t < 64,
    ensures
        has_bit(a & b, t) == (has_bit(a, t) && has_bit(b, t)),
{
    assert(((a & b) >> t) & 1 == 1 <==> ((a >> t) & 1 == 1 && (b >> t) & 1 == 1)) by (bit_vector)
        requires
            t < 64,
    ;
}

pub proof fn lemma_bit_or(a: u64, b: u64, t: u64)
    requires
        t < 64,
    ensures
        has_bit(a | b, t) == (has_bit(a, t) || has_bit(b, t)),
{
    assert(((a | b) >> t) & 1 == 1 <==> ((a >> t) & 1 == 1 || (b >> t) & 1 == 1)) by (bit_vector)
        requires
            t < 64,
    ;
}

pub proof fn lemma_bit_xor(a: u64, b: u64, t: u64)
    requires
        t < 64,
    ensures
        has_bit(a ^ b, t) == (has_bit(a, t) != has_bit(b, t)),
{
    assert(((a ^ b) >> t) & 1 == 1 <==> ((a >> t) & 1 == 1) != ((b >> t) & 1 == 1)) by (bit_vector)
        requires
            t < 64,
    ;
}

pub proof fn lemma_bit_zero(t: u64)
    requires
        t < 64,
    ensures
        !has_bit(0, t),
{
    assert((0u64 >> t) & 1 != 1) by (bit_vector);
}

/// A single set bit.
pub proof fn lemma_bit_single(sq: u64, t: u64)
    requires
        sq < 64,
        t < 64,
    ensures
        has_bit(1u64 << sq, t) == (t == sq),
{
    assert(((1u64 << sq) >> t) & 1 == 1 <==> t == sq) by (bit_vector)
        requires
            sq < 64,
            t < 64,
    ;
}

pub proof fn lemma_square_parts(t: u64)
    requires
        t < 64,
    ensures
        t & 7 == t % 8,
        t >> 3 == t / 8,
{
    assert(t & 7 == t % 8 && t >> 3 == t / 8) by (bit_vector);
}

pub proof fn lemma_file_column(file: u64, t: u64)
    requires
        file < 8,
        t < 64,
    ensures
        has_bit(A_FILE << file, t) == (t & 7 == file),
{
    assert(((0x0101_0101_0101_0101u64 << file) >> t) & 1 == 1 <==> t & 7 == file) by (bit_vector)
        requires
            file < 8,
            t < 64,
    ;
}

proof fn lemma_ranks_above(rank: u64, t: u64)
    requires
        rank < 7,
        t < 64,
    ensures
        has_bit(!0u64 << ((rank + 1) * 8), t) == (t >> 3 > rank),
{
    assert(((!0u64 << ((rank + 1) * 8)) >> t) & 1 == 1 <==> t >> 3 > rank) by (bit_vector)
        requires
            rank < 7,
            t < 64,
    ;
}

proof fn lemma_ranks_below(rank: u64, shift: u64, t: u64)
    requires
        0 < rank < 8,
        shift + rank * 8 == 64,
        t < 64,
    ensures
        has_bit(!0u64 >> shift, t) == (t >> 3 < rank),
{
    assert(((!0u64 >> shift) >> t) & 1 == 1 <==> t >> 3 < rank) by (bit_vector)
        requires
            0 < rank < 8,
            shift + rank * 8 == 64,
            t < 64,
    ;
}

/// The passed-pawn mask as a word: the file of `sq` and its neighbours,
/// cut to the ranks ahead of `sq` from `color`'s side.
pub open spec fn passed_pawn_mask(color: Color, sq: u64) -> u64 {
    let rank = (sq / 8) as u64;
    let file = (sq % 8) as u64;
    let f0 = A_FILE << file;
    let f1 = if file != 7 { f0 | (A_FILE << (file + 1) as u64) } else { f0 };
    let f2 = if file != 0 { f1 | (A_FILE << (file - 1) as u64) } else { f1 };
    let ranks = match color {
        Color::White => if rank == 7 { 0u64 } else { !0u64 << ((rank + 1) * 8) as u64 },
        Color::Black => if rank == 0 { 0u64 } else { !0u64 >> ((8 - rank) * 8) as u64 },
    };
    ranks & f2
}

/// The passed-pawn mask covers exactly the squares on the pawn's file and
/// its neighbours strictly ahead of the pawn.
pub proof fn lemma_passed_mask_bits(color: Color, sq: u64)
    requires
        sq < 64,
    ensures
        forall|t: u64| t < 64 ==> (#[trigger] has_bit(passed_pawn_mask(color, sq), t) <==> in_passed_span(color, sq as int, t as int)),
{
    let rank = (sq / 8) as u64;
    let file = (sq % 8) as u64;
    let file_mask = {
        let f0 = A_FILE << file;
        let f1 = if file != 7 { f0 | (A_FILE << (file + 1) as u64) } else { f0 };
        if file != 0 { f1 | (A_FILE << (file - 1) as u64) } else { f1 }
    };
    let rank_mask = match color {
        Color::White => if rank == 7 { 0u64 } else { !0u64 << ((rank + 1) * 8) as u64 },
        Color::Black => if rank == 0 { 0u64 } else { !0u64 >> ((8 - rank) * 8) as u64 },
    };
    let r = passed_pawn_mask(color, sq);
    assert(r == rank_mask & file_mask);
    assert forall|t: u64| t < 64 implies (#[trigger] has_bit(r, t) <==> in_passed_span(color, sq as int, t as int)) by {
        lemma_square_parts(t);
        lemma_bit_and(rank_mask, file_mask, t);
        lemma_file_column(file, t);
        if file != 7 {
            lemma_file_column((file + 1) as u64, t);
        }
        if file != 0 {
            lemma_file_column((file - 1) as u64, t);
        }
        let m0 = A_FILE << file;
        let m1 = if file != 7 { m0 | (A_FILE << (file + 1) as u64) } else { m0 };
        if file != 7 {
            lemma_bit_or(m0, A_FILE << (file + 1) as u64, t);
        }
        if file != 0 {
            lemma_bit_or(m1, A_FILE << (file - 1) as u64, t);
        }
        assert(has_bit(file_mask, t) <==> -1 <= file_of(t as int) - file_of(sq as int) <= 1);
        match color {
            Color::White => {
                if rank == 7 {
                    lemma_bit_zero(t);
                } else {
                    lemma_ranks_above(rank, t);
                }
            },
            Color::Black => {
                if rank == 0 {
                    lemma_bit_zero(t);
                } else {
                    lemma_ranks_below(rank, ((8 - rank) * 8) as u64, t);
                }
            },
        }
    }
}

/// The squares on the file of `square` and on its neighbouring files that
/// lie strictly ahead of a pawn of `color` standing on `square`. A pawn is
/// passed when no enemy pawn stands on one of them.
pub fn generate_passed_pawn_mask(color: Color, square: u8) -> (r: u64)
    requires
        square < 64,
    ensures
        r == passed_pawn_mask(color, square as u64),
        forall|t: u64| t < 64 ==> (#[trigger] has_bit(r, t) <==> in_passed_span(color, square as int, t as int)),
{
    let sq = square as u64;
    let rank: u64 = sq / 8;
    let file: u64 = sq % 8;

    let mut file_mask: u64 = A_FILE << file;
    if file != 7 {
        file_mask = file_mask | (A_FILE << (file + 1));
    }
    if file != 0 {
        file_mask = file_mask | (A_FILE << (file - 1));
    }

    let rank_mask: u64 = match color {
        Color::White => if rank == 7 { 0 } else { !0u64 << ((rank + 1) * 8) },
        Color::Black => if rank == 0 { 0 } else { !0u64 >> ((8 - rank) * 8) },
    };

    let r = rank_mask & file_mask;
    proof {
        lemma_passed_mask_bits(color, sq);
    }
    r
}

/// Manhattan distance between two squares: files apart plus ranks apart.
pub fn manhattan_distance(from_square: u8, to_square: u8) -> (r: i32)
    requires
        from_square < 64,
        to_square < 64,
    ensures
        r == abs(file_of(to_square as int) - file_of(from_square as int)) + abs(rank_of(to_square as int) - rank_of(from_square as int)),
{
    let file1 = (from_square % 8) as i32;
    let file2 = (to_square % 8) as i32;
    let rank1 = (from_square / 8) as i32;
    let rank2 = (to_square / 8) as i32;
    let file_distance = if file2 >= file1 { file2 - file1 } else { file1 - file2 };
    let rank_distance = if rank2 >= rank1 { rank2 - rank1 } else { rank1 - rank2 };
    rank_distance + file_distance
}

pub open spec fn abs(x: int) -> int {
    if x < 0 { -x } else { x }
}

} // verus!
