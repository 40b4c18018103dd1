use vstd::prelude::*;
use crate::masks::{A_FILE, generate_passed_pawn_mask, passed_pawn_mask};
use crate::piece::{Color, Piece, PieceType, opposite, piece_value, board_index};
use crate::position::{Position, piece_at, king_square, pawns};

/// Piece values live with the men; evaluation code reaches them here too.
pub use crate::piece::get_piece_value;

verus! {

/// Penalty for a pawn that shares its file with another pawn of its side.
pub const DOUBLED_PAWN_PENALTY: i32 = 15;

/// Reward for a pawn that no enemy pawn can stop.
pub const PASSED_PAWN_REWARD: i32 = 25;

/// Phase threshold: below this much bishop, rook and queen material the
/// position counts as an endgame (four rooks' worth).
pub const ENDGAME_MATERIAL: i64 = 2000;

// Piece-square tables, laid out from Black's side: index `sq` for a black
// man, `63 - sq` for a white one.
pub const PAWN_POSITION: [i16; 64] = [
    0, 0, 0, 0, 0, 0, 0, 0,
    100, 100, 100, 100, 100, 100, 100, 100,
    20, 10, 40, 60, 60, 40, 20, 20,
    5, 5, 25, 40, 40, 25, 5, 5,
    0, 0, 0, 35, 35, 0, 0, 0,
    5, -5, -10, 0, 0, -10, -5, 5,
    5, 10, 10, -20, -20, 10, 10, 5,
    0, 0, 0, 0, 0, 0, 0, 0,
];

pub const KNIGHT_POSITION: [i16; 64] = [
    -50, -40, -30, -30, -30, -30, -40, -50,
    -40, -20, 0, 0, 0, 0, -20, -40,
    -30, 0, 10, 15, 15, 10, 0, -30,
    -30, 5, 15, 20, 20, 15, 5, -30,
    -30, 5, 15, 20, 20, 15, 5, -30,
    -30, 0, 10, 15, 15, 10, 0, -30,
    -40, -20, 0, 5, 5, 0, -20, -40,
    -50, -40, -30, -30, -30, -30, -40, -50,
];

pub const BISHOP_POSITION: [i16; 64] = [
    -20, -10, -10, -10, -10, -10, -10, -20,
    -10, 0, 0, 0, 0, 0, 0, -10,
    -10, 0, 5, 10, 10, 5, 0, -10,
    -10, 30, 5, 10, 10, 5, 30, -10,
    -10, 0, 10, 10, 10, 10, 0, -10,
    -10, 10, 10, 10, 10, 10, 10, -10,
    -10, 5, 0, 0, 0, 0, 5, -10,
    -20, -10, -10, -10, -10, -10, -10, -20,
];

pub const ROOK_POSITION: [i16; 64] = [
    0, 0, 0, 0, 0, 0, 0, 0,
    5, 10, 10, 10, 10, 10, 10, 5,
    -5, 0, 0, 0, 0, 0, 0, -5,
    -5, 0, 0, 0, 0, 0, 0, -5,
    -5, 0, 0, 0, 0, 0, 0, -5,
    -5, 0, 0, 0, 0, 0, 0, -5,
    -5, 0, 0, 0, 0, 0, 0, -5,
    0, 0, 0, 25, 25, 0, 0, 0,
];

pub const QUEEN_POSITION: [i16; 64] = [
    -20, -10, -10, -5, -5, -10, -10, -20,
    -10, 0, 0, 0, 0, 0, 0, -10,
    -10, 0, 5, 5, 5, 5, 0, -10,
    -5, 0, 5, 5, 5, 5, 0, -5,
    -5, 0, 5, 5, 5, 5, 0, -5,
    -10, 5, 5, 5, 5, 5, 0, -10,
    -10, 0, 5, 0, 0, 0, 0, -10,
    -20, -10, -10, -5, -5, -10, -10, -20,
];

pub const KING_POSITION: [i16; 64] = [
    -30, -40, -40, -50, -50, -40, -40, -30,
    -30, -40, -40, -50, -50, -40, -40, -30,
    -30, -40, -40, -50, -50, -40, -40, -30,
    -30, -40, -40, -50, -50, -40, -40, -30,
    -20, -30, -30, -40, -40, -30, -30, -20,
    -10, -20, -20, -20, -20, -20, -20, -10,
    20, 20, 0, 0, 0, 0, 20, 20,
    20, 30, 10, 0, 0, 10, 30, 20,
];

pub const KING_POSITION_END: [i16; 64] = [
    -20, -10, -10, -10, -10, -10, -10, -20,
    -5, 0, 5, 5, 5, 5, 0, -5,
    -10, -5, 20, 30, 30, 20, -5, -10,
    -15, -10, 35, 45, 45, 35, -10, -15,
    -20, -15, 30, 40, 40, 30, -15, -20,
    -25, -20, 25, 25, 25, 20, -20, -25,
    -30, -25, 0, 0, 0, 0, -25, -30,
    -50, -30, -30, -30, -30, -30, -30, -50,
];

/// Distance of each square from the four centre squares, in king steps
/// along files and ranks.
pub const CENTER_MANHATTAN_DISTANCE: [i16; 64] = [
    6, 5, 4, 3, 3, 4, 5, 6,
    5, 4, 3, 2, 2, 3, 4, 5,
    4, 3, 2, 1, 1, 2, 3, 4,
    3, 2, 1, 0, 0, 1, 2, 3,
    3, 2, 1, 0, 0, 1, 2, 3,
    4, 3, 2, 1, 1, 2, 3, 4,
    5, 4, 3, 2, 2, 3, 4, 5,
    6, 5, 4, 3, 3, 4, 5, 6,
];

/// Number of set bits.
pub open spec fn pop_count(b: u64) -> nat
    decreases b,
{
    if b == 0 {
        0
    } else {
        (b % 2) as nat + pop_count(b / 2)
    }
}

/// Relies on u64::count_ones: the number of one bits in the word.
#[verifier::external_body]
fn count_ones(b: u64) -> (r: u32)
    ensures
        r == pop_count(b),
{
    b.count_ones()
}

/// Bishop, rook and queen material of both sides.
pub open spec fn phase_material(pos: Position) -> int {
    let bishops = pos.bitboards[board_index(Color::White, PieceType::Bishop)]
        | pos.bitboards[board_index(Color::Black, PieceType::Bishop)];
    let rooks = pos.bitboards[board_index(Color::White, PieceType::Rook)]
        | pos.bitboards[board_index(Color::Black, PieceType::Rook)];
    let queens = pos.bitboards[board_index(Color::White, PieceType::Queen)]
        | pos.bitboards[board_index(Color::Black, PieceType::Queen)];
    (pop_count(bishops) * 320 + pop_count(rooks) * 500 + pop_count(queens) * 900) as int
}

pub open spec fn endgame(pos: Position) -> bool {
    phase_material(pos) < ENDGAME_MATERIAL
}

/// Another pawn of `color` stands on the file of `sq`.
pub open spec fn doubled(pos: Position, color: Color, sq: u64) -> bool {
    ((A_FILE << (sq % 8) as u64) ^ (1u64 << sq)) & pawns(pos, color) != 0
}

/// No enemy pawn stands on the file of `sq`, or a neighbouring one, ahead of it.
pub open spec fn passed(pos: Position, color: Color, sq: u64) -> bool {
    passed_pawn_mask(color, sq) & pawns(pos, opposite(color)) == 0
}

/// Table index for a man of `color` on `sq`.
pub open spec fn mirrored(color: Color, sq: int) -> int {
    match color {
        Color::Black => sq,
        Color::White => 63 - sq,
    }
}

/// Distance of the enemy king from the centre (0 when it has no king).
pub open spec fn enemy_king_centrality(pos: Position, color: Color) -> int {
    match king_square(pos, opposite(color)) {
        Some(k) => CENTER_MANHATTAN_DISTANCE[k] as int,
        None => 0,
    }
}

/// Positional part of the score of man `p` on `sq`.
pub open spec fn positional(pos: Position, p: Piece, sq: int, end_game: bool) -> int {
    let m = mirrored(p.color, sq);
    match p.kind {
        PieceType::Pawn => PAWN_POSITION[m] as int
            + (if passed(pos, p.color, sq as u64) { PASSED_PAWN_REWARD as int } else { 0 })
            - (if doubled(pos, p.color, sq as u64) { DOUBLED_PAWN_PENALTY as int } else { 0 }),
        PieceType::Knight => KNIGHT_POSITION[m] as int,
        PieceType::Bishop => BISHOP_POSITION[m] as int,
        PieceType::Rook => ROOK_POSITION[m] as int,
        PieceType::Queen => QUEEN_POSITION[m] as int,
        PieceType::King => if !end_game {
            KING_POSITION[m] as int
        } else {
            KING_POSITION_END[m] as int + 10 * enemy_king_centrality(pos, p.color)
        },
    }
}

/// What square `sq` adds to the White-relative score.
pub open spec fn square_score(pos: Position, sq: int, end_game: bool) -> int {
    match piece_at(pos, sq as u64) {
        None => 0,
        Some(p) => {
            let s = piece_value(p.kind) + positional(pos, p, sq, end_game);
            match p.color {
                Color::White => s,
                Color::Black => -s,
            }
        },
    }
}

/// White-relative score of the squares below `n`.
pub open spec fn board_sum(pos: Position, n: int, end_game: bool) -> int
    decreases n,
{
    if n <= 0 {
        0
    } else {
        board_sum(pos, n - 1, end_game) + square_score(pos, n - 1, end_game)
    }
}

/// Static evaluation from the side to move's point of view.
pub open spec fn evaluation(pos: Position) -> int {
    let white = board_sum(pos, 64, endgame(pos));
    match pos.turn {
        Color::White => white,
        Color::Black => -white,
    }
}

/// Bound on what one square adds to the score.
pub const SQUARE_SCORE_BOUND: i32 = 400_000;

impl Position {
    /// The position counts as an endgame: bishops, rooks and queens of both
    /// sides are worth less than four rooks.
    pub fn is_end_game(&self) -> (r: bool)
        ensures
            r == endgame(*self),
    {
        let bishops = self.get_bitboard(Color::White, PieceType::Bishop) | self.get_bitboard(Color::Black, PieceType::Bishop);
        let rooks = self.get_bitboard(Color::White, PieceType::Rook) | self.get_bitboard(Color::Black, PieceType::Rook);
        let queens = self.get_bitboard(Color::White, PieceType::Queen) | self.get_bitboard(Color::Black, PieceType::Queen);
        let nb = count_ones(bishops) as i64;
        let nr = count_ones(rooks) as i64;
        let nq = count_ones(queens) as i64;
        let vb = get_piece_value(PieceType::Bishop) as i64;
        let vr = get_piece_value(PieceType::Rook) as i64;
        let vq = get_piece_value(PieceType::Queen) as i64;
        assert(nb * vb + nr * vr + nq * vq <= 0x1_0000_0000 * 1720) by (nonlinear_arith)
            requires
                0 <= nb <= 0xffff_ffff,
                0 <= nr <= 0xffff_ffff,
                0 <= nq <= 0xffff_ffff,
                vb == 320,
                vr == 500,
                vq == 900,
        ;
        let material: i64 = nb * vb + nr * vr + nq * vq;
        material < ENDGAME_MATERIAL
    }

    /// Another pawn of `color` stands on the file of `square`.
    pub fn contains_multiple_pawns_this_file(&self, color: Color, square: i32) -> (r: bool)
        requires
            0 <= square < 64,
        ensures
            r == doubled(*self, color, square as u64),
    {
        let sq = square as u64;
        let file: u64 = sq % 8;
        let mask = (A_FILE << file) ^ (1u64 << sq);
        let pawns = self.get_bitboard(color, PieceType::Pawn);
        (mask & pawns) != 0
    }

    /// No enemy pawn stands ahead of a pawn of `color` on `square`, on its
    /// file or a neighbouring one.
    pub fn is_passed_pawn(&self, color: Color, square: i32) -> (r: bool)
        requires
            0 <= square < 64,
        ensures
            r == passed(*self, color, square as u64),
    {
        let mask = generate_passed_pawn_mask(color, square as u8);
        let enemy_pawns = self.get_bitboard(color.flipped(), PieceType::Pawn);
        (mask & enemy_pawns) == 0
    }

    /// Occupied squares other than the rooks and queens of `color`: the
    /// blockers to hand to a rook-attack generator.
    pub fn rook_blockers(&self, color: Color) -> (r: u64)
        ensures
            r == self.all_men() ^ (self.bitboards[board_index(color, PieceType::Rook)]
                | self.bitboards[board_index(color, PieceType::Queen)]),
    {
        let allies = self.get_bitboard(color, PieceType::Rook) | self.get_bitboard(color, PieceType::Queen);
        self.occupancy() ^ allies
    }

    /// A rook or queen of `color` stands among `rook_attacks`, the squares
    /// that a rook on the examined square attacks through `rook_blockers`.
    pub fn rooks_connected(&self, color: Color, rook_attacks: u64) -> (r: bool)
        ensures
            r == ((rook_attacks & (self.bitboards[board_index(color, PieceType::Rook)]
                | self.bitboards[board_index(color, PieceType::Queen)])) != 0),
    {
        let allies = self.get_bitboard(color, PieceType::Rook) | self.get_bitboard(color, PieceType::Queen);
        (rook_attacks & allies) != 0
    }

    pub open spec fn all_men(&self) -> u64 {
        self.bitboards[0] | self.bitboards[1] | self.bitboards[2] | self.bitboards[3]
            | self.bitboards[4] | self.bitboards[5] | self.bitboards[6] | self.bitboards[7]
            | self.bitboards[8] | self.bitboards[9] | self.bitboards[10] | self.bitboards[11]
    }

    /// Every occupied square.
    pub fn occupancy(&self) -> (r: u64)
        ensures
            r == self.all_men(),
    {
        let b = &self.bitboards;
        b[0] | b[1] | b[2] | b[3] | b[4] | b[5] | b[6] | b[7] | b[8] | b[9] | b[10] | b[11]
    }

    fn positional_score(&self, p: Piece, square: u8, end_game: bool) -> (r: i32)
        requires
            square < 64,
        ensures
            r == positional(*self, p, square as int, end_game),
            -SQUARE_SCORE_BOUND + 1000 <= r <= SQUARE_SCORE_BOUND - 1000,
    {
        let m: usize = match p.color {
            Color::Black => square as usize,
            Color::White => 63 - square as usize,
        };
        match p.kind {
            PieceType::Pawn => {
                let passed = if self.is_passed_pawn(p.color, square as i32) { PASSED_PAWN_REWARD } else { 0 };
                let penalty = if self.contains_multiple_pawns_this_file(p.color, square as i32) { DOUBLED_PAWN_PENALTY } else { 0 };
                PAWN_POSITION[m] as i32 + passed - penalty
            },
            PieceType::Knight => KNIGHT_POSITION[m] as i32,
            PieceType::Bishop => BISHOP_POSITION[m] as i32,
            PieceType::Rook => ROOK_POSITION[m] as i32,
            PieceType::Queen => QUEEN_POSITION[m] as i32,
            PieceType::King => {
                if !end_game {
                    KING_POSITION[m] as i32
                } else {
                    let centrality: i32 = match self.get_king_square(p.color.flipped()) {
                        Some(k) => CENTER_MANHATTAN_DISTANCE[k as usize] as i32,
                        None => 0,
                    };
                    KING_POSITION_END[m] as i32 + 10 * centrality
                }
            },
        }
    }

    /// Static evaluation in centipawns from the point of view of the side to
    /// move: material plus piece-square terms, pawn structure (passed and
    /// doubled pawns) and, in the endgame, a push of the enemy king to the
    /// edge.
    pub fn evaluate(&self) -> (r: i32)
        ensures
            r == evaluation(*self),
            -64 * SQUARE_SCORE_BOUND <= r <= 64 * SQUARE_SCORE_BOUND,
    {
        let end_game = self.is_end_game();
        let mut eval: i32 = 0;
        let mut sq: u8 = 0;
        while sq < 64
            invariant
                sq <= 64,
                end_game == endgame(*self),
                eval == board_sum(*self, sq as int, end_game),
                -400_000 * sq <= eval <= 400_000 * sq,
            decreases 64 - sq,
        {
            let term: i32 = match self.get_piece(sq) {
                None => 0,
                Some(p) => {
                    let s = get_piece_value(p.kind) + self.positional_score(p, sq, end_game);
                    match p.color {
                        Color::White => s,
                        Color::Black => -s,
                    }
                },
            };
            assert(term == square_score(*self, sq as int, end_game));
            eval = eval + term;
            sq = sq + 1;
        }
        match self.turn {
            Color::White => eval,
            Color::Black => -eval,
        }
    }
}

} // verus!
