use vstd::prelude::*;
use crate::masks::has_bit;
use crate::piece::{Color, Piece, PieceType, kind_of_index, board_index};

verus! {

/// A snapshot of a chess position: one bitboard per man (indexed
/// `color * 6 + kind`, bit `sq` set when the man stands on square `sq`) and
/// the side to move.
#[derive(Debug, Clone, Copy)]
pub struct Position {
    pub bitboards: [u64; 12],
    pub turn: Color,
}

/// Index of the first bitboard, from `i` on, that has square `sq` set.
pub open spec fn first_board_from(pos: Position, sq: u64, i: int) -> Option<int>
    decreases 12 - i,
{
    if i < 0 || i >= 12 {
        None
    } else if has_bit(pos.bitboards[i], sq) {
        Some(i)
    } else {
        first_board_from(pos, sq, i + 1)
    }
}

pub open spec fn piece_of_board(i: int) -> Piece {
    Piece {
        color: if i < 6 { Color::White } else { Color::Black },
        kind: kind_of_index(i % 6),
    }
}

/// The man on square `sq`, if any.
pub open spec fn piece_at(pos: Position, sq: u64) -> Option<Piece> {
    match first_board_from(pos, sq, 0) {
        Some(i) => Some(piece_of_board(i)),
        None => None,
    }
}

/// Lowest set square of `b`, from square `i` on.
pub open spec fn lowest_square_from(b: u64, i: int) -> Option<int>
    decreases 64 - i,
{
    if i < 0 || i >= 64 {
        None
    } else if has_bit(b, i as u64) {
        Some(i)
    } else {
        lowest_square_from(b, i + 1)
    }
}

/// Square of the king of `color` (the lowest one, should there be several).
pub open spec fn king_square(pos: Position, color: Color) -> Option<int> {
    lowest_square_from(pos.bitboards[board_index(color, PieceType::King)], 0)
}

pub open spec fn pawns(pos: Position, color: Color) -> u64 {
    pos.bitboards[board_index(color, PieceType::Pawn)]
}

impl Position {
    /// Bitboard of the men of `kind` and `color`.
    pub fn get_bitboard(&self, color: Color, kind: PieceType) -> (r: u64)
        ensures
            r == self.bitboards[board_index(color, kind)],
    {
        self.bitboards[kind.get_side_index(color)]
    }

    /// The man on `square`, if any.
    pub fn get_piece(&self, square: u8) -> (r: Option<Piece>)
        requires
            square < 64,
        ensures
            r == piece_at(*self, square as u64),
    {
        let sq = square as u64;
        let mut i: usize = 0;
        while i < 12
            invariant
                i <= 12,
                sq == square,
                sq < 64,
                first_board_from(*self, sq, 0) == first_board_from(*self, sq, i as int),
            decreases 12 - i,
        {
            if (self.bitboards[i] >> sq) & 1 == 1 {
                return Some(
                    Piece {
                        color: if i < 6 { Color::White } else { Color::Black },
                        kind: kind_from_index(i % 6),
                    },
                );
            }
            i = i + 1;
        }
        None
    }

    /// Square of the king of `color`, `None` when that side has no king.
    pub fn get_king_square(&self, color: Color) -> (r: Option<u8>)
        ensures
            match r {
                Some(s) => king_square(*self, color) == Some(s as int) && s < 64,
                None => king_square(*self, color) is None,
            },
    {
        let b = self.get_bitboard(color, PieceType::King);
        let mut i: u64 = 0;
        while i < 64
            invariant
                i <= 64,
                b == self.bitboards[board_index(color, PieceType::King)],
                lowest_square_from(b, 0) == lowest_square_from(b, i as int),
            decreases 64 - i,
        {
            if (b >> i) & 1 == 1 {
                return Some(i as u8);
            }
            i = i + 1;
        }
        None
    }
}

fn kind_from_index(i: usize) -> (r: PieceType)
    requires
        i < 6,
    ensures
        r == kind_of_index(i as int),
{
    if i == 0 {
        PieceType::Pawn
    } else if i == 1 {
        PieceType::Knight
    } else if i == 2 {
        PieceType::Bishop
    } else if i == 3 {
        PieceType::Rook
    } else if i == 4 {
        PieceType::Queen
    } else {
        PieceType::King
    }
}

} // verus!
