use vstd::prelude::*;

verus! {

/// The two sides.
#[derive(Debug, Clone, Copy, PartialEq, Eq, Structural)]
pub enum Color {
    White,
    Black,
}

/// Kinds of chess men, in board-index order.
#[derive(Debug, Clone, Copy, PartialEq, Eq, Structural)]
pub enum PieceType {
    Pawn,
    Knight,
    Bishop,
    Rook,
    Queen,
    King,
}

/// A man on the board.
#[derive(Debug, Clone, Copy, PartialEq, Eq, Structural)]
pub struct Piece {
    pub color: Color,
    pub kind: PieceType,
}

/// What a move does beyond moving a man from one square to another.
#[derive(Debug, Clone, Copy, PartialEq, Eq, Structural)]
pub enum MoveFlag {
    Quiet,
    DoublePush,
    Capture,
    Castle,
    EnPassant,
    PromoteKnight,
    PromoteBishop,
    PromoteRook,
    PromoteQueen,
}

/// A move: origin square, destination square (both `0..64`, a1 = 0, h8 = 63)
/// and flag.
#[derive(Debug, Clone, Copy, PartialEq, Eq, Structural)]
pub struct Move {
    pub from: u8,
    pub to: u8,
    pub flag: MoveFlag,
}

pub open spec fn opposite(c: Color) -> Color {
    match c {
        Color::White => Color::Black,
        Color::Black => Color::White,
    }
}

impl Color {
    /// The other side.
    pub fn flipped(self) -> (r: Color)
        ensures
            r == opposite(self),
    {
        match self {
            Color::White => Color::Black,
            Color::Black => Color::White,
        }
    }

    /// 0 for White, 1 for Black.
    pub fn index(self) -> (r: usize)
        ensures
            r == color_index(self),
    {
        match self {
            Color::White => 0,
            Color::Black => 1,
        }
    }
}

pub open spec fn color_index(c: Color) -> int {
    match c {
        Color::White => 0,
        Color::Black => 1,
    }
}

pub open spec fn kind_index(k: PieceType) -> int {
    match k {
        PieceType::Pawn => 0,
        PieceType::Knight => 1,
        PieceType::Bishop => 2,
        PieceType::Rook => 3,
        PieceType::Queen => 4,
        PieceType::King => 5,
    }
}

pub open spec fn kind_of_index(i: int) -> PieceType {
    if i == 0 {
        PieceType::Pawn
    } else if i == 1 {
        PieceType::Knight
    } else if i == 2 {
        PieceType::Bishop
    } else if i == 3 {
        PieceType::Rook
    } else if i == 4 {
        PieceType::Queen
    } else {
        PieceType::King
    }
}

impl PieceType {
    /// Index of this kind within one side's six bitboards.
    pub fn index(self) -> (r: usize)
        ensures
            r == kind_index(self),
    {
        match self {
            PieceType::Pawn => 0,
            PieceType::Knight => 1,
            PieceType::Bishop => 2,
            PieceType::Rook => 3,
            PieceType::Queen => 4,
            PieceType::King => 5,
        }
    }

    /// Index of the bitboard that holds the men of this kind and `color`.
    pub fn get_side_index(self, color: Color) -> (r: usize)
        ensures
            r == board_index(color, self),
            r < 12,
    {
        color.index() * 6 + self.index()
    }
}

pub open spec fn board_index(c: Color, k: PieceType) -> int {
    color_index(c) * 6 + kind_index(k)
}

/// Material value of a kind in centipawns.
pub open spec fn piece_value(k: PieceType) -> int {
    match k {
        PieceType::Pawn => 100,
        PieceType::Knight => 300,
        PieceType::Bishop => 320,
        PieceType::Rook => 500,
        PieceType::Queen => 900,
        PieceType::King => 0,
    }
}

/// Material value of a kind in centipawns: pawn 100, knight 300, bishop 320,
/// rook 500, queen 900, king 0.
pub fn get_piece_value(piece_type: PieceType) -> (r: i32)
    ensures
        r == piece_value(piece_type),
{
    match piece_type {
        PieceType::Pawn => 100,
        PieceType::Knight => 300,
        PieceType::Bishop => 320,
        PieceType::Rook => 500,
        PieceType::Queen => 900,
        PieceType::King => 0,
    }
}

} // verus!
