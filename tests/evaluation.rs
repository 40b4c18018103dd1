use giffibot::piece::{get_piece_value, Color, Piece, PieceType};
use giffibot::position::Position;
use giffibot::search::GiffiBot;
use giffibot::masks::{generate_passed_pawn_mask, manhattan_distance};

fn position(men: &[(Color, PieceType, u8)], turn: Color) -> Position {
    let mut bitboards = [0u64; 12];
    for &(color, kind, square) in men {
        bitboards[kind.get_side_index(color)] |= 1u64 << square;
    }
    Position { bitboards, turn }
}

// Squares, a1 = 0.
const C4: i32 = 26;
const C5: i32 = 34;
const D7: i32 = 51;
const E2: i32 = 12;
const E7: i32 = 52;
const F2: i32 = 13;
const F3: i32 = 21;
const F6: i32 = 45;
const F7: i32 = 53;
const G2: i32 = 14;
const G6: i32 = 46;
const G7: i32 = 54;
const H2: i32 = 15;

use Color::{Black, White};
use PieceType::{Bishop, King, Knight, Pawn, Queen, Rook};

/// k7/3p3p/8/2p5/2P5/8/5P2/K7 w - - 0 1
fn passed_pawn_position() -> Position {
    position(
        &[
            (White, King, 0),
            (White, Pawn, 26),
            (White, Pawn, 13),
            (Black, King, 56),
            (Black, Pawn, 51),
            (Black, Pawn, 55),
            (Black, Pawn, 34),
        ],
        White,
    )
}

#[test]
fn is_passed_pawn_test1() {
    let bot = GiffiBot::new(passed_pawn_position());

    assert_eq!(bot.is_passed_pawn(White, F2), true);
    assert_eq!(bot.is_passed_pawn(White, C4), false);

    assert_eq!(bot.is_passed_pawn(Black, D7), false);
    assert_eq!(bot.is_passed_pawn(Black, C5), false);
    assert_eq!(bot.is_passed_pawn(Black, H2), true);
}


#[test]
fn contains_multiple_pawns_this_file_test1() {
    // k7/4ppp1/5pp1/8/8/5P2/4PPP1/K7 w - - 0 1
    let board = position(
        &[
            (White, King, 0),
            (White, Pawn, 21),
            (White, Pawn, 12),
            (White, Pawn, 13),
            (White, Pawn, 14),
            (Black, King, 56),
            (Black, Pawn, 52),
            (Black, Pawn, 53),
            (Black, Pawn, 54),
            (Black, Pawn, 45),
            (Black, Pawn, 46),
        ],
        White,
    );
    let bot = GiffiBot::new(board);

    assert_eq!(bot.contains_multiple_pawns_this_file(White, E2), false);
    assert_eq!(bot.contains_multiple_pawns_this_file(White, F2), true);
    assert_eq!(bot.contains_multiple_pawns_this_file(White, F3), true);
    assert_eq!(bot.contains_multiple_pawns_this_file(White, G2), false);

    assert_eq!(bot.contains_multiple_pawns_this_file(Black, E7), false);
    assert_eq!(bot.contains_multiple_pawns_this_file(Black, F6), true);
    assert_eq!(bot.contains_multiple_pawns_this_file(Black, F7), true);
    assert_eq!(bot.contains_multiple_pawns_this_file(Black, G6), true);
    assert_eq!(bot.contains_multiple_pawns_this_file(Black, G7), true);
}

#[test]
fn passed_pawn_white_c4_black_c5() {
    let pos = passed_pawn_position();
    assert!(pos.is_passed_pawn(White, F2));
    assert!(!pos.is_passed_pawn(White, C4));
    assert!(pos.is_passed_pawn(Black, H2));
}

#[test]
fn piece_values() {
    assert_eq!(get_piece_value(Pawn), 100);
    assert_eq!(get_piece_value(Knight), 300);
    assert_eq!(get_piece_value(Bishop), 320);
    assert_eq!(get_piece_value(Rook), 500);
    assert_eq!(get_piece_value(Queen), 900);
    assert_eq!(get_piece_value(King), 0);
}

#[test]
fn get_piece_reads_bitboards() {
    let pos = passed_pawn_position();
    assert_eq!(pos.get_piece(26), Some(Piece { color: White, kind: Pawn }));
    assert_eq!(pos.get_piece(56), Some(Piece { color: Black, kind: King }));
    assert_eq!(pos.get_piece(27), None);
    assert_eq!(pos.get_king_square(White), Some(0));
    assert_eq!(pos.get_king_square(Black), Some(56));
    let empty = position(&[], White);
    assert_eq!(empty.get_king_square(White), None);
}

#[test]
fn passed_pawn_mask_covers_three_files_ahead() {
    // White pawn on e2: files d, e, f from rank 3 up.
    let m = generate_passed_pawn_mask(White, 12);
    let expected: u64 = (0x0101_0101_0101_0101u64 << 3 | 0x0101_0101_0101_0101u64 << 4 | 0x0101_0101_0101_0101u64 << 5)
        & !0xffffu64;
    assert_eq!(m, expected);
    // a-file pawn: two files only.
    let a = generate_passed_pawn_mask(White, 8);
    assert_eq!(a, (0x0101_0101_0101_0101u64 | 0x0202_0202_0202_0202u64) & !0xffffu64);
    // Black pawn on d7: files c, d, e below rank 7.
    let b = generate_passed_pawn_mask(Black, 51);
    assert_eq!(b, (0x0404_0404_0404_0404u64 | 0x0808_0808_0808_0808u64 | 0x1010_1010_1010_1010u64) & 0x0000_ffff_ffff_ffffu64);
    // Nothing ahead on the last rank.
    assert_eq!(generate_passed_pawn_mask(White, 60), 0);
    assert_eq!(generate_passed_pawn_mask(Black, 3), 0);
}

#[test]
fn manhattan_distances() {
    assert_eq!(manhattan_distance(0, 63), 14);
    assert_eq!(manhattan_distance(27, 27), 0);
    assert_eq!(manhattan_distance(12, 5), 2);
}

#[test]
fn end_game_detection() {
    let kings = position(&[(White, King, 4), (Black, King, 60)], White);
    assert!(kings.is_end_game());
    let rooks = position(
        &[(White, King, 4), (Black, King, 60), (White, Rook, 0), (White, Rook, 7), (Black, Rook, 56), (Black, Rook, 63)],
        White,
    );
    // Exactly four rooks is not below the threshold.
    assert!(!rooks.is_end_game());
    let three = position(&[(White, Rook, 0), (White, Rook, 7), (Black, Rook, 56), (Black, Bishop, 58)], White);
    assert!(three.is_end_game());
}

#[test]
fn evaluate_pawn_endgame_exact() {
    // Kings on e1 and e8, white pawn on e2: 100 + table -20 + passed 25.
    let w = position(&[(White, King, 4), (Black, King, 60), (White, Pawn, 12)], White);
    assert_eq!(w.evaluate(), 105);
    let b = position(&[(White, King, 4), (Black, King, 60), (White, Pawn, 12)], Black);
    assert_eq!(b.evaluate(), -105);
    assert_eq!(GiffiBot::new(w).evaluate(), 105);
}

#[test]
fn evaluate_colour_mirror_has_equal_magnitude() {
    // The same position turned half round with colours and side swapped.
    let p = position(&[(White, King, 4), (Black, King, 60), (White, Pawn, 12), (White, Knight, 18)], White);
    let q = position(&[(Black, King, 59), (White, King, 3), (Black, Pawn, 51), (Black, Knight, 45)], Black);
    assert_eq!(p.evaluate(), q.evaluate());
    assert!(p.evaluate() != 0);
}

#[test]
fn doubled_pawns_are_penalised() {
    let single = position(&[(White, King, 4), (Black, King, 60), (White, Pawn, 12)], White);
    let doubled = position(&[(White, King, 4), (Black, King, 60), (White, Pawn, 12), (White, Pawn, 20)], White);
    // e3 pawn: 100 + PAWN[43] (0) + 25 passed - 15 doubled; e2 pawn loses 15.
    assert_eq!(doubled.evaluate() - single.evaluate(), 100 + 0 + 25 - 15 - 15);
}

#[test]
fn rooks_connected_uses_attacks() {
    let pos = position(&[(White, Rook, 0), (White, Queen, 7), (White, King, 4)], White);
    assert_eq!(pos.rook_blockers(White), 1u64 << 4);
    assert!(pos.rooks_connected(White, (1u64 << 7) | 0b1110));
    assert!(!pos.rooks_connected(White, 0b0110));
}
