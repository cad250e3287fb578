use chess_engine::definitions::{
    Castle, ChessboardFiles, ChessboardRanks, Colors, Definitions, Move, Pieces, Squares, Undo,
};
use chess_engine::init::init;

#[test]
fn pieces_from_u32_round_trip() {
    for value in 0..13u32 {
        assert_eq!(Pieces::from_u32(value).to_u32(), value);
    }
    assert_eq!(Pieces::from_u32(6), Pieces::Wk);
    assert_eq!(Pieces::from_u32(7), Pieces::Bp);
}

#[test]
fn files_and_ranks_from_u32() {
    assert_eq!(ChessboardFiles::from_u32(0), ChessboardFiles::A);
    assert_eq!(ChessboardFiles::from_u32(7), ChessboardFiles::H);
    assert_eq!(ChessboardFiles::from_u32(8), ChessboardFiles::NoFile);
    assert_eq!(ChessboardRanks::from_u32(0), ChessboardRanks::R1);
    assert_eq!(ChessboardRanks::from_u32(7), ChessboardRanks::R8);
    assert_eq!(ChessboardRanks::from_u32(8), ChessboardRanks::NoRank);
}

#[test]
fn squares_from_u32_round_trip() {
    assert_eq!(Squares::from_u32(21), Squares::A1);
    assert_eq!(Squares::from_u32(55), Squares::E4);
    assert_eq!(Squares::from_u32(98), Squares::H8);
    assert_eq!(Squares::from_u32(99), Squares::NoSquare);
    assert_eq!(Squares::from_u32(100), Squares::OffBoard);
    for rank in 0..8u32 {
        for file in 0..8u32 {
            let value = 21 + file + rank * 10;
            assert_eq!(Squares::from_u32(value).to_u32(), value);
        }
    }
}

#[test]
fn castle_bits() {
    assert_eq!(Castle::WhiteKingSideCastel.bit(), 1);
    assert_eq!(Castle::WhiteQueenSideCastel.bit(), 2);
    assert_eq!(Castle::BlackKingSideCastel.bit(), 4);
    assert_eq!(Castle::BlackQueenSideCastel.bit(), 8);
}

#[test]
fn colors_index() {
    assert_eq!(Colors::White.to_usize(), 0);
    assert_eq!(Colors::Black.to_usize(), 1);
    assert_eq!(Colors::Both.to_usize(), 2);
}

#[test]
fn move_fields() {
    let from: i32 = 6;
    let to: i32 = 12;
    let captured = Pieces::Wr.to_u32() as i32;
    let promoted = Pieces::Br.to_u32() as i32;
    let mut mov = Move::new(from | (to << 7) | (captured << 14) | (promoted << 20), 0);
    assert_eq!(mov.from_square(), 6);
    assert_eq!(mov.to_square(), 12);
    assert_eq!(mov.captured_piece(), 4);
    assert_eq!(mov.promoted(), 10);
    assert_eq!(mov.pawn_start(), 0);
    assert_eq!(mov.en_passant(), 0);
    assert_eq!(mov.castle(), 0);
    assert_eq!(mov.captured_piece_with_en_passant(), 4 << 14);
    assert_eq!(mov.promotion(), 10 << 20);
    mov.set_mov_e(mov.mov_e() | 0x80000 | 0x40000 | 0x1000000);
    assert_eq!(mov.pawn_start(), 0x80000);
    assert_eq!(mov.en_passant(), 0x40000);
    assert_eq!(mov.castle(), 0x1000000);
}

#[test]
fn undo_new_builds() {
    let undo = Undo::new();
    let copy = undo;
    let _ = copy;
}

#[test]
fn definitions_new_is_zero() {
    let definitions = Definitions::new();
    assert!(definitions.board_120_squares_in_64_squares_notation().iter().all(|v| *v == 0));
    assert!(definitions.piece_keys().iter().all(|v| *v == 0));
    assert_eq!(definitions.side_key(), 0);
}

#[test]
fn geometry_tables_after_init() {
    let mut definitions = Definitions::new();
    init(&mut definitions);
    let to_64 = definitions.board_120_squares_in_64_squares_notation();
    let to_120 = definitions.board_64_squares_in_120_squares_notation();
    assert_eq!(to_120[0], 21);
    assert_eq!(to_120[9], 32);
    assert_eq!(to_120[63], 98);
    assert_eq!(to_64[32], 9);
    assert_eq!(to_64[0], 65);
    assert_eq!(to_64[29], 65);
    for square_64 in 0..64 {
        assert_eq!(to_64[to_120[square_64] as usize], square_64 as i32);
    }
    let files = definitions.files_board();
    let ranks = definitions.ranks_board();
    assert_eq!(files[55], 4);
    assert_eq!(ranks[55], 3);
    assert_eq!(files[20], 100);
    assert_eq!(ranks[119], 100);
    let set = definitions.bit_mask_to_set_bit_inside_bitboard();
    let clear = definitions.bit_mask_to_clear_bit_inside_bitboard();
    assert_eq!(set[10], 1u64 << 10);
    assert_eq!(clear[10], !(1u64 << 10));
}

#[test]
fn same_seed_gives_same_keys() {
    let mut first = Definitions::new();
    first.init_with_seed(42);
    let mut second = Definitions::new();
    second.init_with_seed(42);
    assert_eq!(first.piece_keys().to_vec(), second.piece_keys().to_vec());
    assert_eq!(first.side_key(), second.side_key());
    assert_eq!(first.castle_keys(), second.castle_keys());
    let mut third = Definitions::new();
    third.init_with_seed(43);
    assert_ne!(first.side_key(), third.side_key());
}

#[test]
fn hash_keys_are_drawn_one_by_one() {
    let mut definitions = Definitions::new();
    definitions.init_with_seed(1);
    let keys = definitions.piece_keys();
    assert_ne!(keys[1 * 120 + 21], keys[1 * 120 + 22]);
    assert_ne!(keys[1 * 120 + 21], keys[2 * 120 + 21]);
    assert_ne!(definitions.castle_keys()[0], definitions.castle_keys()[1]);
}
