use chess_engine::board::Board;
use chess_engine::definitions::{Definitions, START_FEN};
use chess_engine::hashkeys::generate_position_key;

fn tables() -> Definitions {
    let mut definitions = Definitions::new();
    definitions.init_with_seed(5);
    definitions
}

fn key_of(definitions: &Definitions, fen: &str) -> u64 {
    let mut board = Board::new(definitions);
    board.parse_fen(fen).unwrap();
    board.position_key()
}

#[test]
fn stored_key_matches_fresh_computation() {
    let definitions = tables();
    let mut board = Board::new(&definitions);
    board.parse_fen(START_FEN).unwrap();
    assert_eq!(generate_position_key(definitions, board), board.position_key());
}

#[test]
fn same_record_gives_same_key() {
    let definitions = tables();
    assert_eq!(key_of(&definitions, START_FEN), key_of(&definitions, START_FEN));
}

#[test]
fn side_to_move_changes_key_by_side_key() {
    let definitions = tables();
    let white = key_of(&definitions, "4k3/8/8/8/8/8/8/4K3 w - - 0 1");
    let black = key_of(&definitions, "4k3/8/8/8/8/8/8/4K3 b - - 0 1");
    assert_eq!(white ^ black, definitions.side_key());
    assert_ne!(white, black);
}

#[test]
fn en_passant_changes_key_by_empty_piece_key() {
    let definitions = tables();
    let without = key_of(&definitions, "4k3/8/8/8/4P3/8/8/4K3 b - - 0 1");
    let with = key_of(&definitions, "4k3/8/8/8/4P3/8/8/4K3 b - e3 0 1");
    assert_eq!(without ^ with, definitions.piece_keys()[45]);
}

#[test]
fn castling_changes_key_by_castle_keys() {
    let definitions = tables();
    let none = key_of(&definitions, "r3k2r/8/8/8/8/8/8/R3K2R w - - 0 1");
    let all = key_of(&definitions, "r3k2r/8/8/8/8/8/8/R3K2R w KQkq - 0 1");
    let keys = definitions.castle_keys();
    assert_eq!(none ^ all, keys[0] ^ keys[15]);
}

#[test]
fn moving_one_piece_changes_key_by_its_square_keys() {
    let definitions = tables();
    let before = key_of(&definitions, "4k3/8/8/8/8/8/8/4K1N1 w - - 0 1");
    let after = key_of(&definitions, "4k3/8/8/8/8/5N2/8/4K3 w - - 0 1");
    let keys = definitions.piece_keys();
    assert_eq!(before ^ after, keys[2 * 120 + 27] ^ keys[2 * 120 + 46]);
}

#[test]
fn key_with_black_to_move_and_nothing_else() {
    let definitions = tables();
    let key = key_of(&definitions, "8/8/8/8/8/8/8/8 b - - 0 1");
    assert_eq!(key, definitions.castle_keys()[0]);
}
