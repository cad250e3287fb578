use chess_engine::board::{Board, InvariantViolation};
use chess_engine::definitions::{Colors, Definitions, Pieces, Squares, PIECE_CHARACTERS, START_FEN};
use chess_engine::fen::{decode_fen, FenError, PositionRecord};

const TEST_FEN_1: &str = "r3k2r/p1ppqpb1/bn2pnp1/3PN3/1p2P3/2N2Q1p/PPPBBPPP/R3K2R w KQkq - 0 1";

fn tables() -> Definitions {
    let mut definitions = Definitions::new();
    definitions.init_with_seed(2024);
    definitions
}

fn grid(board: &Board) -> Vec<String> {
    let pieces = board.pieces();
    (0..8)
        .rev()
        .map(|rank| (0..8).map(|file| PIECE_CHARACTERS[pieces[21 + file + rank * 10] as usize]).collect())
        .collect()
}

#[test]
fn start_position_round_trip() {
    let definitions = tables();
    let mut board = Board::new(&definitions);
    assert_eq!(board.parse_fen(START_FEN), Ok(()));
    let expected: Vec<String> = ["rnbqkbnr", "pppppppp", "........", "........", "........", "........", "PPPPPPPP", "RNBQKBNR"]
        .iter()
        .map(|row| row.to_string())
        .collect();
    assert_eq!(grid(&board), expected);
    assert_eq!(board.side(), Colors::White);
    assert_eq!(board.en_passant_square(), Squares::NoSquare);
    assert_eq!(board.castel_permission(), 15);
    assert_eq!(board.check_board(), Ok(()));
}

#[test]
fn start_position_caches() {
    let definitions = tables();
    let mut board = Board::new(&definitions);
    board.parse_fen(START_FEN).unwrap();
    let pawns = board.pawns();
    assert_eq!(pawns[0], 0xFF00);
    assert_eq!(pawns[1], 0x00FF_0000_0000_0000);
    assert_eq!(pawns[2], 0x00FF_0000_0000_FF00);
}

#[test]
fn midgame_position_is_consistent() {
    let definitions = tables();
    let mut board = Board::new(&definitions);
    assert_eq!(board.parse_fen(TEST_FEN_1), Ok(()));
    assert_eq!(board.check_board(), Ok(()));
    let pieces = board.pieces();
    assert_eq!(pieces[25], Pieces::Wk.to_u32() as i32);
    assert_eq!(pieces[95], Pieces::Bk.to_u32() as i32);
    assert_eq!(pieces[20], 100);
}

#[test]
fn reset_board_empties_real_squares() {
    let definitions = tables();
    let mut board = Board::new(&definitions);
    board.parse_fen(START_FEN).unwrap();
    board.reset_board();
    let pieces = board.pieces();
    for square in 0..120usize {
        let column = square % 10;
        let real = (21..=98).contains(&square) && (1..=8).contains(&column);
        assert_eq!(pieces[square], if real { 0 } else { 100 });
    }
    assert_eq!(board.side(), Colors::Both);
    assert_eq!(board.en_passant_square(), Squares::NoSquare);
    assert_eq!(board.castel_permission(), 0);
    assert_eq!(board.position_key(), 0);
    assert_eq!(board.pawns(), [0, 0, 0]);
}

#[test]
fn reset_board_fails_the_side_check() {
    let definitions = tables();
    let mut board = Board::new(&definitions);
    board.reset_board();
    board.update_lists_material();
    assert_eq!(board.check_board(), Err(InvariantViolation::Side));
}

#[test]
fn missing_white_king_is_reported() {
    let definitions = tables();
    let mut board = Board::new(&definitions);
    board.parse_fen("8/8/8/8/8/8/8/k7 w - - 0 1").unwrap();
    assert_eq!(board.check_board(), Err(InvariantViolation::WhiteKing));
}

#[test]
fn missing_black_king_is_reported() {
    let definitions = tables();
    let mut board = Board::new(&definitions);
    board.parse_fen("8/8/8/8/8/8/8/K7 b - - 0 1").unwrap();
    assert_eq!(board.check_board(), Err(InvariantViolation::BlackKing));
}

#[test]
fn en_passant_on_wrong_rank_is_reported() {
    let definitions = tables();
    let mut board = Board::new(&definitions);
    board.parse_fen("4k3/8/8/8/4P3/8/8/4K3 w - e3 0 1").unwrap();
    assert_eq!(board.check_board(), Err(InvariantViolation::EnPassant));
    board.parse_fen("4k3/8/8/8/4P3/8/8/4K3 b - e3 0 1").unwrap();
    assert_eq!(board.check_board(), Ok(()));
    assert_eq!(board.en_passant_square(), Squares::E3);
}

fn record_of(fen: &str) -> PositionRecord {
    decode_fen(fen.as_bytes()).unwrap()
}

#[test]
fn stale_key_is_reported() {
    let definitions = tables();
    let mut board = Board::new(&definitions);
    board.parse_fen(START_FEN).unwrap();
    let mut record = record_of(START_FEN);
    record.side = Colors::Black;
    board.load_pieces(&record);
    assert_eq!(board.check_board(), Err(InvariantViolation::PositionKey));
}

#[test]
fn stale_piece_list_is_reported() {
    let definitions = tables();
    let mut board = Board::new(&definitions);
    board.parse_fen(START_FEN).unwrap();
    board.load_pieces(&record_of("rnbqkbnr/pppppppp/8/8/8/8/PPPP1PPP/RNBQKBNR w KQkq - 0 1"));
    assert_eq!(board.check_board(), Err(InvariantViolation::PieceList));
}

#[test]
fn stale_piece_count_is_reported() {
    let definitions = tables();
    let mut board = Board::new(&definitions);
    board.parse_fen(START_FEN).unwrap();
    board.load_pieces(&record_of("rnbqkbnr/pppppppp/8/8/4N3/8/PPPPPPPP/RNBQKBNR w KQkq - 0 1"));
    assert_eq!(board.check_board(), Err(InvariantViolation::PieceCount));
}

#[test]
fn load_then_rebuild_is_consistent() {
    let definitions = tables();
    let mut board = Board::new(&definitions);
    board.reset_board();
    board.load_pieces(&record_of(TEST_FEN_1));
    board.update_lists_material();
    assert_eq!(board.check_board(), Ok(()));
    board.update_lists_material();
    assert_eq!(board.check_board(), Ok(()));
}

#[test]
fn parse_errors_leave_board_unchanged() {
    let definitions = tables();
    let mut board = Board::new(&definitions);
    board.parse_fen(START_FEN).unwrap();
    let key = board.position_key();
    assert_eq!(board.parse_fen("rnbqkbnr/pppppppp/8/8/8/8/PPPPPPPP/RNBQKBNR x KQkq - 0 1"), Err(FenError::Side));
    assert_eq!(board.position_key(), key);
    assert_eq!(board.side(), Colors::White);
}

#[test]
fn counts_fit_after_load() {
    let definitions = tables();
    let mut board = Board::new(&definitions);
    board.reset_board();
    assert!(board.counts_fit());
    board.load_pieces(&record_of("QQQQQQQQ/QQQ5/8/8/8/8/8/k6K w - - 0 1"));
    assert!(!board.counts_fit());
    board.load_pieces(&record_of(START_FEN));
    assert!(board.counts_fit());
}

#[test]
fn too_many_pieces_is_refused() {
    let definitions = tables();
    let mut board = Board::new(&definitions);
    assert_eq!(board.parse_fen("QQQQQQQQ/QQQ5/8/8/8/8/8/k6K w - - 0 1"), Err(FenError::TooManyPieces));
    assert_eq!(board.side(), Colors::Both);
    assert_eq!(board.parse_fen("QQQQQQQQ/QQ6/8/8/8/8/8/k6K w - - 0 1"), Ok(()));
    assert_eq!(board.check_board(), Ok(()));
}

#[test]
fn kings_are_big_but_not_major() {
    let definitions = tables();
    let mut board = Board::new(&definitions);
    board.parse_fen("4k3/8/8/8/8/8/8/4K3 w - - 0 1").unwrap();
    assert_eq!(board.big_pieces_number(), [1, 1]);
    assert_eq!(board.major_pieces_number(), [0, 0]);
    assert_eq!(board.minor_pieces_number(), [0, 0]);
    assert_eq!(board.material(), [50000, 50000]);
    assert_eq!(board.check_board(), Ok(()));
}

#[test]
fn start_position_piece_classes() {
    let definitions = tables();
    let mut board = Board::new(&definitions);
    board.parse_fen(START_FEN).unwrap();
    assert_eq!(board.big_pieces_number(), [8, 8]);
    assert_eq!(board.major_pieces_number(), [3, 3]);
    assert_eq!(board.minor_pieces_number(), [4, 4]);
    assert_eq!(board.material(), [8 * 100 + 4 * 325 + 2 * 550 + 1000 + 50000; 2]);
}

#[test]
fn new_board_is_zeroed() {
    let definitions = tables();
    let board = Board::new(&definitions);
    assert_eq!(board.pieces(), [0; 120]);
    assert_eq!(board.pawns(), [0; 3]);
    assert_eq!(board.side(), Colors::White);
    assert_eq!(board.en_passant_square(), Squares::NoSquare);
    assert_eq!(board.castel_permission(), 0);
    assert_eq!(board.position_key(), 0);
    assert_eq!(board.big_pieces_number(), [0, 0]);
    assert_eq!(board.major_pieces_number(), [0, 0]);
    assert_eq!(board.minor_pieces_number(), [0, 0]);
    assert_eq!(board.material(), [0, 0]);
}
