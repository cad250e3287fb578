use chess_engine::definitions::{Colors, Pieces, Squares, START_FEN};
use chess_engine::fen::{decode_fen, FenError};

fn decode(text: &str) -> Result<chess_engine::fen::PositionRecord, FenError> {
    decode_fen(text.as_bytes())
}

#[test]
fn decodes_start_position() {
    let record = decode(START_FEN).unwrap();
    assert_eq!(record.squares.len(), 64);
    assert_eq!(record.squares[0], Pieces::Wr);
    assert_eq!(record.squares[4], Pieces::Wk);
    assert_eq!(record.squares[8], Pieces::Wp);
    assert_eq!(record.squares[20], Pieces::Empty);
    assert_eq!(record.squares[59], Pieces::Bq);
    assert_eq!(record.squares[63], Pieces::Br);
    assert_eq!(record.side, Colors::White);
    assert!(record.white_king_side && record.white_queen_side && record.black_king_side && record.black_queen_side);
    assert_eq!(record.en_passant, Squares::NoSquare);
}

#[test]
fn decodes_partial_castling_and_en_passant() {
    let record = decode("4k3/8/8/3pP3/8/8/8/4K3 w Kq d6 0 3").unwrap();
    assert_eq!(record.side, Colors::White);
    assert!(record.white_king_side && !record.white_queen_side && !record.black_king_side && record.black_queen_side);
    assert_eq!(record.en_passant, Squares::D6);
    assert_eq!(record.squares[36], Pieces::Wp);
    assert_eq!(record.squares[35], Pieces::Bp);
}

#[test]
fn decodes_without_move_counters() {
    let record = decode("4k3/8/8/8/8/8/8/4K3 b - -").unwrap();
    assert_eq!(record.side, Colors::Black);
    assert!(!record.white_king_side && !record.black_queen_side);
}

#[test]
fn refuses_unknown_placement_character() {
    assert_eq!(decode("rnbqkbnr/ppppxppp/8/8/8/8/PPPPPPPP/RNBQKBNR w KQkq - 0 1").err(), Some(FenError::Placement));
}

#[test]
fn refuses_short_or_long_ranks() {
    assert_eq!(decode("rnbqkbnr/ppppppp/8/8/8/8/PPPPPPPP/RNBQKBNR w KQkq - 0 1").err(), Some(FenError::Placement));
    assert_eq!(decode("rnbqkbnr/ppppppppp/8/8/8/8/PPPPPPPP/RNBQKBNR w KQkq - 0 1").err(), Some(FenError::Placement));
    assert_eq!(decode("8/8/8/8/8/8/8 w - - 0 1").err(), Some(FenError::Placement));
    assert_eq!(decode("8/8/8/8/8/8/8/8/8 w - - 0 1").err(), Some(FenError::Placement));
    assert_eq!(decode("").err(), Some(FenError::Placement));
}

#[test]
fn refuses_bad_side() {
    assert_eq!(decode("8/8/8/8/8/8/8/8 x - - 0 1").err(), Some(FenError::Side));
    assert_eq!(decode("8/8/8/8/8/8/8/8 w").err(), Some(FenError::Side));
}

#[test]
fn refuses_bad_castling() {
    assert_eq!(decode("8/8/8/8/8/8/8/8 w KQX - 0 1").err(), Some(FenError::Castling));
    assert_eq!(decode("8/8/8/8/8/8/8/8 w KQkqK - 0 1").err(), Some(FenError::Castling));
    assert_eq!(decode("8/8/8/8/8/8/8/8 w  - 0 1").err(), Some(FenError::Castling));
}

#[test]
fn refuses_bad_en_passant() {
    assert_eq!(decode("8/8/8/8/8/8/8/8 w - z9 0 1").err(), Some(FenError::EnPassant));
    assert_eq!(decode("8/8/8/8/8/8/8/8 w - e").err(), Some(FenError::EnPassant));
    assert_eq!(decode("8/8/8/8/8/8/8/8 w - e3x 0 1").err(), Some(FenError::EnPassant));
}
