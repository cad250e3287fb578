use chess_engine::attack::{square_attacked, squares_attacked_by_side};
use chess_engine::board::Board;
use chess_engine::definitions::{Colors, Definitions, START_FEN};

const MIDGAME_POSITIONS: [&str; 4] = [
    "r3k2r/p1ppqpb1/bn2pnp1/3PN3/1p2P3/2N2Q1p/PPPBBPPP/R3K2R w KQkq - 0 1",
    "8/3q1p2/8/5P2/4Q3/8/8/8 w - - 0 2",
    "r1bq1rk1/pp2bppp/2n1pn2/3p4/2PP4/2N1PN2/PP1B1PPP/R2QKB1R b KQ - 0 8",
    "4k3/1P6/8/3Bb3/8/2n5/5K2/7r w - - 0 1",
];

fn tables() -> Definitions {
    let mut definitions = Definitions::new();
    definitions.init_with_seed(99);
    definitions
}

fn on_board(square: i32) -> bool {
    (21..=98).contains(&square) && (1..=8).contains(&(square % 10))
}

/// Whether the piece on `from` attacks `to`, worked out from that piece's moves.
fn piece_attacks(pieces: &[i32; 120], from: i32, to: i32) -> bool {
    let slides = |directions: &[i32]| {
        directions.iter().any(|&d| {
            let mut square = from + d;
            while on_board(square) {
                if square == to {
                    return true;
                }
                if pieces[square as usize] != 0 {
                    return false;
                }
                square += d;
            }
            false
        })
    };
    let jumps = |offsets: &[i32]| offsets.iter().any(|&d| from + d == to);
    match pieces[from as usize] {
        1 => to == from + 9 || to == from + 11,
        7 => to == from - 9 || to == from - 11,
        2 | 8 => jumps(&[-21, -19, -12, -8, 8, 12, 19, 21]),
        3 | 9 => slides(&[-11, -9, 9, 11]),
        4 | 10 => slides(&[-10, -1, 1, 10]),
        5 | 11 => slides(&[-11, -10, -9, -1, 1, 9, 10, 11]),
        6 | 12 => jumps(&[-11, -10, -9, -1, 1, 9, 10, 11]),
        _ => false,
    }
}

fn attacked_by_some_piece(pieces: &[i32; 120], to: i32, side: Colors) -> bool {
    (21..=98).filter(|&from| on_board(from)).any(|from| {
        let piece = pieces[from as usize];
        let owner_ok = match side {
            Colors::White => (1..=6).contains(&piece),
            _ => (7..=12).contains(&piece),
        };
        owner_ok && piece_attacks(pieces, from, to)
    })
}

fn assert_agrees_with_brute_force(fen: &str) {
    let definitions = tables();
    let mut board = Board::new(&definitions);
    board.parse_fen(fen).unwrap();
    let pieces = board.pieces();
    for side in [Colors::White, Colors::Black] {
        for square in (21..=98).filter(|&s| on_board(s)) {
            assert_eq!(
                square_attacked(square, side, &board),
                attacked_by_some_piece(&pieces, square, side),
                "{} square {} side {:?}",
                fen,
                square,
                side
            );
        }
    }
}

#[test]
fn start_position_agrees_with_brute_force() {
    assert_agrees_with_brute_force(START_FEN);
}

#[test]
fn midgame_positions_agree_with_brute_force() {
    for fen in MIDGAME_POSITIONS {
        assert_agrees_with_brute_force(fen);
    }
}

#[test]
fn queen_and_pawns_scenario() {
    let definitions = tables();
    let mut board = Board::new(&definitions);
    board.parse_fen("8/3q1p2/8/5P2/4Q3/8/8/8 w - - 0 2").unwrap();
    // e4 (55) holds the white queen; neither the black queen on d7 nor the black pawn on f7 reaches it.
    assert!(!square_attacked(55, Colors::Black, &board));
    // f5 (66), diagonally next to the queen, holds the white pawn that ends the queen's diagonal.
    assert!(square_attacked(66, Colors::White, &board));
    // h7 (88) lies on the same diagonal past the pawn: the pawn blocks the queen.
    assert!(!square_attacked(88, Colors::White, &board));
    // d5 (64) lies on the queen's other diagonal, which is open.
    assert!(square_attacked(64, Colors::White, &board));
    // The black queen sees down the d file to d1 (24) and along the seventh rank to e7 (85) but not past f7.
    assert!(square_attacked(24, Colors::Black, &board));
    assert!(square_attacked(85, Colors::Black, &board));
    assert!(!square_attacked(87, Colors::Black, &board));
    // The black pawn on f7 attacks e6 (75) and g6 (77).
    assert!(square_attacked(75, Colors::Black, &board));
    assert!(square_attacked(77, Colors::Black, &board));
}

#[test]
fn start_position_attack_maps() {
    let definitions = tables();
    let mut board = Board::new(&definitions);
    board.parse_fen(START_FEN).unwrap();
    let white = squares_attacked_by_side(Colors::White, &board);
    let black = squares_attacked_by_side(Colors::Black, &board);
    assert_eq!(white.len(), 64);
    // Rank 3 (rows 40..48 of the map, rank 8 first) is covered by white, rank 6 by black.
    assert!(white[40..48].iter().all(|attacked| *attacked));
    assert!(black[16..24].iter().all(|attacked| *attacked));
    assert!(white[16..40].iter().all(|attacked| !*attacked));
    // a1 is attacked by no white piece.
    assert!(!white[56]);
    assert_eq!(white.iter().filter(|attacked| **attacked).count(), 22);
}

#[test]
fn knight_and_king_attacks() {
    let definitions = tables();
    let mut board = Board::new(&definitions);
    board.parse_fen("4k3/8/8/8/4N3/8/8/4K3 w - - 0 1").unwrap();
    for target in [47, 36, 34, 43, 63, 74, 76, 67] {
        assert!(square_attacked(target, Colors::White, &board));
    }
    assert!(!square_attacked(65, Colors::White, &board));
    for target in [24, 26, 34, 35, 36] {
        assert!(square_attacked(target, Colors::White, &board));
    }
    assert!(square_attacked(94, Colors::Black, &board));
    assert!(square_attacked(86, Colors::Black, &board));
}
