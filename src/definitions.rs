use vstd::prelude::*;
use rand::rngs::StdRng;

verus! {

pub const PROGRAM_NAME: &'static str = "Rust Chess Engine";

/// Number of squares of the padded board: ten columns by twelve rows.
pub const BOARD_SQUARE_NUMBER: usize = 120;

pub const MAX_GAME_HALF_MOVES: usize = 2048;

/// Number of per-(piece, square) hash keys: one row of 120 squares per piece value.
pub const PIECE_KEYS_NUMBER: usize = 1560;

/// Slots of the per-piece location list; no position holds more than ten
/// pieces of one kind.
pub const PIECE_LIST_CAPACITY: usize = 10;

pub const START_FEN: &'static str = "rnbqkbnr/pppppppp/8/8/8/8/PPPPPPPP/RNBQKBNR w KQkq - 0 1";

/// Mailbox value of an empty real square.
pub const EMPTY: i32 = 0;

/// Mailbox value of a padding square, and the file and rank of one.
pub const OFF_BOARD: i32 = 100;

/// Padded number that stands for "no square" (no en passant target, no king).
pub const NO_SQUARE: i32 = 99;

pub const PIECE_CHARACTERS: [char; 13] = ['.', 'P', 'N', 'B', 'R', 'Q', 'K', 'p', 'n', 'b', 'r', 'q', 'k'];

pub const SIDE_CHARACTERS: [char; 3] = ['w', 'b', '-'];

pub const RANK_CHARACTERS: [char; 8] = ['1', '2', '3', '4', '5', '6', '7', '8'];

pub const FILE_CHARACTERS: [char; 8] = ['a', 'b', 'c', 'd', 'e', 'f', 'g', 'h'];

// Piece tables, indexed by the piece's mailbox value:
// 0 empty, 1..6 white pawn, knight, bishop, rook, queen, king, 7..12 the same for black.
pub const PIECE_BIG: [bool; 13] = [
    false, false, true, true, true, true, true, false, true, true, true, true, true,
];

pub const PIECE_MAJOR: [bool; 13] = [
    false, false, false, false, true, true, false, false, false, false, true, true, false,
];

pub const PIECE_MINOR: [bool; 13] = [
    false, false, true, true, false, false, false, false, true, true, false, false, false,
];

pub const PIECE_VALUE: [i32; 13] = [
    0, 100, 325, 325, 550, 1000, 50000, 100, 325, 325, 550, 1000, 50000,
];

pub const PIECE_COLOR: [Colors; 13] = [
    Colors::Both,
    Colors::White,
    Colors::White,
    Colors::White,
    Colors::White,
    Colors::White,
    Colors::White,
    Colors::Black,
    Colors::Black,
    Colors::Black,
    Colors::Black,
    Colors::Black,
    Colors::Black,
];

pub const PIECE_KNIGHT: [bool; 13] = [
    false, false, true, false, false, false, false, false, true, false, false, false, false,
];

pub const PIECE_KING: [bool; 13] = [
    false, false, false, false, false, false, true, false, false, false, false, false, true,
];

pub const PIECE_ROOK_QUEEN: [bool; 13] = [
    false, false, false, false, true, true, false, false, false, false, true, true, false,
];

pub const PIECE_BISHOP_QUEEN: [bool; 13] = [
    false, false, false, true, false, true, false, false, false, true, false, true, false,
];

/// A real square of the padded board: the inner 8x8 block of the 10x12 layout.
pub open spec fn is_real_square(sq: int) -> bool {
    21 <= sq <= 98 && 1 <= sq % 10 <= 8
}

/// The padded number of the square at `file` and `rank`, both in 0..8.
pub open spec fn file_rank_to_square_120(file: int, rank: int) -> int {
    21 + file + rank * 10
}

/// The padded number of dense square `sq64` (0..64, a1 = 0, h8 = 63).
pub open spec fn square_120_of(sq64: int) -> int {
    file_rank_to_square_120(sq64 % 8, sq64 / 8)
}

/// The dense number of padded square `sq120`, or 65 for a padding square.
pub open spec fn square_64_of(sq120: int) -> int {
    if is_real_square(sq120) {
        (sq120 / 10 - 2) * 8 + (sq120 % 10 - 1)
    } else {
        65
    }
}

/// The file (0..8) of a padded square, or 100 for a padding square.
pub open spec fn file_of(sq120: int) -> int {
    if is_real_square(sq120) {
        sq120 % 10 - 1
    } else {
        OFF_BOARD as int
    }
}

/// The rank (0..8) of a padded square, or 100 for a padding square.
pub open spec fn rank_of(sq120: int) -> int {
    if is_real_square(sq120) {
        sq120 / 10 - 2
    } else {
        OFF_BOARD as int
    }
}

/// A value that names a square: a real square, "no square" or "off the board".
pub open spec fn is_square_value(v: int) -> bool {
    is_real_square(v) || v == NO_SQUARE || v == OFF_BOARD
}

pub proof fn lemma_square_64_round_trip(sq64: int)
    requires
        0 <= sq64 < 64,
    ensures
        is_real_square(square_120_of(sq64)),
        square_64_of(square_120_of(sq64)) == sq64,
        0 <= square_120_of(sq64) < 120,
{
}

pub proof fn lemma_square_120_round_trip(sq120: int)
    requires
        is_real_square(sq120),
    ensures
        0 <= square_64_of(sq120) < 64,
        square_120_of(square_64_of(sq120)) == sq120,
{
}

/// What a square can hold.
#[derive(Copy, Clone, Debug, PartialEq, Eq, Structural)]
pub enum Pieces {
    Empty,
    Wp,
    Wn,
    Wb,
    Wr,
    Wq,
    Wk,
    Bp,
    Bn,
    Bb,
    Br,
    Bq,
    Bk,
}

impl Pieces {
    /// The piece's mailbox value.
    pub open spec fn index(self) -> int {
        match self {
            Pieces::Empty => 0,
            Pieces::Wp => 1,
            Pieces::Wn => 2,
            Pieces::Wb => 3,
            Pieces::Wr => 4,
            Pieces::Wq => 5,
            Pieces::Wk => 6,
            Pieces::Bp => 7,
            Pieces::Bn => 8,
            Pieces::Bb => 9,
            Pieces::Br => 10,
            Pieces::Bq => 11,
            Pieces::Bk => 12,
        }
    }

    pub fn to_u32(self) -> (r: u32)
        ensures
            r == self.index(),
    {
        match self {
            Pieces::Empty => 0,
            Pieces::Wp => 1,
            Pieces::Wn => 2,
            Pieces::Wb => 3,
            Pieces::Wr => 4,
            Pieces::Wq => 5,
            Pieces::Wk => 6,
            Pieces::Bp => 7,
            Pieces::Bn => 8,
            Pieces::Bb => 9,
            Pieces::Br => 10,
            Pieces::Bq => 11,
            Pieces::Bk => 12,
        }
    }

    /// The piece whose mailbox value is `value` (0..=12).
    pub fn from_u32(value: u32) -> (r: Pieces)
        requires
            value <= 12,
        ensures
            r.index() == value,
    {
        match value {
            0 => Pieces::Empty,
            1 => Pieces::Wp,
            2 => Pieces::Wn,
            3 => Pieces::Wb,
            4 => Pieces::Wr,
            5 => Pieces::Wq,
            6 => Pieces::Wk,
            7 => Pieces::Bp,
            8 => Pieces::Bn,
            9 => Pieces::Bb,
            10 => Pieces::Br,
            11 => Pieces::Bq,
            _ => Pieces::Bk,
        }
    }
}

#[derive(Copy, Clone, Debug, PartialEq, Eq, Structural)]
pub enum ChessboardFiles {
    A,
    B,
    C,
    D,
    E,
    F,
    G,
    H,
    NoFile,
}

impl ChessboardFiles {
    pub open spec fn index(self) -> int {
        match self {
            ChessboardFiles::A => 0,
            ChessboardFiles::B => 1,
            ChessboardFiles::C => 2,
            ChessboardFiles::D => 3,
            ChessboardFiles::E => 4,
            ChessboardFiles::F => 5,
            ChessboardFiles::G => 6,
            ChessboardFiles::H => 7,
            ChessboardFiles::NoFile => 8,
        }
    }

    /// The file numbered `value` (0 = A .. 7 = H, 8 = none).
    pub fn from_u32(value: u32) -> (r: ChessboardFiles)
        requires
            value <= 8,
        ensures
            r.index() == value,
    {
        match value {
            0 => ChessboardFiles::A,
            1 => ChessboardFiles::B,
            2 => ChessboardFiles::C,
            3 => ChessboardFiles::D,
            4 => ChessboardFiles::E,
            5 => ChessboardFiles::F,
            6 => ChessboardFiles::G,
            7 => ChessboardFiles::H,
            _ => ChessboardFiles::NoFile,
        }
    }
}

#[derive(Copy, Clone, Debug, PartialEq, Eq, Structural)]
pub enum ChessboardRanks {
    R1,
    R2,
    R3,
    R4,
    R5,
    R6,
    R7,
    R8,
    NoRank,
}

impl ChessboardRanks {
    pub open spec fn index(self) -> int {
        match self {
            ChessboardRanks::R1 => 0,
            ChessboardRanks::R2 => 1,
            ChessboardRanks::R3 => 2,
            ChessboardRanks::R4 => 3,
            ChessboardRanks::R5 => 4,
            ChessboardRanks::R6 => 5,
            ChessboardRanks::R7 => 6,
            ChessboardRanks::R8 => 7,
            ChessboardRanks::NoRank => 8,
        }
    }

    /// The rank numbered `value` (0 = rank 1 .. 7 = rank 8, 8 = none).
    pub fn from_u32(value: u32) -> (r: ChessboardRanks)
        requires
            value <= 8,
        ensures
            r.index() == value,
    {
        match value {
            0 => ChessboardRanks::R1,
            1 => ChessboardRanks::R2,
            2 => ChessboardRanks::R3,
            3 => ChessboardRanks::R4,
            4 => ChessboardRanks::R5,
            5 => ChessboardRanks::R6,
            6 => ChessboardRanks::R7,
            7 => ChessboardRanks::R8,
            _ => ChessboardRanks::NoRank,
        }
    }
}

/// A side; `Both` is the neutral value of a board that holds no position yet.
#[derive(Copy, Clone, Debug, PartialEq, Eq, Structural)]
pub enum Colors {
    White,
    Black,
    Both,
}

impl Colors {
    pub open spec fn index(self) -> int {
        match self {
            Colors::White => 0,
            Colors::Black => 1,
            Colors::Both => 2,
        }
    }

    pub fn to_usize(self) -> (r: usize)
        ensures
            r == self.index(),
    {
        match self {
            Colors::White => 0,
            Colors::Black => 1,
            Colors::Both => 2,
        }
    }
}

/// A square of the padded board, named by file and rank, plus the two markers
/// for "no square" and "off the board".
#[derive(Copy, Clone, Debug, PartialEq, Eq, Structural)]
pub enum Squares {
    A1, B1, C1, D1, E1, F1, G1, H1,
    A2, B2, C2, D2, E2, F2, G2, H2,
    A3, B3, C3, D3, E3, F3, G3, H3,
    A4, B4, C4, D4, E4, F4, G4, H4,
    A5, B5, C5, D5, E5, F5, G5, H5,
    A6, B6, C6, D6, E6, F6, G6, H6,
    A7, B7, C7, D7, E7, F7, G7, H7,
    A8, B8, C8, D8, E8, F8, G8, H8,
    NoSquare,
    OffBoard,
}

impl Squares {
    /// The square's number on the padded board.
    pub open spec fn value(self) -> int {
        match self {
            Squares::A1 => 21,
            Squares::B1 => 22,
            Squares::C1 => 23,
            Squares::D1 => 24,
            Squares::E1 => 25,
            Squares::F1 => 26,
            Squares::G1 => 27,
            Squares::H1 => 28,
            Squares::A2 => 31,
            Squares::B2 => 32,
            Squares::C2 => 33,
            Squares::D2 => 34,
            Squares::E2 => 35,
            Squares::F2 => 36,
            Squares::G2 => 37,
            Squares::H2 => 38,
            Squares::A3 => 41,
            Squares::B3 => 42,
            Squares::C3 => 43,
            Squares::D3 => 44,
            Squares::E3 => 45,
            Squares::F3 => 46,
            Squares::G3 => 47,
            Squares::H3 => 48,
            Squares::A4 => 51,
            Squares::B4 => 52,
            Squares::C4 => 53,
            Squares::D4 => 54,
            Squares::E4 => 55,
            Squares::F4 => 56,
            Squares::G4 => 57,
            Squares::H4 => 58,
            Squares::A5 => 61,
            Squares::B5 => 62,
            Squares::C5 => 63,
            Squares::D5 => 64,
            Squares::E5 => 65,
            Squares::F5 => 66,
            Squares::G5 => 67,
            Squares::H5 => 68,
            Squares::A6 => 71,
            Squares::B6 => 72,
            Squares::C6 => 73,
            Squares::D6 => 74,
            Squares::E6 => 75,
            Squares::F6 => 76,
            Squares::G6 => 77,
            Squares::H6 => 78,
            Squares::A7 => 81,
            Squares::B7 => 82,
            Squares::C7 => 83,
            Squares::D7 => 84,
            Squares::E7 => 85,
            Squares::F7 => 86,
            Squares::G7 => 87,
            Squares::H7 => 88,
            Squares::A8 => 91,
            Squares::B8 => 92,
            Squares::C8 => 93,
            Squares::D8 => 94,
            Squares::E8 => 95,
            Squares::F8 => 96,
            Squares::G8 => 97,
            Squares::H8 => 98,
            Squares::NoSquare => 99,
            Squares::OffBoard => 100,
        }
    }

    pub fn to_u32(self) -> (r: u32)
        ensures
            r == self.value(),
    {
        match self {
            Squares::A1 => 21,
            Squares::B1 => 22,
            Squares::C1 => 23,
            Squares::D1 => 24,
            Squares::E1 => 25,
            Squares::F1 => 26,
            Squares::G1 => 27,
            Squares::H1 => 28,
            Squares::A2 => 31,
            Squares::B2 => 32,
            Squares::C2 => 33,
            Squares::D2 => 34,
            Squares::E2 => 35,
            Squares::F2 => 36,
            Squares::G2 => 37,
            Squares::H2 => 38,
            Squares::A3 => 41,
            Squares::B3 => 42,
            Squares::C3 => 43,
            Squares::D3 => 44,
            Squares::E3 => 45,
            Squares::F3 => 46,
            Squares::G3 => 47,
            Squares::H3 => 48,
            Squares::A4 => 51,
            Squares::B4 => 52,
            Squares::C4 => 53,
            Squares::D4 => 54,
            Squares::E4 => 55,
            Squares::F4 => 56,
            Squares::G4 => 57,
            Squares::H4 => 58,
            Squares::A5 => 61,
            Squares::B5 => 62,
            Squares::C5 => 63,
            Squares::D5 => 64,
            Squares::E5 => 65,
            Squares::F5 => 66,
            Squares::G5 => 67,
            Squares::H5 => 68,
            Squares::A6 => 71,
            Squares::B6 => 72,
            Squares::C6 => 73,
            Squares::D6 => 74,
            Squares::E6 => 75,
            Squares::F6 => 76,
            Squares::G6 => 77,
            Squares::H6 => 78,
            Squares::A7 => 81,
            Squares::B7 => 82,
            Squares::C7 => 83,
            Squares::D7 => 84,
            Squares::E7 => 85,
            Squares::F7 => 86,
            Squares::G7 => 87,
            Squares::H7 => 88,
            Squares::A8 => 91,
            Squares::B8 => 92,
            Squares::C8 => 93,
            Squares::D8 => 94,
            Squares::E8 => 95,
            Squares::F8 => 96,
            Squares::G8 => 97,
            Squares::H8 => 98,
            Squares::NoSquare => 99,
            Squares::OffBoard => 100,
        }
    }

    /// The square numbered `value` on the padded board; `value` is a real square,
    /// 99 (no square) or 100 (off the board).
    pub fn from_u32(value: u32) -> (r: Squares)
        requires
            is_square_value(value as int),
        ensures
            r.value() == value,
    {
        match value {
            21 => Squares::A1,
            22 => Squares::B1,
            23 => Squares::C1,
            24 => Squares::D1,
            25 => Squares::E1,
            26 => Squares::F1,
            27 => Squares::G1,
            28 => Squares::H1,
            31 => Squares::A2,
            32 => Squares::B2,
            33 => Squares::C2,
            34 => Squares::D2,
            35 => Squares::E2,
            36 => Squares::F2,
            37 => Squares::G2,
            38 => Squares::H2,
            41 => Squares::A3,
            42 => Squares::B3,
            43 => Squares::C3,
            44 => Squares::D3,
            45 => Squares::E3,
            46 => Squares::F3,
            47 => Squares::G3,
            48 => Squares::H3,
            51 => Squares::A4,
            52 => Squares::B4,
            53 => Squares::C4,
            54 => Squares::D4,
            55 => Squares::E4,
            56 => Squares::F4,
            57 => Squares::G4,
            58 => Squares::H4,
            61 => Squares::A5,
            62 => Squares::B5,
            63 => Squares::C5,
            64 => Squares::D5,
            65 => Squares::E5,
            66 => Squares::F5,
            67 => Squares::G5,
            68 => Squares::H5,
            71 => Squares::A6,
            72 => Squares::B6,
            73 => Squares::C6,
            74 => Squares::D6,
            75 => Squares::E6,
            76 => Squares::F6,
            77 => Squares::G6,
            78 => Squares::H6,
            81 => Squares::A7,
            82 => Squares::B7,
            83 => Squares::C7,
            84 => Squares::D7,
            85 => Squares::E7,
            86 => Squares::F7,
            87 => Squares::G7,
            88 => Squares::H7,
            91 => Squares::A8,
            92 => Squares::B8,
            93 => Squares::C8,
            94 => Squares::D8,
            95 => Squares::E8,
            96 => Squares::F8,
            97 => Squares::G8,
            98 => Squares::H8,
            99 => Squares::NoSquare,
            _ => Squares::OffBoard,
        }
    }
}


/// Castling rights, one bit each in a 4-bit pattern.
#[derive(Copy, Clone, Debug, PartialEq, Eq, Structural)]
pub enum Castle {
    WhiteKingSideCastel,
    WhiteQueenSideCastel,
    BlackKingSideCastel,
    BlackQueenSideCastel,
}

impl Castle {
    pub open spec fn mask(self) -> u8 {
        match self {
            Castle::WhiteKingSideCastel => 1,
            Castle::WhiteQueenSideCastel => 2,
            Castle::BlackKingSideCastel => 4,
            Castle::BlackQueenSideCastel => 8,
        }
    }

    /// The bit of this right in a castling pattern.
    pub fn bit(self) -> (r: u8)
        ensures
            r == self.mask(),
    {
        match self {
            Castle::WhiteKingSideCastel => 1,
            Castle::WhiteQueenSideCastel => 2,
            Castle::BlackKingSideCastel => 4,
            Castle::BlackQueenSideCastel => 8,
        }
    }
}

/// A move packed in 25 bits: from square (bits 0..7), to square (7..14),
/// captured piece (14..18), en passant flag (18), pawn start flag (19),
/// promoted piece (20..24), castle flag (24).
pub struct Move {
    mov_e: i32,
    score: i32,
}

impl Move {
    pub closed spec fn packed(&self) -> i32 {
        self.mov_e
    }

    pub closed spec fn spec_score(&self) -> i32 {
        self.score
    }

    pub fn new(mov_e: i32, score: i32) -> (r: Move)
        ensures
            r.packed() == mov_e,
            r.spec_score() == score,
    {
        Move { mov_e, score }
    }

    pub fn mov_e(&self) -> (r: i32)
        ensures
            r == self.packed(),
    {
        self.mov_e
    }

    pub fn set_mov_e(&mut self, mov_e: i32)
        ensures
            final(self).packed() == mov_e,
            final(self).spec_score() == old(self).spec_score(),
    {
        self.mov_e = mov_e;
    }

    pub fn from_square(&self) -> (r: i32)
        ensures
            r == self.packed() & 0x7F,
            0 <= r < 128,
    {
        let m = self.mov_e;
        assert(0 <= m & 0x7F < 128) by (bit_vector);
        m & 0x7F
    }

    pub fn to_square(&self) -> (r: i32)
        ensures
            r == (self.packed() >> 7) & 0x7F,
            0 <= r < 128,
    {
        let m = self.mov_e;
        assert(0 <= (m >> 7) & 0x7F < 128) by (bit_vector);
        (m >> 7) & 0x7F
    }

    pub fn captured_piece(&self) -> (r: i32)
        ensures
            r == (self.packed() >> 14) & 0xF,
            0 <= r < 16,
    {
        let m = self.mov_e;
        assert(0 <= (m >> 14) & 0xF < 16) by (bit_vector);
        (m >> 14) & 0xF
    }

    pub fn promoted(&self) -> (r: i32)
        ensures
            r == (self.packed() >> 20) & 0xF,
            0 <= r < 16,
    {
        let m = self.mov_e;
        assert(0 <= (m >> 20) & 0xF < 16) by (bit_vector);
        (m >> 20) & 0xF
    }

    /// Nonzero when the move captures, en passant included.
    pub fn captured_piece_with_en_passant(&self) -> (r: i32)
        ensures
            r == self.packed() & 0x7C000,
    {
        self.mov_e & 0x7C000
    }

    /// Nonzero when the move promotes.
    pub fn promotion(&self) -> (r: i32)
        ensures
            r == self.packed() & 0xF00000,
    {
        self.mov_e & 0xF00000
    }

    pub fn en_passant(&self) -> (r: i32)
        ensures
            r == self.packed() & 0x40000,
    {
        self.mov_e & 0x40000
    }

    pub fn pawn_start(&self) -> (r: i32)
        ensures
            r == self.packed() & 0x80000,
    {
        self.mov_e & 0x80000
    }

    pub fn castle(&self) -> (r: i32)
        ensures
            r == self.packed() & 0x1000000,
    {
        self.mov_e & 0x1000000
    }
}

/// What a move overwrites, kept so that it can be taken back.
#[derive(Copy, Clone)]
pub struct Undo {
    half_move: i32,
    castle_permission: i32,
    en_passant_square: i32,
    fifty_full_moves: i32,
    position_key: u64,
}

impl Undo {
    pub closed spec fn is_cleared(&self) -> bool {
        &&& self.half_move == 0
        &&& self.castle_permission == 0
        &&& self.en_passant_square == 0
        &&& self.fifty_full_moves == 0
        &&& self.position_key == 0
    }

    pub fn new() -> (r: Undo)
        ensures
            r.is_cleared(),
    {
        let half_move: i32 = 0;
        let castle_permission: i32 = 0;
        let en_passant_square: i32 = 0;
        let fifty_full_moves: i32 = 0;
        let position_key: u64 = 0;
        Undo { half_move, castle_permission, en_passant_square, fifty_full_moves, position_key }
    }
}

/// The lookup tables shared by every board: the two square numberings, the
/// bit masks, the per-square file and rank, and the hash keys.
#[derive(Copy, Clone)]
pub struct Definitions {
    board_120_squares_in_64_squares_notation: [i32; BOARD_SQUARE_NUMBER],
    board_64_squares_in_120_squares_notation: [i32; 64],
    bit_mask_to_set_bit_inside_bitboard: [u64; 64],
    bit_mask_to_clear_bit_inside_bitboard: [u64; 64],
    /// Row `piece` of 120 keys starts at `piece * 120`.
    piece_keys: [u64; PIECE_KEYS_NUMBER],
    side_key: u64,
    castle_keys: [u64; 16],
    files_board: [i32; BOARD_SQUARE_NUMBER],
    ranks_board: [i32; BOARD_SQUARE_NUMBER],
}

impl Definitions {
    pub closed spec fn to_64(&self) -> Seq<i32> {
        self.board_120_squares_in_64_squares_notation@
    }

    pub closed spec fn to_120(&self) -> Seq<i32> {
        self.board_64_squares_in_120_squares_notation@
    }

    pub closed spec fn set_masks(&self) -> Seq<u64> {
        self.bit_mask_to_set_bit_inside_bitboard@
    }

    pub closed spec fn clear_masks(&self) -> Seq<u64> {
        self.bit_mask_to_clear_bit_inside_bitboard@
    }

    pub closed spec fn keys(&self) -> Seq<u64> {
        self.piece_keys@
    }

    pub closed spec fn the_side_key(&self) -> u64 {
        self.side_key
    }

    pub closed spec fn castling_keys(&self) -> Seq<u64> {
        self.castle_keys@
    }

    pub closed spec fn files(&self) -> Seq<i32> {
        self.files_board@
    }

    pub closed spec fn ranks(&self) -> Seq<i32> {
        self.ranks_board@
    }

    /// The key of `piece` (a mailbox value) standing on padded square `sq`.
    pub open spec fn piece_key(&self, piece: int, sq: int) -> u64 {
        self.keys()[piece * 120 + sq]
    }

    /// The geometry tables hold what their names say.
    pub open spec fn tables_wf(&self) -> bool {
        &&& forall|i: int| 0 <= i < 120 ==> #[trigger] self.to_64()[i] == square_64_of(i)
        &&& forall|i: int| 0 <= i < 64 ==> #[trigger] self.to_120()[i] == square_120_of(i)
        &&& forall|i: int| 0 <= i < 64 ==> #[trigger] self.set_masks()[i] == 1u64 << (i as u64)
        &&& forall|i: int|
            0 <= i < 64 ==> #[trigger] self.clear_masks()[i] == !(1u64 << (i as u64))
        &&& forall|i: int| 0 <= i < 120 ==> #[trigger] self.files()[i] == file_of(i)
        &&& forall|i: int| 0 <= i < 120 ==> #[trigger] self.ranks()[i] == rank_of(i)
    }

    /// Tables that are all zero, to be filled by `init`.
    pub fn new() -> (r: Definitions)
        ensures
            forall|i: int| 0 <= i < 120 ==> #[trigger] r.to_64()[i] == 0,
            forall|i: int| 0 <= i < 64 ==> #[trigger] r.to_120()[i] == 0,
            forall|i: int| 0 <= i < PIECE_KEYS_NUMBER ==> #[trigger] r.keys()[i] == 0,
            r.the_side_key() == 0,
            forall|i: int| 0 <= i < 16 ==> #[trigger] r.castling_keys()[i] == 0,
            forall|i: int| 0 <= i < 64 ==> #[trigger] r.set_masks()[i] == 0,
            forall|i: int| 0 <= i < 64 ==> #[trigger] r.clear_masks()[i] == 0,
            forall|i: int| 0 <= i < 120 ==> #[trigger] r.files()[i] == 0,
            forall|i: int| 0 <= i < 120 ==> #[trigger] r.ranks()[i] == 0,
    {
        Definitions {
            board_120_squares_in_64_squares_notation: [0; BOARD_SQUARE_NUMBER],
            board_64_squares_in_120_squares_notation: [0; 64],
            bit_mask_to_set_bit_inside_bitboard: [0; 64],
            bit_mask_to_clear_bit_inside_bitboard: [0; 64],
            piece_keys: [0; PIECE_KEYS_NUMBER],
            side_key: 0,
            castle_keys: [0; 16],
            files_board: [0; BOARD_SQUARE_NUMBER],
            ranks_board: [0; BOARD_SQUARE_NUMBER],
        }
    }

    pub fn board_120_squares_in_64_squares_notation(&self) -> (r: [i32; BOARD_SQUARE_NUMBER])
        ensures
            r@ == self.to_64(),
    {
        self.board_120_squares_in_64_squares_notation
    }

    pub fn board_64_squares_in_120_squares_notation(&self) -> (r: [i32; 64])
        ensures
            r@ == self.to_120(),
    {
        self.board_64_squares_in_120_squares_notation
    }

    pub fn bit_mask_to_set_bit_inside_bitboard(&self) -> (r: [u64; 64])
        ensures
            r@ == self.set_masks(),
    {
        self.bit_mask_to_set_bit_inside_bitboard
    }

    pub fn bit_mask_to_clear_bit_inside_bitboard(&self) -> (r: [u64; 64])
        ensures
            r@ == self.clear_masks(),
    {
        self.bit_mask_to_clear_bit_inside_bitboard
    }

    pub fn piece_keys(&self) -> (r: [u64; PIECE_KEYS_NUMBER])
        ensures
            r@ == self.keys(),
    {
        self.piece_keys
    }

    pub fn side_key(&self) -> (r: u64)
        ensures
            r == self.the_side_key(),
    {
        self.side_key
    }

    pub fn castle_keys(&self) -> (r: [u64; 16])
        ensures
            r@ == self.castling_keys(),
    {
        self.castle_keys
    }

    pub fn files_board(&self) -> (r: [i32; BOARD_SQUARE_NUMBER])
        ensures
            r@ == self.files(),
    {
        self.files_board
    }

    pub fn ranks_board(&self) -> (r: [i32; BOARD_SQUARE_NUMBER])
        ensures
            r@ == self.ranks(),
    {
        self.ranks_board
    }

    /// Fills the two tables that convert between the padded and the dense numbering.
    fn init_squares(&mut self)
        ensures
            forall|i: int| 0 <= i < 120 ==> #[trigger] final(self).to_64()[i] == square_64_of(i),
            forall|i: int| 0 <= i < 64 ==> #[trigger] final(self).to_120()[i] == square_120_of(i),
            same_masks(final(self), old(self)),
            same_files_ranks(final(self), old(self)),
            same_keys(final(self), old(self)),
    {
        let mut square_120: usize = 0;
        while square_120 < BOARD_SQUARE_NUMBER
            invariant
                square_120 <= BOARD_SQUARE_NUMBER,
                forall|i: int| 0 <= i < square_120 ==> #[trigger] self.board_120_squares_in_64_squares_notation@[i] == square_64_of(i),
                same_masks(self, old(self)),
                same_files_ranks(self, old(self)),
                same_keys(self, old(self)),
            decreases BOARD_SQUARE_NUMBER - square_120,
        {
            let column: usize = square_120 % 10;
            let value: i32 = if 21 <= square_120 && square_120 <= 98 && 1 <= column && column <= 8 {
                ((square_120 / 10 - 2) * 8 + (column - 1)) as i32
            } else {
                65
            };
            self.board_120_squares_in_64_squares_notation[square_120] = value;
            square_120 += 1;
        }
        let mut square_64: usize = 0;
        while square_64 < 64
            invariant
                square_64 <= 64,
                forall|i: int| 0 <= i < 120 ==> #[trigger] self.board_120_squares_in_64_squares_notation@[i] == square_64_of(i),
                forall|i: int| 0 <= i < square_64 ==> #[trigger] self.board_64_squares_in_120_squares_notation@[i] == square_120_of(i),
                same_masks(self, old(self)),
                same_files_ranks(self, old(self)),
                same_keys(self, old(self)),
            decreases 64 - square_64,
        {
            let value: i32 = (21 + square_64 % 8 + (square_64 / 8) * 10) as i32;
            self.board_64_squares_in_120_squares_notation[square_64] = value;
            square_64 += 1;
        }
    }

    /// Fills the masks that set, and those that clear, one bit of a bitboard.
    fn init_masks(&mut self)
        ensures
            forall|i: int| 0 <= i < 64 ==> #[trigger] final(self).set_masks()[i] == 1u64 << (i as u64),
            forall|i: int|
                0 <= i < 64 ==> #[trigger] final(self).clear_masks()[i] == !(1u64 << (i as u64)),
            same_squares(final(self), old(self)),
            same_files_ranks(final(self), old(self)),
            same_keys(final(self), old(self)),
    {
        let mut index: u64 = 0;
        while index < 64
            invariant
                index <= 64,
                forall|i: int| 0 <= i < index ==> #[trigger] self.bit_mask_to_set_bit_inside_bitboard@[i] == 1u64 << (i as u64),
                forall|i: int|
                    0 <= i < index ==> #[trigger] self.bit_mask_to_clear_bit_inside_bitboard@[i] == !(1u64 << (i as u64)),
                same_squares(self, old(self)),
                same_files_ranks(self, old(self)),
                same_keys(self, old(self)),
            decreases 64 - index,
        {
            let mask: u64 = 1u64 << index;
            self.bit_mask_to_set_bit_inside_bitboard[index as usize] = mask;
            self.bit_mask_to_clear_bit_inside_bitboard[index as usize] = !mask;
            index += 1;
        }
    }

    /// Fills the per-square file and rank tables.
    fn init_files_ranks_board(&mut self)
        ensures
            forall|i: int| 0 <= i < 120 ==> #[trigger] final(self).files()[i] == file_of(i),
            forall|i: int| 0 <= i < 120 ==> #[trigger] final(self).ranks()[i] == rank_of(i),
            same_squares(final(self), old(self)),
            same_masks(final(self), old(self)),
            same_keys(final(self), old(self)),
    {
        let mut square_120: usize = 0;
        while square_120 < BOARD_SQUARE_NUMBER
            invariant
                square_120 <= BOARD_SQUARE_NUMBER,
                forall|i: int| 0 <= i < square_120 ==> #[trigger] self.files_board@[i] == file_of(i),
                forall|i: int| 0 <= i < square_120 ==> #[trigger] self.ranks_board@[i] == rank_of(i),
                same_squares(self, old(self)),
                same_masks(self, old(self)),
                same_keys(self, old(self)),
            decreases BOARD_SQUARE_NUMBER - square_120,
        {
            let column: usize = square_120 % 10;
            if 21 <= square_120 && square_120 <= 98 && 1 <= column && column <= 8 {
                self.files_board[square_120] = (column - 1) as i32;
                self.ranks_board[square_120] = (square_120 / 10 - 2) as i32;
            } else {
                self.files_board[square_120] = OFF_BOARD;
                self.ranks_board[square_120] = OFF_BOARD;
            }
            square_120 += 1;
        }
    }

    /// Draws every hash key, one after the other, from `rng`.
    fn init_hash_keys(&mut self, rng: &mut StdRng)
        ensures
            same_squares(final(self), old(self)),
            same_masks(final(self), old(self)),
            same_files_ranks(final(self), old(self)),
    {
        let mut index: usize = 0;
        while index < PIECE_KEYS_NUMBER
            invariant
                same_squares(self, old(self)),
                same_masks(self, old(self)),
                same_files_ranks(self, old(self)),
            decreases PIECE_KEYS_NUMBER - index,
        {
            self.piece_keys[index] = next_key(rng);
            index += 1;
        }
        self.side_key = next_key(rng);
        let mut index: usize = 0;
        while index < 16
            invariant
                same_squares(self, old(self)),
                same_masks(self, old(self)),
                same_files_ranks(self, old(self)),
            decreases 16 - index,
        {
            self.castle_keys[index] = next_key(rng);
            index += 1;
        }
    }

    /// Fills every table, drawing the hash keys from a generator seeded with `seed`.
    pub fn init_with_seed(&mut self, seed: u64)
        ensures
            final(self).tables_wf(),
    {
        let mut rng = seeded_generator(seed);
        self.init_squares();
        self.init_masks();
        self.init_hash_keys(&mut rng);
        self.init_files_ranks_board();
    }

    /// Fills every table, with hash keys that differ from run to run.
    pub fn init(&mut self)
        ensures
            final(self).tables_wf(),
    {
        let seed: u64 = rand::random::<u64>();
        self.init_with_seed(seed);
    }
}

spec fn same_squares(a: &Definitions, b: &Definitions) -> bool {
    a.to_64() == b.to_64() && a.to_120() == b.to_120()
}

spec fn same_masks(a: &Definitions, b: &Definitions) -> bool {
    a.set_masks() == b.set_masks() && a.clear_masks() == b.clear_masks()
}

spec fn same_files_ranks(a: &Definitions, b: &Definitions) -> bool {
    a.files() == b.files() && a.ranks() == b.ranks()
}

spec fn same_keys(a: &Definitions, b: &Definitions) -> bool {
    &&& a.keys() == b.keys()
    &&& a.the_side_key() == b.the_side_key()
    &&& a.castling_keys() == b.castling_keys()
}

/// rand's standard generator, carried through opaquely.
#[verifier::external_type_specification]
#[verifier::external_body]
pub struct ExStdRng(StdRng);

/// Relies on `rand::random::<u64>`, which draws from the thread-local
/// generator seeded by the operating system (and panics only when the system
/// gives no entropy); nothing is promised of the value.
pub assume_specification<T>[ rand::random::<T> ]() -> (r: T)
    where
        rand::distributions::Standard: rand::distributions::Distribution<T>,
;

/// Relies on rand's `SeedableRng::seed_from_u64` for `StdRng`: a generator
/// whose stream is fixed by the seed.
#[verifier::external_body]
fn seeded_generator(seed: u64) -> StdRng {
    <StdRng as rand::SeedableRng>::seed_from_u64(seed)
}

/// Relies on rand's `RngCore::next_u64` for `StdRng`: the next 64 bits of its
/// stream; nothing is promised of the value.
#[verifier::external_body]
fn next_key(rng: &mut StdRng) -> u64 {
    rand::RngCore::next_u64(rng)
}

} // verus!
