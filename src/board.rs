use vstd::prelude::*;
use vstd::string::StringSliceAdditionalSpecFns;
use crate::bitboards::{
    bit_count, count_bits, has_bit, lemma_set_bit_count, lemma_set_bit_has, pop_first_bit,
    set_bit_to_bitboard,
};
use crate::definitions::{
    is_real_square, lemma_square_120_round_trip, lemma_square_64_round_trip, rank_of,
    square_120_of, square_64_of, Colors, Definitions, Pieces, Squares, Undo, BOARD_SQUARE_NUMBER,
    EMPTY, MAX_GAME_HALF_MOVES, NO_SQUARE, OFF_BOARD, PIECE_BIG, PIECE_COLOR, PIECE_LIST_CAPACITY,
    PIECE_MAJOR, PIECE_MINOR, PIECE_VALUE,
};
use crate::fen::{decode_fen, fen_spec, FenError, PositionRecord};
use crate::hashkeys::{board_key, generate_position_key};

verus! {

/// Number of slots of the per-piece location lists: ten for each of the 13 piece values.
pub const PIECE_LIST_SLOTS: usize = 130;

/// A mailbox of 120 squares whose real squares hold a piece value (0..=12)
/// and whose padding squares hold the off-board marker.
pub open spec fn cells_wf(cells: Seq<i32>) -> bool {
    &&& cells.len() == 120
    &&& forall|i: int|
        0 <= i < 120 ==> if is_real_square(i) {
            0 <= #[trigger] cells[i] <= 12
        } else {
            cells[i] == OFF_BOARD
        }
}

/// The mailbox of a board that holds no piece.
pub open spec fn empty_cells(cells: Seq<i32>) -> bool {
    &&& cells.len() == 120
    &&& forall|i: int|
        0 <= i < 120 ==> #[trigger] cells[i] == if is_real_square(i) {
            EMPTY
        } else {
            OFF_BOARD
        }
}

/// The padded squares below `n` that hold piece value `p`, in ascending order.
pub open spec fn squares_of(cells: Seq<i32>, p: int, n: nat) -> Seq<int>
    decreases n,
{
    if n == 0 {
        Seq::empty()
    } else if cells[n - 1] == p {
        squares_of(cells, p, (n - 1) as nat).push(n - 1)
    } else {
        squares_of(cells, p, (n - 1) as nat)
    }
}

/// `v` is a piece of color `c` that `table` marks.
pub open spec fn in_class(v: i32, table: [bool; 13], c: Colors) -> bool {
    1 <= v <= 12 && table[v as int] && PIECE_COLOR[v as int] == c
}

/// The number of padded squares below `n` holding a piece of color `c` that `table` marks.
pub open spec fn class_count(cells: Seq<i32>, table: [bool; 13], c: Colors, n: nat) -> int
    decreases n,
{
    if n == 0 {
        0
    } else {
        class_count(cells, table, c, (n - 1) as nat) + if in_class(cells[n - 1], table, c) {
            1int
        } else {
            0int
        }
    }
}

/// The material of color `c` on the padded squares below `n`.
pub open spec fn material_of(cells: Seq<i32>, c: Colors, n: nat) -> int
    decreases n,
{
    if n == 0 {
        0
    } else {
        material_of(cells, c, (n - 1) as nat) + if 1 <= cells[n - 1] <= 12 && PIECE_COLOR[cells[n
            - 1] as int] == c {
            PIECE_VALUE[cells[n - 1] as int] as int
        } else {
            0int
        }
    }
}

/// The last padded square below `n` that holds piece value `p`, or "no square".
pub open spec fn last_square_of(cells: Seq<i32>, p: int, n: nat) -> int {
    let found = squares_of(cells, p, n);
    if found.len() > 0 {
        found.last()
    } else {
        NO_SQUARE as int
    }
}

/// `v` is a white pawn (when `white`) or a black pawn (when `black`).
pub open spec fn is_pawn_of(v: i32, white: bool, black: bool) -> bool {
    (white && v == Pieces::Wp.index()) || (black && v == Pieces::Bp.index())
}

/// Bit `j` of `pawns` is set exactly for the dense squares whose padded square
/// lies below `n` and holds a pawn that `white` and `black` select.
pub open spec fn pawn_bits_below(
    pawns: u64,
    cells: Seq<i32>,
    white: bool,
    black: bool,
    n: nat,
) -> bool {
    forall|j: int|
        0 <= j < 64 ==> (#[trigger] has_bit(pawns, j) <==> (square_120_of(j) < n && is_pawn_of(
            cells[square_120_of(j)],
            white,
            black,
        )))
}

/// Bit `j` of `pawns` is set exactly for the dense squares that hold a pawn
/// that `white` and `black` select.
pub open spec fn pawn_board_of(pawns: u64, cells: Seq<i32>, white: bool, black: bool) -> bool {
    pawn_bits_below(pawns, cells, white, black, 120)
}

/// Every set bit of `pawns` flags a dense square that holds a pawn that
/// `white` and `black` select.
pub open spec fn pawns_on_squares(pawns: u64, cells: Seq<i32>, white: bool, black: bool) -> bool {
    forall|j: int|
        0 <= j < 64 && #[trigger] has_bit(pawns, j) ==> is_pawn_of(cells[square_120_of(j)], white, black)
}

/// Slots `p * 10 ..` of `list` hold the squares of `found`, in order.
pub open spec fn list_holds(list: Seq<i32>, p: int, found: Seq<int>) -> bool {
    forall|k: int| 0 <= k < found.len() ==> list[p * 10 + k] == #[trigger] found[k]
}

/// No piece value occurs on more than ten squares.
pub open spec fn piece_counts_fit(cells: Seq<i32>) -> bool {
    forall|p: int| 1 <= p <= 12 ==> #[trigger] squares_of(cells, p, 120).len() <= 10
}

pub proof fn lemma_squares_of(cells: Seq<i32>, p: int, n: nat)
    ensures
        forall|k: int|
            0 <= k < squares_of(cells, p, n).len() ==> 0 <= #[trigger] squares_of(cells, p, n)[k] < n
                && cells[squares_of(cells, p, n)[k]] == p,
        squares_of(cells, p, n).len() <= n,
    decreases n,
{
    if n > 0 {
        lemma_squares_of(cells, p, (n - 1) as nat);
    }
}

pub proof fn lemma_squares_of_grows(cells: Seq<i32>, p: int, n: nat, m: nat)
    requires
        n <= m,
    ensures
        squares_of(cells, p, n).len() <= squares_of(cells, p, m).len(),
        forall|k: int|
            0 <= k < squares_of(cells, p, n).len() ==> #[trigger] squares_of(cells, p, m)[k]
                == squares_of(cells, p, n)[k],
    decreases m - n,
{
    if n < m {
        lemma_squares_of_grows(cells, p, n, (m - 1) as nat);
    }
}

/// An empty mailbox holds no piece.
proof fn lemma_squares_of_empty(cells: Seq<i32>, p: int, n: nat)
    requires
        empty_cells(cells),
        1 <= p <= 12,
        n <= 120,
    ensures
        squares_of(cells, p, n).len() == 0,
    decreases n,
{
    if n > 0 {
        lemma_squares_of_empty(cells, p, (n - 1) as nat);
    }
}

proof fn lemma_class_count_bounds(cells: Seq<i32>, table: [bool; 13], c: Colors, n: nat)
    ensures
        0 <= class_count(cells, table, c, n) <= n,
    decreases n,
{
    if n > 0 {
        lemma_class_count_bounds(cells, table, c, (n - 1) as nat);
    }
}

proof fn lemma_material_bounds(cells: Seq<i32>, c: Colors, n: nat)
    ensures
        0 <= material_of(cells, c, n) <= 50000 * n,
    decreases n,
{
    if n > 0 {
        lemma_material_bounds(cells, c, (n - 1) as nat);
        if 1 <= cells[n - 1] <= 12 {
            assert(0 <= PIECE_VALUE[cells[n - 1] as int] <= 50000);
        }
    }
}

/// The first board invariant that a consistency check found broken.
#[derive(Copy, Clone, Debug, PartialEq, Eq, Structural)]
pub enum InvariantViolation {
    /// A location list names a square that does not hold its piece.
    PieceList,
    /// A per-piece counter differs from a scan of the board.
    PieceCount,
    /// A pawn bitboard's population differs from the pawn counters.
    PawnCount,
    /// A pawn bitboard flags a square that holds no such pawn.
    PawnSquare,
    Material,
    BigPieces,
    MajorPieces,
    MinorPieces,
    /// The side to move is neither white nor black.
    Side,
    /// The stored position key differs from a fresh computation.
    PositionKey,
    /// The en passant square is not on the rank that the side to move allows.
    EnPassant,
    WhiteKing,
    BlackKing,
}

/// The mailbox that holds the dense squares `squares` on its real squares.
pub open spec fn mailbox_of(squares: Seq<Pieces>) -> Seq<i32> {
    Seq::new(
        120,
        |i: int|
            if is_real_square(i) {
                squares[square_64_of(i)].index() as i32
            } else {
                OFF_BOARD
            },
    )
}

/// A chess position: the mailbox, the pawn bitboards, and the caches derived from them.
#[derive(Copy, Clone)]
pub struct Board<'a> {
    definitions: &'a Definitions,
    /// The piece value on each padded square; padding squares hold `OFF_BOARD`.
    pieces: [i32; BOARD_SQUARE_NUMBER],
    /// Pawn bitboards of white, black and both, by dense square.
    pawns: [u64; 3],
    king_square: [Squares; 2],
    side: Colors,
    en_passant_square: Squares,
    /// Half moves since the last capture or pawn move.
    fifty_full_moves: i32,
    actual_half_moves: i32,
    total_half_moves: i32,
    castel_permission: u8,
    position_key: u64,
    /// Pieces on the board, by piece value.
    actual_pieces_number: [i32; 13],
    big_pieces_number: [i32; 2],
    major_pieces_number: [i32; 2],
    minor_pieces_number: [i32; 2],
    material: [i32; 2],
    history: [Undo; MAX_GAME_HALF_MOVES],
    /// Squares of the pieces of value `p` in slots `p * 10 ..`, the first
    /// `actual_pieces_number[p]` of them in use.
    pieces_list: [i32; PIECE_LIST_SLOTS],
}

impl<'a> Board<'a> {
    pub closed spec fn defs(&self) -> &'a Definitions {
        self.definitions
    }

    pub closed spec fn cells(&self) -> Seq<i32> {
        self.pieces@
    }

    pub closed spec fn pawn_boards(&self) -> Seq<u64> {
        self.pawns@
    }

    pub closed spec fn king_squares(&self) -> Seq<Squares> {
        self.king_square@
    }

    pub closed spec fn side_to_move(&self) -> Colors {
        self.side
    }

    pub closed spec fn ep_square(&self) -> Squares {
        self.en_passant_square
    }

    pub closed spec fn castle_bits(&self) -> u8 {
        self.castel_permission
    }

    pub closed spec fn stored_key(&self) -> u64 {
        self.position_key
    }

    pub closed spec fn piece_counts(&self) -> Seq<i32> {
        self.actual_pieces_number@
    }

    pub closed spec fn big_counts(&self) -> Seq<i32> {
        self.big_pieces_number@
    }

    pub closed spec fn major_counts(&self) -> Seq<i32> {
        self.major_pieces_number@
    }

    pub closed spec fn minor_counts(&self) -> Seq<i32> {
        self.minor_pieces_number@
    }

    pub closed spec fn materials(&self) -> Seq<i32> {
        self.material@
    }

    pub closed spec fn piece_list(&self) -> Seq<i32> {
        self.pieces_list@
    }

    pub closed spec fn counters_cleared(&self) -> bool {
        &&& self.fifty_full_moves == 0
        &&& self.actual_half_moves == 0
        &&& self.total_half_moves == 0
    }

    /// The caches hold what a scan of the mailbox gives: per-piece counts and
    /// location lists, big, major and minor piece counts and material per
    /// color, the pawn bitboards, the king squares and the position key.
    pub open spec fn derived_matches(&self) -> bool {
        let cells = self.cells();
        &&& self.piece_counts()[0] == 0
        &&& forall|p: int|
            1 <= p <= 12 ==> #[trigger] self.piece_counts()[p] == squares_of(cells, p, 120).len()
        &&& forall|p: int|
            1 <= p <= 12 ==> #[trigger] list_holds(self.piece_list(), p, squares_of(cells, p, 120))
        &&& self.big_counts()[0] == class_count(cells, PIECE_BIG, Colors::White, 120)
        &&& self.big_counts()[1] == class_count(cells, PIECE_BIG, Colors::Black, 120)
        &&& self.major_counts()[0] == class_count(cells, PIECE_MAJOR, Colors::White, 120)
        &&& self.major_counts()[1] == class_count(cells, PIECE_MAJOR, Colors::Black, 120)
        &&& self.minor_counts()[0] == class_count(cells, PIECE_MINOR, Colors::White, 120)
        &&& self.minor_counts()[1] == class_count(cells, PIECE_MINOR, Colors::Black, 120)
        &&& self.materials()[0] == material_of(cells, Colors::White, 120)
        &&& self.materials()[1] == material_of(cells, Colors::Black, 120)
        &&& pawn_board_of(self.pawn_boards()[0], cells, true, false)
        &&& pawn_board_of(self.pawn_boards()[1], cells, false, true)
        &&& pawn_board_of(self.pawn_boards()[2], cells, true, true)
        &&& bit_count(self.pawn_boards()[0]) == squares_of(cells, 1, 120).len()
        &&& bit_count(self.pawn_boards()[1]) == squares_of(cells, 7, 120).len()
        &&& bit_count(self.pawn_boards()[2]) == squares_of(cells, 1, 120).len() + squares_of(
            cells,
            7,
            120,
        ).len()
        &&& self.king_squares()[0].value() == last_square_of(cells, 6, 120)
        &&& self.king_squares()[1].value() == last_square_of(cells, 12, 120)
        &&& self.stored_key() == board_key(*self.defs(), *self)
    }

    /// Every location list entry in use names a square that holds its piece.
    pub open spec fn lists_ok(&self) -> bool {
        forall|p: int, k: int|
            1 <= p <= 12 && 0 <= k < self.piece_counts()[p] ==> {
                let sq = #[trigger] self.piece_list()[p * 10 + k];
                0 <= sq < 120 && self.cells()[sq as int] == p
            }
    }

    pub open spec fn counts_ok(&self) -> bool {
        forall|p: int|
            1 <= p <= 12 ==> #[trigger] self.piece_counts()[p] == squares_of(self.cells(), p, 120).len()
    }

    pub open spec fn pawn_counts_ok(&self) -> bool {
        &&& bit_count(self.pawn_boards()[0]) == self.piece_counts()[1]
        &&& bit_count(self.pawn_boards()[1]) == self.piece_counts()[7]
        &&& bit_count(self.pawn_boards()[2]) == self.piece_counts()[1] + self.piece_counts()[7]
    }

    pub open spec fn pawn_squares_ok(&self) -> bool {
        &&& pawns_on_squares(self.pawn_boards()[0], self.cells(), true, false)
        &&& pawns_on_squares(self.pawn_boards()[1], self.cells(), false, true)
        &&& pawns_on_squares(self.pawn_boards()[2], self.cells(), true, true)
    }

    pub open spec fn material_ok(&self) -> bool {
        &&& self.materials()[0] == material_of(self.cells(), Colors::White, 120)
        &&& self.materials()[1] == material_of(self.cells(), Colors::Black, 120)
    }

    pub open spec fn class_ok(&self, counts: Seq<i32>, table: [bool; 13]) -> bool {
        &&& counts[0] == class_count(self.cells(), table, Colors::White, 120)
        &&& counts[1] == class_count(self.cells(), table, Colors::Black, 120)
    }

    pub open spec fn side_ok(&self) -> bool {
        self.side_to_move() != Colors::Both
    }

    pub open spec fn key_ok(&self) -> bool {
        self.stored_key() == board_key(*self.defs(), *self)
    }

    /// No en passant square, or one on rank 6 with white to move, or on rank 3
    /// with black to move.
    pub open spec fn en_passant_ok(&self) -> bool {
        ||| self.ep_square() == Squares::NoSquare
        ||| (rank_of(self.ep_square().value()) == 5 && self.side_to_move() == Colors::White)
        ||| (rank_of(self.ep_square().value()) == 2 && self.side_to_move() == Colors::Black)
    }

    /// The first of the board invariants, in the order of `check_board`, that does not hold.
    pub open spec fn violation(&self) -> Option<InvariantViolation> {
        if !self.lists_ok() {
            Some(InvariantViolation::PieceList)
        } else if !self.counts_ok() {
            Some(InvariantViolation::PieceCount)
        } else if !self.pawn_counts_ok() {
            Some(InvariantViolation::PawnCount)
        } else if !self.pawn_squares_ok() {
            Some(InvariantViolation::PawnSquare)
        } else if !self.material_ok() {
            Some(InvariantViolation::Material)
        } else if !self.class_ok(self.big_counts(), PIECE_BIG) {
            Some(InvariantViolation::BigPieces)
        } else if !self.class_ok(self.major_counts(), PIECE_MAJOR) {
            Some(InvariantViolation::MajorPieces)
        } else if !self.class_ok(self.minor_counts(), PIECE_MINOR) {
            Some(InvariantViolation::MinorPieces)
        } else if !self.side_ok() {
            Some(InvariantViolation::Side)
        } else if !self.key_ok() {
            Some(InvariantViolation::PositionKey)
        } else if !self.en_passant_ok() {
            Some(InvariantViolation::EnPassant)
        } else if self.cells()[self.king_squares()[0].value()] != Pieces::Wk.index() {
            Some(InvariantViolation::WhiteKing)
        } else if self.cells()[self.king_squares()[1].value()] != Pieces::Bk.index() {
            Some(InvariantViolation::BlackKing)
        } else {
            None
        }
    }

    /// The board's shape holds: the tables are filled, the mailbox has its
    /// padding, the castling pattern has four bits and each location list fits.
    pub open spec fn wf(&self) -> bool {
        &&& self.defs().tables_wf()
        &&& cells_wf(self.cells())
        &&& self.castle_bits() < 16
        &&& forall|p: int| 0 <= p < 13 ==> 0 <= #[trigger] self.piece_counts()[p] <= 10
    }

    /// A board whose every field is zero, sharing `definitions`.
    pub fn new(definitions: &'a Definitions) -> (r: Board<'a>)
        ensures
            r.defs() == definitions,
            forall|i: int| 0 <= i < 120 ==> #[trigger] r.cells()[i] == 0,
            r.pawn_boards() == seq![0u64, 0u64, 0u64],
            r.side_to_move() == Colors::White,
            r.ep_square() == Squares::NoSquare,
            r.castle_bits() == 0,
            r.stored_key() == 0,
            forall|p: int| 0 <= p < 13 ==> #[trigger] r.piece_counts()[p] == 0,
            r.king_squares() == seq![Squares::NoSquare, Squares::NoSquare],
            r.big_counts() == seq![0i32, 0i32],
            r.major_counts() == seq![0i32, 0i32],
            r.minor_counts() == seq![0i32, 0i32],
            r.materials() == seq![0i32, 0i32],
            forall|i: int| 0 <= i < 130 ==> #[trigger] r.piece_list()[i] == 0,
            r.counters_cleared(),
    {
        let board = Board {
            definitions,
            pieces: [0; BOARD_SQUARE_NUMBER],
            pawns: [0; 3],
            king_square: [Squares::NoSquare; 2],
            side: Colors::White,
            en_passant_square: Squares::NoSquare,
            fifty_full_moves: 0,
            actual_half_moves: 0,
            total_half_moves: 0,
            castel_permission: 0,
            position_key: 0,
            actual_pieces_number: [0; 13],
            big_pieces_number: [0; 2],
            major_pieces_number: [0; 2],
            minor_pieces_number: [0; 2],
            material: [0; 2],
            history: [Undo::new(); MAX_GAME_HALF_MOVES],
            pieces_list: [0; PIECE_LIST_SLOTS],
        };
        assert(board.pawns@ =~= seq![0u64, 0u64, 0u64]);
        assert(board.king_square@ =~= seq![Squares::NoSquare, Squares::NoSquare]);
        assert(board.big_pieces_number@ =~= seq![0i32, 0i32]);
        assert(board.major_pieces_number@ =~= seq![0i32, 0i32]);
        assert(board.minor_pieces_number@ =~= seq![0i32, 0i32]);
        assert(board.material@ =~= seq![0i32, 0i32]);
        board
    }

    pub fn definitions(&self) -> (r: &'a Definitions)
        ensures
            r == self.defs(),
    {
        self.definitions
    }

    pub fn pieces(&self) -> (r: [i32; BOARD_SQUARE_NUMBER])
        ensures
            r@ == self.cells(),
    {
        self.pieces
    }

    pub fn pawns(&self) -> (r: [u64; 3])
        ensures
            r@ == self.pawn_boards(),
    {
        self.pawns
    }

    pub fn side(&self) -> (r: Colors)
        ensures
            r == self.side_to_move(),
    {
        self.side
    }

    pub fn en_passant_square(&self) -> (r: Squares)
        ensures
            r == self.ep_square(),
    {
        self.en_passant_square
    }

    pub fn castel_permission(&self) -> (r: u8)
        ensures
            r == self.castle_bits(),
    {
        self.castel_permission
    }

    pub fn big_pieces_number(&self) -> (r: [i32; 2])
        ensures
            r@ == self.big_counts(),
    {
        self.big_pieces_number
    }

    pub fn major_pieces_number(&self) -> (r: [i32; 2])
        ensures
            r@ == self.major_counts(),
    {
        self.major_pieces_number
    }

    pub fn minor_pieces_number(&self) -> (r: [i32; 2])
        ensures
            r@ == self.minor_counts(),
    {
        self.minor_pieces_number
    }

    pub fn material(&self) -> (r: [i32; 2])
        ensures
            r@ == self.materials(),
    {
        self.material
    }

    pub fn position_key(&self) -> (r: u64)
        ensures
            r == self.stored_key(),
    {
        self.position_key
    }

    /// Marks every padding square off the board and every real square empty,
    /// and clears every other field; the side becomes the neutral `Both`.
    pub fn reset_board(&mut self)
        requires
            old(self).defs().tables_wf(),
        ensures
            final(self).wf(),
            final(self).defs() == old(self).defs(),
            empty_cells(final(self).cells()),
            piece_counts_fit(final(self).cells()),
            final(self).pawn_boards() == seq![0u64, 0u64, 0u64],
            forall|p: int| 0 <= p < 13 ==> #[trigger] final(self).piece_counts()[p] == 0,
            final(self).big_counts() == seq![0i32, 0i32],
            final(self).major_counts() == seq![0i32, 0i32],
            final(self).minor_counts() == seq![0i32, 0i32],
            final(self).materials() == seq![0i32, 0i32],
            final(self).king_squares() == seq![Squares::NoSquare, Squares::NoSquare],
            final(self).side_to_move() == Colors::Both,
            final(self).ep_square() == Squares::NoSquare,
            final(self).castle_bits() == 0,
            final(self).stored_key() == 0,
            final(self).counters_cleared(),
    {
        self.pieces = [OFF_BOARD; BOARD_SQUARE_NUMBER];
        let to_120 = self.definitions.board_64_squares_in_120_squares_notation();
        let mut index: usize = 0;
        while index < 64
            invariant
                index <= 64,
                self.definitions == old(self).definitions,
                self.definitions.tables_wf(),
                to_120@ == self.definitions.to_120(),
                forall|i: int|
                    0 <= i < 120 ==> #[trigger] self.pieces@[i] == if is_real_square(i)
                        && square_64_of(i) < index {
                        EMPTY
                    } else {
                        OFF_BOARD
                    },
            decreases 64 - index,
        {
            proof {
                lemma_square_64_round_trip(index as int);
            }
            self.pieces[to_120[index] as usize] = EMPTY;
            proof {
                assert forall|i: int| 0 <= i < 120 implies #[trigger] self.pieces@[i] == if is_real_square(i)
                    && square_64_of(i) < index + 1 {
                    EMPTY
                } else {
                    OFF_BOARD
                } by {
                    if is_real_square(i) {
                        lemma_square_120_round_trip(i);
                    }
                }
            }
            index += 1;
        }
        proof {
            assert forall|i: int| 0 <= i < 120 && is_real_square(i) implies square_64_of(i) < 64 by {
                lemma_square_120_round_trip(i);
            }
        }
        self.big_pieces_number = [0; 2];
        self.major_pieces_number = [0; 2];
        self.minor_pieces_number = [0; 2];
        self.material = [0; 2];
        self.pawns = [0u64; 3];
        self.actual_pieces_number = [0; 13];
        self.king_square = [Squares::NoSquare; 2];
        self.side = Colors::Both;
        self.en_passant_square = Squares::NoSquare;
        self.fifty_full_moves = 0;
        self.actual_half_moves = 0;
        self.total_half_moves = 0;
        self.castel_permission = 0;
        self.position_key = 0u64;
        assert(self.pawns@ =~= seq![0u64, 0u64, 0u64]);
        assert(self.big_pieces_number@ =~= seq![0i32, 0i32]);
        assert(self.major_pieces_number@ =~= seq![0i32, 0i32]);
        assert(self.minor_pieces_number@ =~= seq![0i32, 0i32]);
        assert(self.material@ =~= seq![0i32, 0i32]);
        assert(self.king_square@ =~= seq![Squares::NoSquare, Squares::NoSquare]);
        proof {
            assert forall|p: int| 1 <= p <= 12 implies #[trigger] squares_of(self.pieces@, p, 120).len()
                <= 10 by {
                lemma_squares_of_empty(self.pieces@, p, 120);
            }
        }
    }

    /// Whether no piece value occurs on more than ten squares, so that the
    /// caches can be rebuilt.
    pub fn counts_fit(&self) -> (r: bool)
        requires
            self.wf(),
        ensures
            r == piece_counts_fit(self.cells()),
    {
        pieces_fit(&self.pieces)
    }

    /// Writes a decoded position into the mailbox, the side to move, the
    /// castling rights and the en passant square; the caches are left for
    /// `update_lists_material`.
    pub fn load_pieces(&mut self, record: &PositionRecord)
        requires
            old(self).wf(),
            record.squares@.len() == 64,
        ensures
            final(self).wf(),
            final(self).defs() == old(self).defs(),
            final(self).cells() == mailbox_of(record.squares@),
            final(self).side_to_move() == record.side,
            final(self).castle_bits() == record.castle_bits(),
            final(self).ep_square() == record.en_passant,
            final(self).stored_key() == old(self).stored_key(),
            final(self).piece_counts() == old(self).piece_counts(),
            final(self).counters_cleared() == old(self).counters_cleared(),
    {
        let to_120 = self.definitions.board_64_squares_in_120_squares_notation();
        let mut square_64: usize = 0;
        while square_64 < 64
            invariant
                square_64 <= 64,
                record.squares@.len() == 64,
                self.definitions == old(self).definitions,
                self.definitions.tables_wf(),
                to_120@ == self.definitions.to_120(),
                self.castel_permission == old(self).castel_permission,
                self.actual_pieces_number == old(self).actual_pieces_number,
                self.position_key == old(self).position_key,
                self.fifty_full_moves == old(self).fifty_full_moves,
                self.actual_half_moves == old(self).actual_half_moves,
                self.total_half_moves == old(self).total_half_moves,
                cells_wf(old(self).pieces@),
                forall|i: int|
                    0 <= i < 120 ==> #[trigger] self.pieces@[i] == if is_real_square(i)
                        && square_64_of(i) < square_64 {
                        record.squares@[square_64_of(i)].index() as i32
                    } else {
                        old(self).pieces@[i]
                    },
            decreases 64 - square_64,
        {
            proof {
                lemma_square_64_round_trip(square_64 as int);
            }
            self.pieces[to_120[square_64] as usize] = record.squares[square_64].to_u32() as i32;
            proof {
                assert forall|i: int| 0 <= i < 120 implies #[trigger] self.pieces@[i] == if is_real_square(i)
                    && square_64_of(i) < square_64 + 1 {
                    record.squares@[square_64_of(i)].index() as i32
                } else {
                    old(self).pieces@[i]
                } by {
                    if is_real_square(i) {
                        lemma_square_120_round_trip(i);
                    }
                }
            }
            square_64 += 1;
        }
        proof {
            assert forall|i: int| 0 <= i < 120 && is_real_square(i) implies square_64_of(i) < 64 by {
                lemma_square_120_round_trip(i);
            }
            assert(self.pieces@ =~= mailbox_of(record.squares@));
        }
        self.side = record.side;
        let white_king_side = record.white_king_side;
        let white_queen_side = record.white_queen_side;
        let black_king_side = record.black_king_side;
        let black_queen_side = record.black_queen_side;
        let bits: u8 = (if white_king_side { 1u8 } else { 0u8 }) | (if white_queen_side { 2u8 } else {
            0u8
        }) | (if black_king_side { 4u8 } else { 0u8 }) | (if black_queen_side { 8u8 } else { 0u8 });
        assert(bits < 16) by (bit_vector)
            requires
                bits == (if white_king_side { 1u8 } else { 0u8 }) | (if white_queen_side { 2u8 } else {
                    0u8
                }) | (if black_king_side { 4u8 } else { 0u8 }) | (if black_queen_side { 8u8 } else {
                    0u8
                }),
        ;
        self.castel_permission = bits;
        self.en_passant_square = record.en_passant;
        assert(self.piece_counts() == old(self).piece_counts());
    }

    /// Loads the position that the text `fen` (Forsyth-Edwards Notation)
    /// describes and rebuilds every cache. A malformed text leaves the board as
    /// it was; a placement with more than ten pieces of one kind leaves it reset.
    pub fn parse_fen(&mut self, fen: &str) -> (r: Result<(), FenError>)
        requires
            old(self).defs().tables_wf(),
        ensures
            final(self).defs() == old(self).defs(),
            match fen_spec(fen.spec_bytes()) {
                Err(e) => r == Err::<(), FenError>(e) && *final(self) == *old(self),
                Ok((squares, side, bits, en_passant)) => if piece_counts_fit(mailbox_of(squares)) {
                    &&& r == Ok::<(), FenError>(())
                    &&& final(self).wf()
                    &&& final(self).cells() == mailbox_of(squares)
                    &&& final(self).side_to_move() == side
                    &&& final(self).castle_bits() == bits
                    &&& final(self).ep_square().value() == en_passant
                    &&& final(self).derived_matches()
                    &&& final(self).counters_cleared()
                } else {
                    &&& r == Err::<(), FenError>(FenError::TooManyPieces)
                    &&& final(self).wf()
                    &&& empty_cells(final(self).cells())
                },
            },
    {
        let record = match decode_fen(fen.as_bytes()) {
            Ok(record) => record,
            Err(e) => {
                return Err(e);
            },
        };
        self.reset_board();
        self.load_pieces(&record);
        if !pieces_fit(&self.pieces) {
            self.reset_board();
            return Err(FenError::TooManyPieces);
        }
        self.update_lists_material();
        Ok(())
    }

    /// Checks every board invariant against a fresh rescan; reports the first
    /// one that is broken.
    pub fn check_board(&self) -> (r: Result<(), InvariantViolation>)
        requires
            self.wf(),
        ensures
            r == match self.violation() {
                None => Ok::<(), InvariantViolation>(()),
                Some(v) => Err(v),
            },
    {
        let cells = self.pieces;

        // Check piece list
        let mut piece: usize = 1;
        while piece <= 12
            invariant
                1 <= piece <= 13,
                self.wf(),
                cells@ == self.cells(),
                forall|p: int, k: int|
                    1 <= p < piece && 0 <= k < self.piece_counts()[p] ==> {
                        let sq = #[trigger] self.piece_list()[p * 10 + k];
                        0 <= sq < 120 && self.cells()[sq as int] == p
                    },
            decreases 13 - piece,
        {
            let count = self.actual_pieces_number[piece];
            assert(self.piece_counts()[piece as int] == count);
            assert(0 <= count <= 10);
            let mut index: i32 = 0;
            while index < count
                invariant
                    1 <= piece <= 12,
                    0 <= index <= count,
                    count == self.piece_counts()[piece as int],
                    self.wf(),
                    cells@ == self.cells(),
                    forall|p: int, k: int|
                        1 <= p < piece && 0 <= k < self.piece_counts()[p] ==> {
                            let sq = #[trigger] self.piece_list()[p * 10 + k];
                            0 <= sq < 120 && self.cells()[sq as int] == p
                        },
                    forall|k: int|
                        0 <= k < index ==> {
                            let sq = #[trigger] self.piece_list()[piece * 10 + k];
                            0 <= sq < 120 && self.cells()[sq as int] == piece
                        },
                decreases count - index,
            {
                let square_120 = self.pieces_list[piece * PIECE_LIST_CAPACITY + index as usize];
                if square_120 < 0 || square_120 >= 120 || cells[square_120 as usize] != piece as i32 {
                    assert(!self.lists_ok()) by {
                        let k = index as int;
                        assert(self.piece_list()[piece * 10 + k] == square_120);
                    }
                    return Err(InvariantViolation::PieceList);
                }
                index += 1;
            }
            piece += 1;
        }

        // Check piece count and other counters
        let (counts, big, major, minor, material) = rescan(&cells);
        let mut piece: usize = 1;
        while piece <= 12
            invariant
                1 <= piece <= 13,
                self.wf(),
                self.lists_ok(),
                cells@ == self.cells(),
                forall|p: int| 1 <= p <= 12 ==> #[trigger] counts@[p] == squares_of(cells@, p, 120).len(),
                forall|p: int| 1 <= p < piece ==> #[trigger] self.piece_counts()[p] == squares_of(self.cells(), p, 120).len(),
            decreases 13 - piece,
        {
            if counts[piece] != self.actual_pieces_number[piece] {
                assert(self.piece_counts()[piece as int] != squares_of(self.cells(), piece as int, 120).len());
                return Err(InvariantViolation::PieceCount);
            }
            piece += 1;
        }

        // Check bitboards count
        let white_pawns = self.actual_pieces_number[1];
        let black_pawns = self.actual_pieces_number[7];
        if count_bits(self.pawns[0]) != white_pawns as u64 || count_bits(self.pawns[1])
            != black_pawns as u64 || count_bits(self.pawns[2]) != (white_pawns + black_pawns) as u64 {
            return Err(InvariantViolation::PawnCount);
        }

        // Check bitboards square
        if !pawns_match(self.definitions, &cells, self.pawns[0], true, false) || !pawns_match(
            self.definitions,
            &cells,
            self.pawns[1],
            false,
            true,
        ) || !pawns_match(self.definitions, &cells, self.pawns[2], true, true) {
            return Err(InvariantViolation::PawnSquare);
        }

        // Check the material and the piece classes
        if material[0] != self.material[0] || material[1] != self.material[1] {
            return Err(InvariantViolation::Material);
        }
        if big[0] != self.big_pieces_number[0] || big[1] != self.big_pieces_number[1] {
            return Err(InvariantViolation::BigPieces);
        }
        if major[0] != self.major_pieces_number[0] || major[1] != self.major_pieces_number[1] {
            return Err(InvariantViolation::MajorPieces);
        }
        if minor[0] != self.minor_pieces_number[0] || minor[1] != self.minor_pieces_number[1] {
            return Err(InvariantViolation::MinorPieces);
        }

        // Check the side and position key
        if self.side != Colors::White && self.side != Colors::Black {
            return Err(InvariantViolation::Side);
        }
        if generate_position_key(*self.definitions, *self) != self.position_key {
            return Err(InvariantViolation::PositionKey);
        }

        // Check en passant square
        let ranks = self.definitions.ranks_board();
        let en_passant = self.en_passant_square;
        if !(en_passant == Squares::NoSquare || (ranks[en_passant.to_u32() as usize] == 5
            && self.side == Colors::White) || (ranks[en_passant.to_u32() as usize] == 2
            && self.side == Colors::Black)) {
            return Err(InvariantViolation::EnPassant);
        }

        // Check king square
        if cells[self.king_square[0].to_u32() as usize] != Pieces::Wk.to_u32() as i32 {
            return Err(InvariantViolation::WhiteKing);
        }
        if cells[self.king_square[1].to_u32() as usize] != Pieces::Bk.to_u32() as i32 {
            return Err(InvariantViolation::BlackKing);
        }
        Ok(())
    }

    /// Rebuilds every cache from the mailbox: counts, location lists,
    /// material, pawn bitboards, king squares and the position key.
    pub fn update_lists_material(&mut self)
        requires
            old(self).defs().tables_wf(),
            cells_wf(old(self).cells()),
            old(self).castle_bits() < 16,
            piece_counts_fit(old(self).cells()),
        ensures
            final(self).wf(),
            final(self).derived_matches(),
            final(self).defs() == old(self).defs(),
            final(self).cells() == old(self).cells(),
            final(self).side_to_move() == old(self).side_to_move(),
            final(self).ep_square() == old(self).ep_square(),
            final(self).castle_bits() == old(self).castle_bits(),
            final(self).counters_cleared() == old(self).counters_cleared(),
    {
        let ghost cells = self.pieces@;
        let to_64 = self.definitions.board_120_squares_in_64_squares_notation();
        self.big_pieces_number = [0; 2];
        self.major_pieces_number = [0; 2];
        self.minor_pieces_number = [0; 2];
        self.material = [0; 2];
        self.pawns = [0u64; 3];
        self.actual_pieces_number = [0; 13];
        self.king_square = [Squares::NoSquare; 2];
        proof {
            assert forall|j: int| 0 <= j < 64 implies !has_bit(0u64, j) by {
                let jj = j as u64;
                assert((0u64 >> jj) & 1 == 0) by (bit_vector);
            }
        }
        let mut square_120: usize = 0;
        while square_120 < BOARD_SQUARE_NUMBER
            invariant
                square_120 <= BOARD_SQUARE_NUMBER,
                self.definitions == old(self).definitions,
                self.definitions.tables_wf(),
                to_64@ == self.definitions.to_64(),
                self.pieces@ == cells,
                cells == old(self).pieces@,
                cells_wf(cells),
                piece_counts_fit(cells),
                self.side == old(self).side,
                self.en_passant_square == old(self).en_passant_square,
                self.castel_permission == old(self).castel_permission,
                self.fifty_full_moves == old(self).fifty_full_moves,
                self.actual_half_moves == old(self).actual_half_moves,
                self.total_half_moves == old(self).total_half_moves,
                self.actual_pieces_number@[0] == 0,
                forall|p: int|
                    1 <= p <= 12 ==> #[trigger] self.actual_pieces_number@[p] == squares_of(
                        cells,
                        p,
                        square_120 as nat,
                    ).len(),
                forall|p: int|
                    1 <= p <= 12 ==> #[trigger] list_holds(
                        self.pieces_list@,
                        p,
                        squares_of(cells, p, square_120 as nat),
                    ),
                self.big_pieces_number@[0] == class_count(cells, PIECE_BIG, Colors::White, square_120 as nat),
                self.big_pieces_number@[1] == class_count(cells, PIECE_BIG, Colors::Black, square_120 as nat),
                self.major_pieces_number@[0] == class_count(cells, PIECE_MAJOR, Colors::White, square_120 as nat),
                self.major_pieces_number@[1] == class_count(cells, PIECE_MAJOR, Colors::Black, square_120 as nat),
                self.minor_pieces_number@[0] == class_count(cells, PIECE_MINOR, Colors::White, square_120 as nat),
                self.minor_pieces_number@[1] == class_count(cells, PIECE_MINOR, Colors::Black, square_120 as nat),
                self.material@[0] == material_of(cells, Colors::White, square_120 as nat),
                self.material@[1] == material_of(cells, Colors::Black, square_120 as nat),
                pawn_bits_below(self.pawns@[0], cells, true, false, square_120 as nat),
                pawn_bits_below(self.pawns@[1], cells, false, true, square_120 as nat),
                pawn_bits_below(self.pawns@[2], cells, true, true, square_120 as nat),
                bit_count(self.pawns@[0]) == squares_of(cells, 1, square_120 as nat).len(),
                bit_count(self.pawns@[1]) == squares_of(cells, 7, square_120 as nat).len(),
                bit_count(self.pawns@[2]) == squares_of(cells, 1, square_120 as nat).len()
                    + squares_of(cells, 7, square_120 as nat).len(),
                self.king_square@[0].value() == last_square_of(cells, 6, square_120 as nat),
                self.king_square@[1].value() == last_square_of(cells, 12, square_120 as nat),
            decreases BOARD_SQUARE_NUMBER - square_120,
        {
            let ghost i = square_120 as nat;
            let ghost n = (square_120 + 1) as nat;
            let ghost before = *self;
            let piece = self.pieces[square_120];
            if piece != OFF_BOARD && piece != EMPTY {
                assert(is_real_square(i as int));
                let color = PIECE_COLOR[piece as usize].to_usize();
                proof {
                    lemma_class_count_bounds(cells, PIECE_BIG, PIECE_COLOR[piece as int], n);
                    lemma_class_count_bounds(cells, PIECE_MAJOR, PIECE_COLOR[piece as int], n);
                    lemma_class_count_bounds(cells, PIECE_MINOR, PIECE_COLOR[piece as int], n);
                    lemma_material_bounds(cells, PIECE_COLOR[piece as int], n);
                    lemma_squares_of_grows(cells, piece as int, n, 120);
                    assert(squares_of(cells, piece as int, n).len() <= 10);
                }
                if PIECE_BIG[piece as usize] {
                    self.big_pieces_number[color] = self.big_pieces_number[color] + 1;
                }
                if PIECE_MAJOR[piece as usize] {
                    self.major_pieces_number[color] = self.major_pieces_number[color] + 1;
                }
                if PIECE_MINOR[piece as usize] {
                    self.minor_pieces_number[color] = self.minor_pieces_number[color] + 1;
                }
                self.material[color] = self.material[color] + PIECE_VALUE[piece as usize];
                let count = self.actual_pieces_number[piece as usize];
                self.pieces_list[piece as usize * PIECE_LIST_CAPACITY + count as usize] = square_120 as i32;
                self.actual_pieces_number[piece as usize] = count + 1;

                if piece == Pieces::Wk.to_u32() as i32 {
                    self.king_square[0] = Squares::from_u32(square_120 as u32);
                }
                if piece == Pieces::Bk.to_u32() as i32 {
                    self.king_square[1] = Squares::from_u32(square_120 as u32);
                }

                let square_64 = to_64[square_120];
                proof {
                    lemma_square_120_round_trip(i as int);
                }
                if piece == Pieces::Wp.to_u32() as i32 {
                    let mut white = self.pawns[0];
                    set_bit_to_bitboard(self.definitions, &mut white, square_64);
                    self.pawns[0] = white;
                    let mut both = self.pawns[2];
                    set_bit_to_bitboard(self.definitions, &mut both, square_64);
                    self.pawns[2] = both;
                } else if piece == Pieces::Bp.to_u32() as i32 {
                    let mut black = self.pawns[1];
                    set_bit_to_bitboard(self.definitions, &mut black, square_64);
                    self.pawns[1] = black;
                    let mut both = self.pawns[2];
                    set_bit_to_bitboard(self.definitions, &mut both, square_64);
                    self.pawns[2] = both;
                }
            }
            proof {
                lemma_pawn_step(before.pawns@[0], self.pawns@[0], cells, true, false, i);
                lemma_pawn_step(before.pawns@[1], self.pawns@[1], cells, false, true, i);
                lemma_pawn_step(before.pawns@[2], self.pawns@[2], cells, true, true, i);
                assert forall|p: int|
                    1 <= p <= 12 implies #[trigger] list_holds(
                    self.pieces_list@,
                    p,
                    squares_of(cells, p, n),
                ) by {
                    let old_found = squares_of(cells, p, i);
                    let new_found = squares_of(cells, p, n);
                    assert(list_holds(before.pieces_list@, p, old_found));
                    lemma_squares_of_grows(cells, p, i, 120);
                    assert(old_found.len() <= 10);
                    assert forall|k: int| 0 <= k < new_found.len() implies self.pieces_list@[p * 10 + k]
                        == #[trigger] new_found[k] by {
                        if k < old_found.len() {
                            assert(new_found[k] == old_found[k]);
                            assert(before.pieces_list@[p * 10 + k] == old_found[k]);
                        }
                    }
                }
            }
            square_120 += 1;
        }
        proof {
            assert forall|p: int| 0 <= p < 13 implies 0 <= #[trigger] self.actual_pieces_number@[p] <= 10 by {
                if p > 0 {
                    assert(squares_of(cells, p, 120).len() <= 10);
                }
            }
        }
        self.position_key = generate_position_key(*self.definitions, *self);
    }
}

/// One step of the rebuild scan keeps a pawn bitboard in step with the mailbox:
/// square `i` is added exactly when it holds a selected pawn.
proof fn lemma_pawn_step(before: u64, after: u64, cells: Seq<i32>, white: bool, black: bool, i: nat)
    requires
        i < 120,
        cells_wf(cells),
        pawn_bits_below(before, cells, white, black, i),
        if is_pawn_of(cells[i as int], white, black) {
            after == before | (1u64 << (square_64_of(i as int) as u64))
        } else {
            after == before
        },
    ensures
        pawn_bits_below(after, cells, white, black, i + 1),
        bit_count(after) == bit_count(before) + if is_pawn_of(cells[i as int], white, black) {
            1nat
        } else {
            0nat
        },
{
    if is_pawn_of(cells[i as int], white, black) {
        assert(is_real_square(i as int));
        lemma_square_120_round_trip(i as int);
        let s = square_64_of(i as int);
        assert(!has_bit(before, s));
        lemma_set_bit_count(before, s as u64);
        assert forall|j: int| 0 <= j < 64 implies (#[trigger] has_bit(after, j) <==> (square_120_of(j) < i + 1
            && is_pawn_of(cells[square_120_of(j)], white, black))) by {
            lemma_square_64_round_trip(j);
            lemma_set_bit_has(before, s as u64, j as u64);
            assert(has_bit(before, j) <==> (square_120_of(j) < i && is_pawn_of(
                cells[square_120_of(j)],
                white,
                black,
            )));
            assert(has_bit(after, j) <==> (has_bit(before, j) || j == s));
            assert((j == s) <==> (square_120_of(j) == i));
        }
    } else {
        assert forall|j: int| 0 <= j < 64 implies (#[trigger] has_bit(after, j) <==> (square_120_of(j) < i + 1
            && is_pawn_of(cells[square_120_of(j)], white, black))) by {
            lemma_square_64_round_trip(j);
            assert(has_bit(before, j) <==> (square_120_of(j) < i && is_pawn_of(
                cells[square_120_of(j)],
                white,
                black,
            )));
        }
    }
}

/// Counts of a full rescan of the mailbox: pieces by value, then big, major
/// and minor pieces and material by color.
fn rescan(cells: &[i32; BOARD_SQUARE_NUMBER]) -> (r: ([i32; 13], [i32; 2], [i32; 2], [i32; 2], [i32; 2]))
    requires
        cells_wf(cells@),
    ensures
        forall|p: int| 1 <= p <= 12 ==> #[trigger] r.0@[p] == squares_of(cells@, p, 120).len(),
        r.1@[0] == class_count(cells@, PIECE_BIG, Colors::White, 120),
        r.1@[1] == class_count(cells@, PIECE_BIG, Colors::Black, 120),
        r.2@[0] == class_count(cells@, PIECE_MAJOR, Colors::White, 120),
        r.2@[1] == class_count(cells@, PIECE_MAJOR, Colors::Black, 120),
        r.3@[0] == class_count(cells@, PIECE_MINOR, Colors::White, 120),
        r.3@[1] == class_count(cells@, PIECE_MINOR, Colors::Black, 120),
        r.4@[0] == material_of(cells@, Colors::White, 120),
        r.4@[1] == material_of(cells@, Colors::Black, 120),
{
    let mut counts: [i32; 13] = [0; 13];
    let mut big: [i32; 2] = [0; 2];
    let mut major: [i32; 2] = [0; 2];
    let mut minor: [i32; 2] = [0; 2];
    let mut material: [i32; 2] = [0; 2];
    let mut square_120: usize = 0;
    while square_120 < BOARD_SQUARE_NUMBER
        invariant
            square_120 <= BOARD_SQUARE_NUMBER,
            cells_wf(cells@),
            forall|p: int|
                1 <= p <= 12 ==> #[trigger] counts@[p] == squares_of(cells@, p, square_120 as nat).len(),
            big@[0] == class_count(cells@, PIECE_BIG, Colors::White, square_120 as nat),
            big@[1] == class_count(cells@, PIECE_BIG, Colors::Black, square_120 as nat),
            major@[0] == class_count(cells@, PIECE_MAJOR, Colors::White, square_120 as nat),
            major@[1] == class_count(cells@, PIECE_MAJOR, Colors::Black, square_120 as nat),
            minor@[0] == class_count(cells@, PIECE_MINOR, Colors::White, square_120 as nat),
            minor@[1] == class_count(cells@, PIECE_MINOR, Colors::Black, square_120 as nat),
            material@[0] == material_of(cells@, Colors::White, square_120 as nat),
            material@[1] == material_of(cells@, Colors::Black, square_120 as nat),
        decreases BOARD_SQUARE_NUMBER - square_120,
    {
        let piece = cells[square_120];
        let ghost n = (square_120 + 1) as nat;
        if piece != OFF_BOARD && piece != EMPTY {
            let color = PIECE_COLOR[piece as usize].to_usize();
            proof {
                lemma_class_count_bounds(cells@, PIECE_BIG, PIECE_COLOR[piece as int], n);
                lemma_class_count_bounds(cells@, PIECE_MAJOR, PIECE_COLOR[piece as int], n);
                lemma_class_count_bounds(cells@, PIECE_MINOR, PIECE_COLOR[piece as int], n);
                lemma_material_bounds(cells@, PIECE_COLOR[piece as int], n);
                lemma_squares_of(cells@, piece as int, n);
            }
            counts[piece as usize] = counts[piece as usize] + 1;
            if PIECE_BIG[piece as usize] {
                big[color] = big[color] + 1;
            }
            if PIECE_MAJOR[piece as usize] {
                major[color] = major[color] + 1;
            }
            if PIECE_MINOR[piece as usize] {
                minor[color] = minor[color] + 1;
            }
            material[color] = material[color] + PIECE_VALUE[piece as usize];
        }
        square_120 += 1;
    }
    (counts, big, major, minor, material)
}

/// Whether every set bit of `pawns` flags a square holding a pawn that
/// `white` and `black` select; walks the bits with `pop_first_bit`.
fn pawns_match(
    definitions: &Definitions,
    cells: &[i32; BOARD_SQUARE_NUMBER],
    pawns: u64,
    white: bool,
    black: bool,
) -> (r: bool)
    requires
        definitions.tables_wf(),
        cells_wf(cells@),
    ensures
        r == pawns_on_squares(pawns, cells@, white, black),
{
    let to_120 = definitions.board_64_squares_in_120_squares_notation();
    let white_pawn = Pieces::Wp.to_u32() as i32;
    let black_pawn = Pieces::Bp.to_u32() as i32;
    let mut rest: u64 = pawns;
    while rest != 0
        invariant
            definitions.tables_wf(),
            to_120@ == definitions.to_120(),
            white_pawn == Pieces::Wp.index(),
            black_pawn == Pieces::Bp.index(),
            forall|j: int| 0 <= j < 64 && #[trigger] has_bit(rest, j) ==> has_bit(pawns, j),
            forall|j: int|
                0 <= j < 64 && #[trigger] has_bit(pawns, j) && !has_bit(rest, j) ==> is_pawn_of(
                    cells@[square_120_of(j)],
                    white,
                    black,
                ),
        decreases rest,
    {
        let ghost before = rest;
        let square_64 = pop_first_bit(&mut rest);
        let piece = cells[to_120[square_64 as usize] as usize];
        proof {
            lemma_square_64_round_trip(square_64 as int);
        }
        if !((white && piece == white_pawn) || (black && piece == black_pawn)) {
            assert(has_bit(pawns, square_64 as int));
            return false;
        }
        assert forall|j: int| 0 <= j < 64 && #[trigger] has_bit(pawns, j) && !has_bit(rest, j) implies is_pawn_of(
            cells@[square_120_of(j)],
            white,
            black,
        ) by {
            if j != square_64 {
                assert(!has_bit(before, j));
            }
        }
    }
    proof {
        assert forall|j: int| 0 <= j < 64 implies !#[trigger] has_bit(0u64, j) by {
            let jj = j as u64;
            assert((0u64 >> jj) & 1 == 0) by (bit_vector);
        }
    }
    true
}

/// Whether no piece value occurs on more than ten squares.
fn pieces_fit(cells: &[i32; BOARD_SQUARE_NUMBER]) -> (r: bool)
    requires
        cells_wf(cells@),
    ensures
        r == piece_counts_fit(cells@),
{
    let (counts, _, _, _, _) = rescan(cells);
    let mut piece: usize = 1;
    while piece <= 12
        invariant
            1 <= piece <= 13,
            forall|p: int| 1 <= p <= 12 ==> #[trigger] counts@[p] == squares_of(cells@, p, 120).len(),
            forall|p: int| 1 <= p < piece ==> #[trigger] squares_of(cells@, p, 120).len() <= 10,
        decreases 13 - piece,
    {
        if counts[piece] > 10 {
            assert(squares_of(cells@, piece as int, 120).len() > 10);
            return false;
        }
        piece += 1;
    }
    true
}

/// On a board whose caches were rebuilt from its mailbox, every check that
/// compares a cache with the mailbox passes: location lists, counts, pawn
/// bitboards, material, piece classes and the position key.
pub proof fn lemma_rebuilt_caches_agree(board: Board)
    requires
        board.wf(),
        board.derived_matches(),
    ensures
        board.lists_ok(),
        board.counts_ok(),
        board.pawn_counts_ok(),
        board.pawn_squares_ok(),
        board.material_ok(),
        board.class_ok(board.big_counts(), PIECE_BIG),
        board.class_ok(board.major_counts(), PIECE_MAJOR),
        board.class_ok(board.minor_counts(), PIECE_MINOR),
        board.key_ok(),
{
    let cells = board.cells();
    assert forall|p: int, k: int| 1 <= p <= 12 && 0 <= k < board.piece_counts()[p] implies {
        let sq = #[trigger] board.piece_list()[p * 10 + k];
        0 <= sq < 120 && board.cells()[sq as int] == p
    } by {
        lemma_squares_of(cells, p, 120);
        assert(list_holds(board.piece_list(), p, squares_of(cells, p, 120)));
        assert(board.piece_list()[p * 10 + k] == squares_of(cells, p, 120)[k]);
    }
}

/// A board whose caches were rebuilt from its mailbox passes every
/// consistency check, provided the position is legal: both kings on the
/// board, white or black to move, and an en passant square, if any, on the
/// rank that the side to move allows.
pub proof fn lemma_rebuilt_board_is_consistent(board: Board)
    requires
        board.wf(),
        board.derived_matches(),
        squares_of(board.cells(), Pieces::Wk.index(), 120).len() > 0,
        squares_of(board.cells(), Pieces::Bk.index(), 120).len() > 0,
        board.side_to_move() != Colors::Both,
        board.en_passant_ok(),
    ensures
        board.violation() is None,
{
    let cells = board.cells();
    lemma_rebuilt_caches_agree(board);
    lemma_squares_of(cells, 6, 120);
    lemma_squares_of(cells, 12, 120);
    let white_kings = squares_of(cells, 6, 120);
    let black_kings = squares_of(cells, 12, 120);
    assert(cells[white_kings[white_kings.len() - 1]] == 6);
    assert(cells[black_kings[black_kings.len() - 1]] == 12);
}

} // verus!
