use vstd::prelude::*;
use crate::board::{cells_wf, Board};
use crate::definitions::{
    file_rank_to_square_120, is_real_square, Colors, Pieces, EMPTY, OFF_BOARD, PIECE_BISHOP_QUEEN, PIECE_COLOR, PIECE_KING,
    PIECE_KNIGHT, PIECE_ROOK_QUEEN,
};

verus! {

// Offsets on the padded board. A knight on e4 (55) attacks 47, 36, 34, 43, 63, 74, 76 and 67.
pub const KNIGHT_DIRECTIONS: [i32; 8] = [-8, -19, -21, -12, 8, 19, 21, 12];

pub const ROOK_DIRECTIONS: [i32; 4] = [-1, -10, 1, 10];

pub const BISHOP_DIRECTIONS: [i32; 4] = [-9, -11, 9, 11];

pub const KING_DIRECTIONS: [i32; 8] = [-1, -10, 1, 10, -9, -11, 9, 11];

/// `v` is a piece of `side` that `table` marks.
pub open spec fn marked_piece(v: i32, side: Colors, table: [bool; 13]) -> bool {
    1 <= v <= 12 && table[v as int] && PIECE_COLOR[v as int] == side
}

/// A pawn of `side` stands diagonally behind `sq`, as seen from `side`.
pub open spec fn pawn_attack(cells: Seq<i32>, sq: int, side: Colors) -> bool {
    if side == Colors::White {
        cells[sq - 11] == Pieces::Wp.index() || cells[sq - 9] == Pieces::Wp.index()
    } else {
        cells[sq + 11] == Pieces::Bp.index() || cells[sq + 9] == Pieces::Bp.index()
    }
}

/// One of the squares `sq + dirs[i]` holds a piece of `side` that `table` marks.
pub open spec fn jump_attack(
    cells: Seq<i32>,
    sq: int,
    side: Colors,
    dirs: Seq<i32>,
    table: [bool; 13],
) -> bool {
    exists|i: int| 0 <= i < dirs.len() && #[trigger] marked_piece(cells[sq + dirs[i]], side, table)
}

/// The squares strictly between `sq` and `sq + k * d` are empty.
pub open spec fn ray_clear(cells: Seq<i32>, sq: int, d: int, k: int) -> bool {
    forall|j: int| 1 <= j < k ==> #[trigger] cells[sq + j * d] == EMPTY
}

/// The first piece met from `sq` in direction `d` is a piece of `side` that `table` marks.
pub open spec fn ray_attack(cells: Seq<i32>, sq: int, d: int, side: Colors, table: [bool; 13]) -> bool {
    exists|k: int|
        1 <= k && ray_clear(cells, sq, d, k) && #[trigger] marked_piece(cells[sq + k * d], side, table)
}

pub open spec fn slide_attack(
    cells: Seq<i32>,
    sq: int,
    side: Colors,
    dirs: Seq<i32>,
    table: [bool; 13],
) -> bool {
    exists|i: int| 0 <= i < dirs.len() && #[trigger] ray_attack(cells, sq, dirs[i] as int, side, table)
}

/// `side` attacks square `sq` of the mailbox `cells`.
pub open spec fn is_attacked(cells: Seq<i32>, sq: int, side: Colors) -> bool {
    ||| pawn_attack(cells, sq, side)
    ||| jump_attack(cells, sq, side, KNIGHT_DIRECTIONS@, PIECE_KNIGHT)
    ||| slide_attack(cells, sq, side, ROOK_DIRECTIONS@, PIECE_ROOK_QUEEN)
    ||| slide_attack(cells, sq, side, BISHOP_DIRECTIONS@, PIECE_BISHOP_QUEEN)
    ||| jump_attack(cells, sq, side, KING_DIRECTIONS@, PIECE_KING)
}

pub open spec fn is_ray_direction(d: int) -> bool {
    d == -1 || d == 1 || d == -10 || d == 10 || d == -9 || d == 9 || d == -11 || d == 11
}

/// Casts the ray from `square_120` in direction `direction`.
fn ray_attacked(
    cells: &[i32; 120],
    square_120: i32,
    direction: i32,
    side: Colors,
    table: &[bool; 13],
) -> (r: bool)
    requires
        cells_wf(cells@),
        is_real_square(square_120 as int),
        is_ray_direction(direction as int),
    ensures
        r == ray_attack(cells@, square_120 as int, direction as int, side, *table),
{
    let ghost sq = square_120 as int;
    let ghost d = direction as int;
    let mut temp_square: i32 = square_120 + direction;
    let mut attacking_piece: i32 = cells[temp_square as usize];
    let ghost mut k: int = 1;
    while attacking_piece != OFF_BOARD
        invariant
            cells_wf(cells@),
            is_real_square(sq),
            is_ray_direction(d),
            sq == square_120,
            d == direction,
            k >= 1,
            temp_square == sq + k * d,
            is_real_square(temp_square - d),
            0 <= temp_square < 120,
            attacking_piece == cells@[temp_square as int],
            ray_clear(cells@, sq, d, k),
        decreases if d > 0 {
            120 - temp_square
        } else {
            temp_square as int
        },
    {
        if attacking_piece != EMPTY {
            let hit = table[attacking_piece as usize] && PIECE_COLOR[attacking_piece as usize] == side;
            proof {
                if hit {
                    assert(cells@[sq + k * d] == attacking_piece);
                    assert(marked_piece(cells@[sq + k * d], side, *table));
                }
                if !hit {
                    assert forall|kk: int|
                        1 <= kk && ray_clear(cells@, sq, d, kk) implies !#[trigger] marked_piece(
                        cells@[sq + kk * d],
                        side,
                        *table,
                    ) by {
                        if kk > k {
                            assert(cells@[sq + k * d] == EMPTY);
                        } else if kk < k {
                            assert(cells@[sq + kk * d] == EMPTY);
                        }
                    }
                }
            }
            return hit;
        }
        assert(temp_square + d == sq + (k + 1) * d) by (nonlinear_arith)
            requires
                temp_square == sq + k * d,
        ;
        proof {
            assert forall|j: int| 1 <= j < k + 1 implies #[trigger] cells@[sq + j * d] == EMPTY by {
                if j == k {
                    assert(cells@[temp_square as int] == EMPTY);
                }
            }
            k = k + 1;
        }
        temp_square += direction;
        attacking_piece = cells[temp_square as usize];
    }
    proof {
        assert forall|kk: int|
            1 <= kk && ray_clear(cells@, sq, d, kk) implies !#[trigger] marked_piece(
            cells@[sq + kk * d],
            side,
            *table,
        ) by {
            if kk > k {
                assert(cells@[sq + k * d] == EMPTY);
            } else if kk < k {
                assert(cells@[sq + kk * d] == EMPTY);
            }
        }
    }
    false
}

/// Whether `side` attacks `square_120` on `board`.
pub fn square_attacked(square_120: i32, side: Colors, board: &Board) -> (r: bool)
    requires
        board.wf(),
        is_real_square(square_120 as int),
        side != Colors::Both,
    ensures
        r == is_attacked(board.cells(), square_120 as int, side),
{
    let cells = board.pieces();
    let ghost sq = square_120 as int;

    // pawns
    if side == Colors::White {
        let white_pawn = Pieces::Wp.to_u32() as i32;
        if cells[(square_120 - 11) as usize] == white_pawn || cells[(square_120 - 9) as usize]
            == white_pawn {
            return true;
        }
    } else {
        let black_pawn = Pieces::Bp.to_u32() as i32;
        if cells[(square_120 + 11) as usize] == black_pawn || cells[(square_120 + 9) as usize]
            == black_pawn {
            return true;
        }
    }

    // knights
    let mut index: usize = 0;
    while index < 8
        invariant
            cells@ == board.cells(),
            cells_wf(cells@),
            is_real_square(sq),
            sq == square_120,
            index <= 8,
            forall|i: int|
                0 <= i < index ==> !#[trigger] marked_piece(
                    cells@[sq + KNIGHT_DIRECTIONS@[i]],
                    side,
                    PIECE_KNIGHT,
                ),
        decreases 8 - index,
    {
        let attacking_piece = cells[(square_120 + KNIGHT_DIRECTIONS[index]) as usize];
        if attacking_piece != OFF_BOARD && PIECE_KNIGHT[attacking_piece as usize]
            && PIECE_COLOR[attacking_piece as usize] == side {
            assert(marked_piece(cells@[sq + KNIGHT_DIRECTIONS@[index as int]], side, PIECE_KNIGHT));
            return true;
        }
        index += 1;
    }

    // rooks, queens
    let mut index: usize = 0;
    while index < 4
        invariant
            cells@ == board.cells(),
            cells_wf(cells@),
            is_real_square(sq),
            sq == square_120,
            index <= 4,
            forall|i: int|
                0 <= i < index ==> !#[trigger] ray_attack(
                    cells@,
                    sq,
                    ROOK_DIRECTIONS@[i] as int,
                    side,
                    PIECE_ROOK_QUEEN,
                ),
        decreases 4 - index,
    {
        if ray_attacked(&cells, square_120, ROOK_DIRECTIONS[index], side, &PIECE_ROOK_QUEEN) {
            assert(ray_attack(cells@, sq, ROOK_DIRECTIONS@[index as int] as int, side, PIECE_ROOK_QUEEN));
            return true;
        }
        index += 1;
    }

    // bishops, queens
    let mut index: usize = 0;
    while index < 4
        invariant
            cells@ == board.cells(),
            cells_wf(cells@),
            is_real_square(sq),
            sq == square_120,
            index <= 4,
            forall|i: int|
                0 <= i < index ==> !#[trigger] ray_attack(
                    cells@,
                    sq,
                    BISHOP_DIRECTIONS@[i] as int,
                    side,
                    PIECE_BISHOP_QUEEN,
                ),
        decreases 4 - index,
    {
        if ray_attacked(&cells, square_120, BISHOP_DIRECTIONS[index], side, &PIECE_BISHOP_QUEEN) {
            assert(ray_attack(cells@, sq, BISHOP_DIRECTIONS@[index as int] as int, side, PIECE_BISHOP_QUEEN));
            return true;
        }
        index += 1;
    }

    // kings
    let mut index: usize = 0;
    while index < 8
        invariant
            cells@ == board.cells(),
            cells_wf(cells@),
            is_real_square(sq),
            sq == square_120,
            index <= 8,
            forall|i: int|
                0 <= i < index ==> !#[trigger] marked_piece(
                    cells@[sq + KING_DIRECTIONS@[i]],
                    side,
                    PIECE_KING,
                ),
        decreases 8 - index,
    {
        let attacking_piece = cells[(square_120 + KING_DIRECTIONS[index]) as usize];
        if attacking_piece != OFF_BOARD && PIECE_KING[attacking_piece as usize]
            && PIECE_COLOR[attacking_piece as usize] == side {
            assert(marked_piece(cells@[sq + KING_DIRECTIONS@[index as int]], side, PIECE_KING));
            return true;
        }
        index += 1;
    }
    false
}

/// Whether `side` attacks each real square, in the order of the printed
/// grid: rank 8 down to rank 1, file a to h within a rank.
pub fn squares_attacked_by_side(side: Colors, board: &Board) -> (r: Vec<bool>)
    requires
        board.wf(),
        side != Colors::Both,
    ensures
        r@.len() == 64,
        forall|k: int|
            0 <= k < 64 ==> #[trigger] r@[k] == is_attacked(
                board.cells(),
                file_rank_to_square_120(k % 8, 7 - k / 8),
                side,
            ),
{
    let mut map: Vec<bool> = Vec::new();
    let mut rank: i32 = 8;
    while rank > 0
        invariant
            0 <= rank <= 8,
            board.wf(),
            side != Colors::Both,
            map@.len() == (8 - rank) * 8,
            forall|k: int|
                0 <= k < map@.len() ==> #[trigger] map@[k] == is_attacked(
                    board.cells(),
                    file_rank_to_square_120(k % 8, 7 - k / 8),
                    side,
                ),
        decreases rank,
    {
        rank -= 1;
        let mut file: i32 = 0;
        while file < 8
            invariant
                0 <= rank < 8,
                0 <= file <= 8,
                board.wf(),
                side != Colors::Both,
                map@.len() == (7 - rank) * 8 + file,
                forall|k: int|
                    0 <= k < map@.len() ==> #[trigger] map@[k] == is_attacked(
                        board.cells(),
                        file_rank_to_square_120(k % 8, 7 - k / 8),
                        side,
                    ),
            decreases 8 - file,
        {
            let square_120 = 21 + file + rank * 10;
            let attacked = square_attacked(square_120, side, board);
            proof {
                let k = map@.len() as int;
                assert(k % 8 == file && k / 8 == 7 - rank);
            }
            map.push(attacked);
            file += 1;
        }
    }
    map
}

/// The piece on padded square `from` reaches square `to` by its own moves: a
/// pawn one square diagonally forward, a knight or a king by one of its
/// jumps, a rook, bishop or queen along one of its lines with every square
/// in between empty.
pub open spec fn piece_attacks(cells: Seq<i32>, from: int, to: int) -> bool {
    let v = cells[from];
    ||| (v == Pieces::Wp.index() && (to == from + 9 || to == from + 11))
    ||| (v == Pieces::Bp.index() && (to == from - 9 || to == from - 11))
    ||| (1 <= v <= 12 && PIECE_KNIGHT[v as int] && exists|i: int|
        0 <= i < 8 && to == from + #[trigger] KNIGHT_DIRECTIONS@[i])
    ||| (1 <= v <= 12 && PIECE_KING[v as int] && exists|i: int|
        0 <= i < 8 && to == from + #[trigger] KING_DIRECTIONS@[i])
    ||| (1 <= v <= 12 && PIECE_ROOK_QUEEN[v as int] && exists|i: int, k: int|
        0 <= i < 4 && 1 <= k && to == from + k * ROOK_DIRECTIONS@[i] && #[trigger] ray_clear(
            cells,
            from,
            ROOK_DIRECTIONS@[i] as int,
            k,
        ))
    ||| (1 <= v <= 12 && PIECE_BISHOP_QUEEN[v as int] && exists|i: int, k: int|
        0 <= i < 4 && 1 <= k && to == from + k * BISHOP_DIRECTIONS@[i] && #[trigger] ray_clear(
            cells,
            from,
            BISHOP_DIRECTIONS@[i] as int,
            k,
        ))
}

/// Some square holds a piece of `side` that reaches `sq` by its own moves.
pub open spec fn attacked_by_some_piece(cells: Seq<i32>, sq: int, side: Colors) -> bool {
    exists|from: int|
        0 <= from < 120 && 1 <= cells[from] <= 12 && PIECE_COLOR[cells[from] as int] == side
            && #[trigger] piece_attacks(cells, from, sq)
}

proof fn opposite_knight(i: int) -> (j: int)
    requires
        0 <= i < 8,
    ensures
        0 <= j < 8,
        KNIGHT_DIRECTIONS@[j] == -KNIGHT_DIRECTIONS@[i],
{
    if i == 0 { 4 } else if i == 1 { 5 } else if i == 2 { 6 } else if i == 3 { 7 } else if i == 4 {
        0
    } else if i == 5 { 1 } else if i == 6 { 2 } else { 3 }
}

proof fn opposite_king(i: int) -> (j: int)
    requires
        0 <= i < 8,
    ensures
        0 <= j < 8,
        KING_DIRECTIONS@[j] == -KING_DIRECTIONS@[i],
{
    if i == 0 { 2 } else if i == 1 { 3 } else if i == 2 { 0 } else if i == 3 { 1 } else if i == 4 {
        6
    } else if i == 5 { 7 } else if i == 6 { 4 } else { 5 }
}

proof fn opposite_line(dirs: Seq<i32>, i: int) -> (j: int)
    requires
        dirs == ROOK_DIRECTIONS@ || dirs == BISHOP_DIRECTIONS@,
        0 <= i < 4,
    ensures
        0 <= j < 4,
        dirs[j] == -dirs[i],
        is_ray_direction(dirs[i] as int),
{
    if i == 0 { 2 } else if i == 1 { 3 } else if i == 2 { 0 } else { 1 }
}

/// Along a clear ray from a real square, the square reached is on the padded board.
proof fn lemma_ray_in_range(cells: Seq<i32>, sq: int, d: int, k: int)
    requires
        cells_wf(cells),
        is_real_square(sq),
        is_ray_direction(d),
        1 <= k,
        ray_clear(cells, sq, d, k),
    ensures
        0 <= sq + k * d < 120,
    decreases k,
{
    if k > 1 {
        lemma_ray_in_range(cells, sq, d, k - 1);
        assert(ray_clear(cells, sq, d, k - 1));
        assert(cells[sq + (k - 1) * d] == EMPTY);
        assert(is_real_square(sq + (k - 1) * d));
        assert(sq + k * d == sq + (k - 1) * d + d) by (nonlinear_arith);
    }
}

/// Walking a clear ray backwards: the squares between the two ends are the same.
proof fn lemma_ray_reversed(cells: Seq<i32>, sq: int, d: int, k: int)
    requires
        ray_clear(cells, sq, d, k),
    ensures
        ray_clear(cells, sq + k * d, -d, k),
{
    assert forall|j: int| 1 <= j < k implies #[trigger] cells[(sq + k * d) + j * (-d)] == EMPTY by {
        assert((sq + k * d) + j * (-d) == sq + (k - j) * d) by (nonlinear_arith);
        assert(cells[sq + (k - j) * d] == EMPTY);
    }
}

/// The attack test agrees with a brute-force search over the attacking side's
/// pieces, for every real square and both sides.
pub proof fn lemma_attack_agrees_with_attackers(cells: Seq<i32>, sq: int, side: Colors)
    requires
        cells_wf(cells),
        is_real_square(sq),
        side != Colors::Both,
    ensures
        is_attacked(cells, sq, side) == attacked_by_some_piece(cells, sq, side),
{
    if is_attacked(cells, sq, side) {
        if pawn_attack(cells, sq, side) {
            if side == Colors::White {
                if cells[sq - 11] == 1 {
                    assert(piece_attacks(cells, sq - 11, sq));
                } else {
                    assert(piece_attacks(cells, sq - 9, sq));
                }
            } else {
                if cells[sq + 11] == 7 {
                    assert(piece_attacks(cells, sq + 11, sq));
                } else {
                    assert(piece_attacks(cells, sq + 9, sq));
                }
            }
        } else if jump_attack(cells, sq, side, KNIGHT_DIRECTIONS@, PIECE_KNIGHT) {
            let i = choose|i: int|
                0 <= i < 8 && #[trigger] marked_piece(cells[sq + KNIGHT_DIRECTIONS@[i]], side, PIECE_KNIGHT);
            let j = opposite_knight(i);
            let from = sq + KNIGHT_DIRECTIONS@[i];
            assert(sq == from + KNIGHT_DIRECTIONS@[j]);
            assert(piece_attacks(cells, from, sq));
        } else if slide_attack(cells, sq, side, ROOK_DIRECTIONS@, PIECE_ROOK_QUEEN) {
            let i = choose|i: int|
                0 <= i < 4 && #[trigger] ray_attack(cells, sq, ROOK_DIRECTIONS@[i] as int, side, PIECE_ROOK_QUEEN);
            let d = ROOK_DIRECTIONS@[i] as int;
            let k = choose|k: int|
                1 <= k && ray_clear(cells, sq, d, k) && #[trigger] marked_piece(cells[sq + k * d], side, PIECE_ROOK_QUEEN);
            let j = opposite_line(ROOK_DIRECTIONS@, i);
            lemma_ray_in_range(cells, sq, d, k);
            lemma_ray_reversed(cells, sq, d, k);
            let from = sq + k * d;
            assert(sq == from + k * ROOK_DIRECTIONS@[j]) by (nonlinear_arith)
                requires
                    from == sq + k * d,
                    ROOK_DIRECTIONS@[j] == -d,
            ;
            assert(ray_clear(cells, from, ROOK_DIRECTIONS@[j] as int, k));
            assert(piece_attacks(cells, from, sq));
        } else if slide_attack(cells, sq, side, BISHOP_DIRECTIONS@, PIECE_BISHOP_QUEEN) {
            let i = choose|i: int|
                0 <= i < 4 && #[trigger] ray_attack(cells, sq, BISHOP_DIRECTIONS@[i] as int, side, PIECE_BISHOP_QUEEN);
            let d = BISHOP_DIRECTIONS@[i] as int;
            let k = choose|k: int|
                1 <= k && ray_clear(cells, sq, d, k) && #[trigger] marked_piece(cells[sq + k * d], side, PIECE_BISHOP_QUEEN);
            let j = opposite_line(BISHOP_DIRECTIONS@, i);
            lemma_ray_in_range(cells, sq, d, k);
            lemma_ray_reversed(cells, sq, d, k);
            let from = sq + k * d;
            assert(sq == from + k * BISHOP_DIRECTIONS@[j]) by (nonlinear_arith)
                requires
                    from == sq + k * d,
                    BISHOP_DIRECTIONS@[j] == -d,
            ;
            assert(ray_clear(cells, from, BISHOP_DIRECTIONS@[j] as int, k));
            assert(piece_attacks(cells, from, sq));
        } else {
            let i = choose|i: int|
                0 <= i < 8 && #[trigger] marked_piece(cells[sq + KING_DIRECTIONS@[i]], side, PIECE_KING);
            let j = opposite_king(i);
            let from = sq + KING_DIRECTIONS@[i];
            assert(sq == from + KING_DIRECTIONS@[j]);
            assert(piece_attacks(cells, from, sq));
        }
    }
    if attacked_by_some_piece(cells, sq, side) {
        let from = choose|from: int|
            0 <= from < 120 && 1 <= cells[from] <= 12 && PIECE_COLOR[cells[from] as int] == side
                && #[trigger] piece_attacks(cells, from, sq);
        let v = cells[from];
        if v == 1 && (sq == from + 9 || sq == from + 11) {
            assert(pawn_attack(cells, sq, side));
        } else if v == 7 && (sq == from - 9 || sq == from - 11) {
            assert(pawn_attack(cells, sq, side));
        } else if PIECE_KNIGHT[v as int] && exists|i: int|
            0 <= i < 8 && sq == from + #[trigger] KNIGHT_DIRECTIONS@[i] {
            let i = choose|i: int| 0 <= i < 8 && sq == from + #[trigger] KNIGHT_DIRECTIONS@[i];
            let j = opposite_knight(i);
            assert(from == sq + KNIGHT_DIRECTIONS@[j]);
            assert(marked_piece(cells[sq + KNIGHT_DIRECTIONS@[j]], side, PIECE_KNIGHT));
            assert(jump_attack(cells, sq, side, KNIGHT_DIRECTIONS@, PIECE_KNIGHT));
        } else if PIECE_KING[v as int] && exists|i: int|
            0 <= i < 8 && sq == from + #[trigger] KING_DIRECTIONS@[i] {
            let i = choose|i: int| 0 <= i < 8 && sq == from + #[trigger] KING_DIRECTIONS@[i];
            let j = opposite_king(i);
            assert(from == sq + KING_DIRECTIONS@[j]);
            assert(marked_piece(cells[sq + KING_DIRECTIONS@[j]], side, PIECE_KING));
            assert(jump_attack(cells, sq, side, KING_DIRECTIONS@, PIECE_KING));
        } else if PIECE_ROOK_QUEEN[v as int] && exists|i: int, k: int|
            0 <= i < 4 && 1 <= k && sq == from + k * ROOK_DIRECTIONS@[i] && #[trigger] ray_clear(
                cells,
                from,
                ROOK_DIRECTIONS@[i] as int,
                k,
            ) {
            let (i, k) = choose|i: int, k: int|
                0 <= i < 4 && 1 <= k && sq == from + k * ROOK_DIRECTIONS@[i] && #[trigger] ray_clear(
                    cells,
                    from,
                    ROOK_DIRECTIONS@[i] as int,
                    k,
                );
            let d = ROOK_DIRECTIONS@[i] as int;
            let j = opposite_line(ROOK_DIRECTIONS@, i);
            lemma_ray_reversed(cells, from, d, k);
            assert(sq + k * ROOK_DIRECTIONS@[j] == from) by (nonlinear_arith)
                requires
                    sq == from + k * d,
                    ROOK_DIRECTIONS@[j] == -d,
            ;
            assert(ray_clear(cells, sq, ROOK_DIRECTIONS@[j] as int, k));
            assert(marked_piece(cells[sq + k * ROOK_DIRECTIONS@[j]], side, PIECE_ROOK_QUEEN));
            assert(ray_attack(cells, sq, ROOK_DIRECTIONS@[j] as int, side, PIECE_ROOK_QUEEN));
            assert(slide_attack(cells, sq, side, ROOK_DIRECTIONS@, PIECE_ROOK_QUEEN));
        } else {
            let (i, k) = choose|i: int, k: int|
                0 <= i < 4 && 1 <= k && sq == from + k * BISHOP_DIRECTIONS@[i] && #[trigger] ray_clear(
                    cells,
                    from,
                    BISHOP_DIRECTIONS@[i] as int,
                    k,
                );
            let d = BISHOP_DIRECTIONS@[i] as int;
            let j = opposite_line(BISHOP_DIRECTIONS@, i);
            lemma_ray_reversed(cells, from, d, k);
            assert(sq + k * BISHOP_DIRECTIONS@[j] == from) by (nonlinear_arith)
                requires
                    sq == from + k * d,
                    BISHOP_DIRECTIONS@[j] == -d,
            ;
            assert(ray_clear(cells, sq, BISHOP_DIRECTIONS@[j] as int, k));
            assert(marked_piece(cells[sq + k * BISHOP_DIRECTIONS@[j]], side, PIECE_BISHOP_QUEEN));
            assert(ray_attack(cells, sq, BISHOP_DIRECTIONS@[j] as int, side, PIECE_BISHOP_QUEEN));
            assert(slide_attack(cells, sq, side, BISHOP_DIRECTIONS@, PIECE_BISHOP_QUEEN));
        }
    }
}

} // verus!
