use vstd::prelude::*;
use crate::board::{cells_wf, Board};
use crate::definitions::{Colors, Definitions, Squares, BOARD_SQUARE_NUMBER, EMPTY, OFF_BOARD};

verus! {

/// The key that the piece on padded square `sq` adds: its (piece, square) key,
/// or nothing for an empty or padding square.
pub open spec fn piece_term(definitions: Definitions, cells: Seq<i32>, sq: int) -> u64 {
    if 1 <= cells[sq] <= 12 {
        definitions.piece_key(cells[sq] as int, sq)
    } else {
        0
    }
}

/// The pieces' keys of the first `n` padded squares, combined by xor.
pub open spec fn pieces_key(definitions: Definitions, cells: Seq<i32>, n: nat) -> u64
    decreases n,
{
    if n == 0 {
        0
    } else {
        pieces_key(definitions, cells, (n - 1) as nat) ^ piece_term(definitions, cells, n - 1)
    }
}

/// The fingerprint of a position: the pieces' keys, then the side key when
/// white is to move, then the empty piece's key on the en passant square when
/// there is one, then the key of the castling pattern.
pub open spec fn position_key_of(
    definitions: Definitions,
    cells: Seq<i32>,
    side: Colors,
    en_passant: Squares,
    castling: u8,
) -> u64 {
    let with_pieces = pieces_key(definitions, cells, 120);
    let with_side = if side == Colors::White {
        with_pieces ^ definitions.the_side_key()
    } else {
        with_pieces
    };
    let with_en_passant = if en_passant != Squares::NoSquare {
        with_side ^ definitions.piece_key(0, en_passant.value())
    } else {
        with_side
    };
    with_en_passant ^ definitions.castling_keys()[castling as int]
}

/// The fingerprint of `board`'s position under the keys of `definitions`.
pub open spec fn board_key(definitions: Definitions, board: Board) -> u64 {
    position_key_of(
        definitions,
        board.cells(),
        board.side_to_move(),
        board.ep_square(),
        board.castle_bits(),
    )
}

/// Computes the fingerprint of `board`'s position from scratch.
pub fn generate_position_key(definitions: Definitions, board: Board) -> (r: u64)
    requires
        cells_wf(board.cells()),
        board.castle_bits() < 16,
    ensures
        r == board_key(definitions, board),
{
    let cells = board.pieces();
    let keys = definitions.piece_keys();
    let mut final_key: u64 = 0;
    let mut square_120: usize = 0;
    while square_120 < BOARD_SQUARE_NUMBER
        invariant
            cells@ == board.cells(),
            keys@ == definitions.keys(),
            cells_wf(cells@),
            square_120 <= BOARD_SQUARE_NUMBER,
            final_key == pieces_key(definitions, cells@, square_120 as nat),
        decreases BOARD_SQUARE_NUMBER - square_120,
    {
        let piece = cells[square_120];
        let ghost before = final_key;
        if piece != OFF_BOARD && piece != EMPTY {
            final_key ^= keys[piece as usize * BOARD_SQUARE_NUMBER + square_120];
        } else {
            assert(before ^ 0 == before) by (bit_vector);
        }
        assert(pieces_key(definitions, cells@, (square_120 + 1) as nat) == before ^ piece_term(
            definitions,
            cells@,
            square_120 as int,
        ));
        square_120 += 1;
    }

    if board.side() == Colors::White {
        final_key ^= definitions.side_key();
    }

    let en_passant = board.en_passant_square();
    if en_passant != Squares::NoSquare {
        final_key ^= keys[en_passant.to_u32() as usize];
    }

    final_key ^= definitions.castle_keys()[board.castel_permission() as usize];
    final_key
}

/// What the side to move adds to the key.
pub open spec fn side_term(definitions: Definitions, side: Colors) -> u64 {
    if side == Colors::White {
        definitions.the_side_key()
    } else {
        0
    }
}

/// What the en passant square adds to the key.
pub open spec fn en_passant_term(definitions: Definitions, en_passant: Squares) -> u64 {
    if en_passant != Squares::NoSquare {
        definitions.piece_key(0, en_passant.value())
    } else {
        0
    }
}

proof fn lemma_xor(x: u64, y: u64, z: u64)
    by (bit_vector)
    ensures
        x ^ 0 == x,
        (x ^ y) ^ z == (x ^ z) ^ y,
        (x ^ y) ^ z == x ^ (y ^ z),
        (x ^ y == x) <==> y == 0,
        (x ^ y == 0) <==> x == y,
{
}

/// The key is the xor of the pieces' keys and of the side, en passant and
/// castling terms.
proof fn lemma_key_terms(definitions: Definitions, board: Board)
    ensures
        board_key(definitions, board) == pieces_key(definitions, board.cells(), 120) ^ side_term(
            definitions,
            board.side_to_move(),
        ) ^ en_passant_term(definitions, board.ep_square()) ^ definitions.castling_keys()[board.castle_bits() as int],
{
    let p = pieces_key(definitions, board.cells(), 120);
    lemma_xor(p, 0, 0);
    lemma_xor(p ^ side_term(definitions, board.side_to_move()), 0, 0);
}

/// Two mailboxes that differ at most on square `s` have piece keys that
/// differ by the two terms of `s`, once the scan has passed `s`.
proof fn lemma_pieces_key_one_square(
    definitions: Definitions,
    c1: Seq<i32>,
    c2: Seq<i32>,
    s: int,
    n: nat,
)
    requires
        0 <= s < 120,
        n <= 120,
        forall|i: int| 0 <= i < 120 && i != s ==> c1[i] == c2[i],
    ensures
        pieces_key(definitions, c2, n) == if n > s {
            pieces_key(definitions, c1, n) ^ (piece_term(definitions, c1, s) ^ piece_term(
                definitions,
                c2,
                s,
            ))
        } else {
            pieces_key(definitions, c1, n)
        },
    decreases n,
{
    if n > 0 {
        lemma_pieces_key_one_square(definitions, c1, c2, s, (n - 1) as nat);
        let a = pieces_key(definitions, c1, (n - 1) as nat);
        let t1 = piece_term(definitions, c1, s);
        let t2 = piece_term(definitions, c2, s);
        let t = piece_term(definitions, c1, n - 1);
        if n - 1 == s {
            lemma_xor(a, t1, t2);
            lemma_xor(t1, t1, t2);
            lemma_xor(0, t2, 0);
            assert(a ^ t2 == (a ^ t1) ^ (t1 ^ t2)) by (bit_vector);
        } else if n - 1 > s {
            lemma_xor(a, t1 ^ t2, t);
        }
    }
}

/// Two boards that hold the same position, under the same keys, have the same key.
pub proof fn lemma_key_same_position(definitions: Definitions, b1: Board, b2: Board)
    requires
        b1.cells() == b2.cells(),
        b1.side_to_move() == b2.side_to_move(),
        b1.ep_square() == b2.ep_square(),
        b1.castle_bits() == b2.castle_bits(),
    ensures
        board_key(definitions, b1) == board_key(definitions, b2),
{
}

/// Changing the piece on one square changes the key by the xor of that
/// square's two piece keys, so the key stays the same only when those coincide.
pub proof fn lemma_key_piece_change(definitions: Definitions, b1: Board, b2: Board, s: int)
    requires
        0 <= s < 120,
        forall|i: int| 0 <= i < 120 && i != s ==> b1.cells()[i] == b2.cells()[i],
        b1.side_to_move() == b2.side_to_move(),
        b1.ep_square() == b2.ep_square(),
        b1.castle_bits() == b2.castle_bits(),
    ensures
        board_key(definitions, b2) == board_key(definitions, b1) ^ (piece_term(
            definitions,
            b1.cells(),
            s,
        ) ^ piece_term(definitions, b2.cells(), s)),
        board_key(definitions, b2) != board_key(definitions, b1) <==> piece_term(
            definitions,
            b1.cells(),
            s,
        ) != piece_term(definitions, b2.cells(), s),
{
    let t1 = piece_term(definitions, b1.cells(), s);
    let t2 = piece_term(definitions, b2.cells(), s);
    let delta = t1 ^ t2;
    lemma_pieces_key_one_square(definitions, b1.cells(), b2.cells(), s, 120);
    lemma_key_terms(definitions, b1);
    lemma_key_terms(definitions, b2);
    let p = pieces_key(definitions, b1.cells(), 120);
    let st = side_term(definitions, b1.side_to_move());
    let et = en_passant_term(definitions, b1.ep_square());
    let ct = definitions.castling_keys()[b1.castle_bits() as int];
    assert(((p ^ delta) ^ st) ^ et ^ ct == (((p ^ st) ^ et) ^ ct) ^ delta) by (bit_vector);
    let k1 = board_key(definitions, b1);
    lemma_xor(k1, delta, 0);
    lemma_xor(t1, t2, 0);
}

/// Changing the side to move from black to white changes the key by the side key.
pub proof fn lemma_key_side_change(definitions: Definitions, b1: Board, b2: Board)
    requires
        b1.cells() == b2.cells(),
        b1.side_to_move() == Colors::Black,
        b2.side_to_move() == Colors::White,
        b1.ep_square() == b2.ep_square(),
        b1.castle_bits() == b2.castle_bits(),
    ensures
        board_key(definitions, b2) == board_key(definitions, b1) ^ definitions.the_side_key(),
        board_key(definitions, b2) != board_key(definitions, b1) <==> definitions.the_side_key() != 0,
{
    lemma_key_terms(definitions, b1);
    lemma_key_terms(definitions, b2);
    let p = pieces_key(definitions, b1.cells(), 120);
    let sk = definitions.the_side_key();
    let et = en_passant_term(definitions, b1.ep_square());
    let ct = definitions.castling_keys()[b1.castle_bits() as int];
    assert(((p ^ sk) ^ et) ^ ct == (((p ^ 0) ^ et) ^ ct) ^ sk) by (bit_vector);
    lemma_xor(board_key(definitions, b1), sk, 0);
}

/// Changing the en passant square changes the key by the xor of the two
/// squares' en passant terms.
pub proof fn lemma_key_en_passant_change(definitions: Definitions, b1: Board, b2: Board)
    requires
        b1.cells() == b2.cells(),
        b1.side_to_move() == b2.side_to_move(),
        b1.castle_bits() == b2.castle_bits(),
    ensures
        board_key(definitions, b2) == board_key(definitions, b1) ^ (en_passant_term(
            definitions,
            b1.ep_square(),
        ) ^ en_passant_term(definitions, b2.ep_square())),
        board_key(definitions, b2) != board_key(definitions, b1) <==> en_passant_term(
            definitions,
            b1.ep_square(),
        ) != en_passant_term(definitions, b2.ep_square()),
{
    lemma_key_terms(definitions, b1);
    lemma_key_terms(definitions, b2);
    let p = pieces_key(definitions, b1.cells(), 120);
    let st = side_term(definitions, b1.side_to_move());
    let e1 = en_passant_term(definitions, b1.ep_square());
    let e2 = en_passant_term(definitions, b2.ep_square());
    let ct = definitions.castling_keys()[b1.castle_bits() as int];
    assert(((p ^ st) ^ e2) ^ ct == (((p ^ st) ^ e1) ^ ct) ^ (e1 ^ e2)) by (bit_vector);
    lemma_xor(board_key(definitions, b1), e1 ^ e2, 0);
    lemma_xor(e1, e2, 0);
}

/// Changing the castling rights changes the key by the xor of the two
/// patterns' castling keys.
pub proof fn lemma_key_castling_change(definitions: Definitions, b1: Board, b2: Board)
    requires
        b1.cells() == b2.cells(),
        b1.side_to_move() == b2.side_to_move(),
        b1.ep_square() == b2.ep_square(),
    ensures
        board_key(definitions, b2) == board_key(definitions, b1) ^ (definitions.castling_keys()[b1.castle_bits() as int]
            ^ definitions.castling_keys()[b2.castle_bits() as int]),
        board_key(definitions, b2) != board_key(definitions, b1) <==> definitions.castling_keys()[b1.castle_bits() as int]
            != definitions.castling_keys()[b2.castle_bits() as int],
{
    lemma_key_terms(definitions, b1);
    lemma_key_terms(definitions, b2);
    let p = pieces_key(definitions, b1.cells(), 120);
    let st = side_term(definitions, b1.side_to_move());
    let et = en_passant_term(definitions, b1.ep_square());
    let c1 = definitions.castling_keys()[b1.castle_bits() as int];
    let c2 = definitions.castling_keys()[b2.castle_bits() as int];
    assert(((p ^ st) ^ et) ^ c2 == (((p ^ st) ^ et) ^ c1) ^ (c1 ^ c2)) by (bit_vector);
    lemma_xor(board_key(definitions, b1), c1 ^ c2, 0);
    lemma_xor(c1, c2, 0);
}

} // verus!
