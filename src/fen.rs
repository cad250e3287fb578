use vstd::prelude::*;
use crate::definitions::{Colors, Pieces, Squares};

verus! {

/// Why a position text was refused.
#[derive(Copy, Clone, Debug, PartialEq, Eq, Structural)]
pub enum FenError {
    /// The piece placement field is malformed: an unknown character, a rank
    /// that does not hold exactly eight squares, or not exactly eight ranks.
    Placement,
    /// The side to move is neither `w` nor `b`.
    Side,
    /// The castling field is neither `-` nor one to four of `KQkq`.
    Castling,
    /// The en passant field is neither `-` nor a square such as `e3`.
    EnPassant,
    /// More than ten pieces of one kind.
    TooManyPieces,
}

/// A decoded position: the piece on each dense square (a1 = 0 .. h8 = 63),
/// the side to move, the four castling rights and the en passant target
/// (`Squares::NoSquare` when there is none).
pub struct PositionRecord {
    pub squares: Vec<Pieces>,
    pub side: Colors,
    pub white_king_side: bool,
    pub white_queen_side: bool,
    pub black_king_side: bool,
    pub black_queen_side: bool,
    pub en_passant: Squares,
}

impl PositionRecord {
    /// The castling rights as a 4-bit pattern (K = 1, Q = 2, k = 4, q = 8).
    pub open spec fn castle_bits(&self) -> u8 {
        ((if self.white_king_side { 1u8 } else { 0u8 }) | (if self.white_queen_side { 2u8 } else {
            0u8
        }) | (if self.black_king_side { 4u8 } else { 0u8 }) | (if self.black_queen_side {
            8u8
        } else {
            0u8
        })) as u8
    }
}

/// The piece that a placement letter names, or `Empty` for any other byte.
pub open spec fn letter_piece(c: u8) -> Pieces {
    if c == 80 {
        Pieces::Wp
    } else if c == 78 {
        Pieces::Wn
    } else if c == 66 {
        Pieces::Wb
    } else if c == 82 {
        Pieces::Wr
    } else if c == 81 {
        Pieces::Wq
    } else if c == 75 {
        Pieces::Wk
    } else if c == 112 {
        Pieces::Bp
    } else if c == 110 {
        Pieces::Bn
    } else if c == 98 {
        Pieces::Bb
    } else if c == 114 {
        Pieces::Br
    } else if c == 113 {
        Pieces::Bq
    } else if c == 107 {
        Pieces::Bk
    } else {
        Pieces::Empty
    }
}

/// The castling bit that a castling letter names (K, Q, k, q), or 0.
pub open spec fn letter_castle_bit(c: u8) -> u8 {
    if c == 75 {
        1
    } else if c == 81 {
        2
    } else if c == 107 {
        4
    } else if c == 113 {
        8
    } else {
        0
    }
}

/// 64 empty dense squares.
pub open spec fn empty_squares() -> Seq<Pieces> {
    Seq::new(64, |_i: int| Pieces::Empty)
}

/// Reads the placement field from byte `i`, the next square being at `rank`
/// (7 = rank 8 .. 0 = rank 1) and `file` (0 = a .. 8 = past h), with
/// `squares` placed so far. Gives the squares and the index of the space that
/// ends the field.
pub open spec fn placement_from(
    b: Seq<u8>,
    i: int,
    rank: int,
    file: int,
    squares: Seq<Pieces>,
) -> Option<(Seq<Pieces>, int)>
    decreases b.len() - i,
{
    if i < 0 || i >= b.len() {
        None
    } else {
        let c = b[i];
        if c == 32 {
            if rank == 0 && file == 8 {
                Some((squares, i))
            } else {
                None
            }
        } else if c == 47 {
            if file == 8 && rank > 0 {
                placement_from(b, i + 1, rank - 1, 0, squares)
            } else {
                None
            }
        } else if 49 <= c <= 56 {
            if file + (c - 48) <= 8 {
                placement_from(b, i + 1, rank, file + (c - 48), squares)
            } else {
                None
            }
        } else if letter_piece(c) != Pieces::Empty {
            if file < 8 {
                placement_from(b, i + 1, rank, file + 1, squares.update(rank * 8 + file, letter_piece(c)))
            } else {
                None
            }
        } else {
            None
        }
    }
}

/// Reads castling letters from byte `i`, with `bits` and `letters` read so
/// far; gives the pattern and the index of the space that ends the field.
pub open spec fn castling_from(b: Seq<u8>, i: int, bits: u8, letters: int) -> Option<(u8, int)>
    decreases b.len() - i,
{
    if i < 0 || i >= b.len() {
        None
    } else if b[i] == 32 {
        if letters > 0 {
            Some((bits, i))
        } else {
            None
        }
    } else if letters < 4 && letter_castle_bit(b[i]) != 0 {
        castling_from(b, i + 1, (bits | letter_castle_bit(b[i])) as u8, letters + 1)
    } else {
        None
    }
}

/// The castling field starting at byte `q`: `-`, or castling letters.
pub open spec fn castling_field(b: Seq<u8>, q: int) -> Option<(u8, int)> {
    if 0 <= q < b.len() && b[q] == 45 {
        if b.len() - q >= 2 && b[q + 1] == 32 {
            Some((0u8, q + 1))
        } else {
            None
        }
    } else {
        castling_from(b, q, 0, 0)
    }
}

/// The en passant field starting at byte `e`, as a padded square number
/// (99 for `-`), ended by a space or the end of the text.
pub open spec fn en_passant_field(b: Seq<u8>, e: int) -> Option<int> {
    if 0 <= e < b.len() && b[e] == 45 && (e + 1 == b.len() || b[e + 1] == 32) {
        Some(99)
    } else if 0 <= e && e + 1 < b.len() && 97 <= b[e] <= 104 && 49 <= b[e + 1] <= 56 && (e + 2
        == b.len() || b[e + 2] == 32) {
        Some(21 + (b[e] - 97) + (b[e + 1] - 49) * 10)
    } else {
        None
    }
}

/// What a position text decodes to: the dense squares, the side to move, the
/// castling pattern and the en passant square number; fields after the en
/// passant square are not read.
pub open spec fn fen_spec(b: Seq<u8>) -> Result<(Seq<Pieces>, Colors, u8, int), FenError> {
    match placement_from(b, 0, 7, 0, empty_squares()) {
        None => Err(FenError::Placement),
        Some((squares, p)) => {
            if b.len() - p <= 2 || b[p + 2] != 32 || (b[p + 1] != 119 && b[p + 1] != 98) {
                Err(FenError::Side)
            } else {
                let side = if b[p + 1] == 119 {
                    Colors::White
                } else {
                    Colors::Black
                };
                match castling_field(b, p + 3) {
                    None => Err(FenError::Castling),
                    Some((bits, e)) => match en_passant_field(b, e + 1) {
                        None => Err(FenError::EnPassant),
                        Some(ep) => Ok((squares, side, bits, ep)),
                    },
                }
            }
        },
    }
}

fn letter_to_piece(c: u8) -> (r: Pieces)
    ensures
        r == letter_piece(c),
{
    match c {
        80 => Pieces::Wp,
        78 => Pieces::Wn,
        66 => Pieces::Wb,
        82 => Pieces::Wr,
        81 => Pieces::Wq,
        75 => Pieces::Wk,
        112 => Pieces::Bp,
        110 => Pieces::Bn,
        98 => Pieces::Bb,
        114 => Pieces::Br,
        113 => Pieces::Bq,
        107 => Pieces::Bk,
        _ => Pieces::Empty,
    }
}

fn letter_to_castle_bit(c: u8) -> (r: u8)
    ensures
        r == letter_castle_bit(c),
{
    match c {
        75 => 1,
        81 => 2,
        107 => 4,
        113 => 8,
        _ => 0,
    }
}

/// Decodes the placement field; gives the squares and the index of the
/// space that ends it.
fn decode_placement(b: &[u8]) -> (r: Option<(Vec<Pieces>, usize)>)
    ensures
        match r {
            Some((squares, p)) => p < b@.len() && squares@.len() == 64 && placement_from(b@, 0, 7, 0, empty_squares()) == Some(
                (squares@, p as int),
            ),
            None => placement_from(b@, 0, 7, 0, empty_squares()) is None,
        },
{
    let mut squares: Vec<Pieces> = Vec::new();
    let mut k: usize = 0;
    while k < 64
        invariant
            k <= 64,
            squares@.len() == k,
            forall|j: int| 0 <= j < k ==> squares@[j] == Pieces::Empty,
        decreases 64 - k,
    {
        squares.push(Pieces::Empty);
        k += 1;
    }
    assert(squares@ =~= empty_squares());
    let mut i: usize = 0;
    let mut rank: usize = 7;
    let mut file: usize = 0;
    while i < b.len()
        invariant
            rank <= 7,
            file <= 8,
            squares@.len() == 64,
            placement_from(b@, i as int, rank as int, file as int, squares@) == placement_from(
                b@,
                0,
                7,
                0,
                empty_squares(),
            ),
        decreases b.len() - i,
    {
        let c = b[i];
        if c == 32 {
            if rank == 0 && file == 8 {
                return Some((squares, i));
            } else {
                return None;
            }
        } else if c == 47 {
            if file == 8 && rank > 0 {
                rank -= 1;
                file = 0;
            } else {
                return None;
            }
        } else if 49 <= c && c <= 56 {
            let count = (c - 48) as usize;
            if file + count <= 8 {
                file += count;
            } else {
                return None;
            }
        } else {
            let piece = letter_to_piece(c);
            if piece != Pieces::Empty && file < 8 {
                squares.set(rank * 8 + file, piece);
                file += 1;
            } else {
                return None;
            }
        }
        i += 1;
    }
    None
}

/// Decodes the castling field starting at byte `q`; gives the pattern and the
/// index of the space that ends the field.
fn decode_castling(b: &[u8], q: usize) -> (r: Option<(u8, usize)>)
    ensures
        match r {
            Some((bits, i)) => i < b@.len() && bits < 16 && castling_field(b@, q as int) == Some(
                (bits, i as int),
            ),
            None => castling_field(b@, q as int) is None,
        },
{
    if q < b.len() && b[q] == 45 {
        if b.len() - q >= 2 && b[q + 1] == 32 {
            return Some((0, q + 1));
        } else {
            return None;
        }
    }
    let mut bits: u8 = 0;
    let mut i: usize = q;
    let mut letters: usize = 0;
    while i < b.len() && b[i] != 32
        invariant
            q <= i,
            letters <= 4,
            bits < 16,
            castling_from(b@, i as int, bits, letters as int) == castling_field(b@, q as int),
        decreases b.len() - i,
    {
        let bit = letter_to_castle_bit(b[i]);
        if letters < 4 && bit != 0 {
            assert(bits < 16 && bit < 16 ==> bits | bit < 16) by (bit_vector);
            bits = bits | bit;
            letters += 1;
            i += 1;
        } else {
            return None;
        }
    }
    if i >= b.len() || letters == 0 {
        return None;
    }
    Some((bits, i))
}

/// Decodes the en passant field starting at byte `e`.
fn decode_en_passant(b: &[u8], e: usize) -> (r: Option<Squares>)
    ensures
        match r {
            Some(square) => en_passant_field(b@, e as int) == Some(square.value()),
            None => en_passant_field(b@, e as int) is None,
        },
{
    if e < b.len() && b[e] == 45 && (b.len() - e == 1 || b[e + 1] == 32) {
        Some(Squares::NoSquare)
    } else if e < b.len() && b.len() - e >= 2 && 97 <= b[e] && b[e] <= 104 && 49 <= b[e + 1]
        && b[e + 1] <= 56 && (b.len() - e == 2 || b[e + 2] == 32) {
        let file = (b[e] - 97) as u32;
        let rank = (b[e + 1] - 49) as u32;
        Some(Squares::from_u32(21 + file + rank * 10))
    } else {
        None
    }
}

/// Decodes a position text (Forsyth-Edwards Notation) up to its en passant field.
pub fn decode_fen(b: &[u8]) -> (r: Result<PositionRecord, FenError>)
    ensures
        match r {
            Ok(record) => record.squares@.len() == 64 && fen_spec(b@) == Ok::<_, FenError>(
                (record.squares@, record.side, record.castle_bits(), record.en_passant.value()),
            ),
            Err(e) => fen_spec(b@) == Err::<(Seq<Pieces>, Colors, u8, int), _>(e),
        },
{
    let (squares, p) = match decode_placement(b) {
        Some(found) => found,
        None => {
            return Err(FenError::Placement);
        },
    };
    if b.len() - p <= 2 || b[p + 2] != 32 || (b[p + 1] != 119 && b[p + 1] != 98) {
        return Err(FenError::Side);
    }
    let side = if b[p + 1] == 119 {
        Colors::White
    } else {
        Colors::Black
    };
    let (bits, i) = match decode_castling(b, p + 3) {
        Some(found) => found,
        None => {
            return Err(FenError::Castling);
        },
    };
    let en_passant = match decode_en_passant(b, i + 1) {
        Some(square) => square,
        None => {
            return Err(FenError::EnPassant);
        },
    };
    let white_king_side = bits & 1 != 0;
    let white_queen_side = bits & 2 != 0;
    let black_king_side = bits & 4 != 0;
    let black_queen_side = bits & 8 != 0;
    assert(((if white_king_side { 1u8 } else { 0u8 }) | (if white_queen_side { 2u8 } else {
        0u8
    }) | (if black_king_side { 4u8 } else { 0u8 }) | (if black_queen_side { 8u8 } else { 0u8 }))
        == bits) by (bit_vector)
        requires
            bits < 16,
            white_king_side == (bits & 1 != 0),
            white_queen_side == (bits & 2 != 0),
            black_king_side == (bits & 4 != 0),
            black_queen_side == (bits & 8 != 0),
    ;
    Ok(
        PositionRecord {
            squares,
            side,
            white_king_side,
            white_queen_side,
            black_king_side,
            black_queen_side,
            en_passant,
        },
    )
}

} // verus!
