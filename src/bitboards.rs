use vstd::prelude::*;
use vstd::arithmetic::power2::{pow2, lemma2_to64};
use vstd::bits::{lemma_u64_shl_is_mul, lemma_u64_pow2_no_overflow};
use vstd::std_specs::bits::{u64_trailing_zeros, axiom_u64_trailing_zeros};
use crate::definitions::Definitions;

verus! {

/// Bit-scan table matched to the multiplier 0x783a9b23 of `pop_first_bit`: entry
/// `((fold * 0x783a9b23) mod 2^32) >> 26` is the index of the bit that `fold` stands for.
const BIT_TABLE: [i32; 64] = [
    63, 30, 3, 32, 25, 41, 22, 33, 15, 50, 42, 13, 11, 53, 19, 34, 61, 29, 2, 51, 21, 43, 45, 10,
    18, 47, 1, 54, 9, 57, 0, 35, 62, 31, 40, 4, 49, 5, 52, 26, 60, 6, 23, 44, 46, 27, 56, 16, 7,
    39, 48, 24, 59, 14, 12, 55, 38, 28, 58, 20, 37, 17, 36, 8,
];

/// Bit `i` (0..64) of `b` is set.
pub open spec fn has_bit(b: u64, i: int) -> bool {
    0 <= i < 64 && (b >> (i as u64)) & 1 == 1
}

/// The number of set bits of `b`.
pub open spec fn bit_count(b: u64) -> nat
    decreases b,
{
    if b == 0 {
        0
    } else {
        (b % 2) as nat + bit_count((b / 2) as u64)
    }
}

/// The index of the lowest set bit of `b` (64 when `b` is zero).
pub open spec fn lowest_bit(b: u64) -> int {
    u64_trailing_zeros(b) as int
}

/// `b` with its lowest set bit cleared.
pub open spec fn without_lowest_bit(b: u64) -> u64 {
    b & ((b - 1) as u64)
}

proof fn lemma_bit_count_le(b: u64)
    ensures
        bit_count(b) <= b,
    decreases b,
{
    if b != 0 {
        lemma_bit_count_le((b / 2) as u64);
    }
}

/// Clearing the lowest set bit takes one from the count.
proof fn lemma_bit_count_without_lowest(b: u64)
    requires
        b != 0,
    ensures
        bit_count(without_lowest_bit(b)) + 1 == bit_count(b),
        without_lowest_bit(b) < b,
    decreases b,
{
    assert(b != 0 ==> b & ((b - 1) as u64) < b) by (bit_vector);
    if b % 2 == 1 {
        assert(b % 2 == 1 ==> b & ((b - 1) as u64) == (b - 1) as u64) by (bit_vector);
        assert(b % 2 == 1 ==> ((b - 1) as u64) / 2 == b / 2) by (bit_vector);
        let c = (b - 1) as u64;
        if c != 0 {
            assert(bit_count(c) == (c % 2) as nat + bit_count((c / 2) as u64));
        }
    } else {
        let h = (b / 2) as u64;
        assert(b % 2 == 0 && b != 0 ==> (b / 2) as u64 != 0) by (bit_vector);
        assert(b % 2 == 0 && b != 0 ==> b & ((b - 1) as u64) == 2 * (((b / 2) as u64) & ((((b
            / 2) as u64) - 1) as u64))) by (bit_vector);
        lemma_bit_count_without_lowest(h);
        let d = h & ((h - 1) as u64);
        let e = b & ((b - 1) as u64);
        assert(d < 0x8000_0000_0000_0000);
        if e != 0 {
            assert(e == 2 * d);
            assert(e % 2 == 0 && e / 2 == d);
            assert(bit_count(e) == (e % 2) as nat + bit_count((e / 2) as u64));
        }
    }
}

/// The number of set bits of `bitboard`.
pub fn count_bits(bitboard: u64) -> (r: u64)
    ensures
        r == bit_count(bitboard),
{
    let mut b: u64 = bitboard;
    let mut counter: u64 = 0;
    proof {
        lemma_bit_count_le(bitboard);
    }
    while b != 0
        invariant
            counter + bit_count(b) == bit_count(bitboard),
            bit_count(bitboard) <= bitboard,
        decreases b,
    {
        proof {
            lemma_bit_count_without_lowest(b);
        }
        b = b & (b - 1);
        counter += 1;
    }
    counter
}

/// The fold of `pop_first_bit` for a board whose lowest set bit is `k`.
spec fn fold_of(k: int) -> int {
    if k < 32 {
        pow2((k + 1) as nat) - 1
    } else {
        pow2(32) - pow2((k - 31) as nat)
    }
}

spec fn bit_table_index(k: int) -> int {
    ((fold_of(k) * 0x783a9b23) % 0x1_0000_0000) / 0x400_0000
}

spec fn bit_table_matches_from(k: nat) -> bool
    decreases 64 - k,
{
    if k >= 64 {
        true
    } else {
        0 <= bit_table_index(k as int) < 64 && BIT_TABLE@[bit_table_index(k as int)] == k
            && bit_table_matches_from(k + 1)
    }
}

proof fn lemma_bit_table_matches_from(j: nat, k: nat)
    requires
        bit_table_matches_from(j),
        j <= k < 64,
    ensures
        0 <= bit_table_index(k as int) < 64,
        BIT_TABLE@[bit_table_index(k as int)] == k,
    decreases k - j,
{
    if j < k {
        lemma_bit_table_matches_from(j + 1, k);
    }
}

proof fn lemma_bit_table_from_60()
    requires
        bit_table_matches_from(64),
    ensures
        bit_table_matches_from(60),
{
    lemma2_to64();
    reveal_with_fuel(bit_table_matches_from, 5);
}

proof fn lemma_bit_table_from_56()
    requires
        bit_table_matches_from(60),
    ensures
        bit_table_matches_from(56),
{
    lemma2_to64();
    reveal_with_fuel(bit_table_matches_from, 5);
}

proof fn lemma_bit_table_from_52()
    requires
        bit_table_matches_from(56),
    ensures
        bit_table_matches_from(52),
{
    lemma2_to64();
    reveal_with_fuel(bit_table_matches_from, 5);
}

proof fn lemma_bit_table_from_48()
    requires
        bit_table_matches_from(52),
    ensures
        bit_table_matches_from(48),
{
    lemma2_to64();
    reveal_with_fuel(bit_table_matches_from, 5);
}

proof fn lemma_bit_table_from_44()
    requires
        bit_table_matches_from(48),
    ensures
        bit_table_matches_from(44),
{
    lemma2_to64();
    reveal_with_fuel(bit_table_matches_from, 5);
}

proof fn lemma_bit_table_from_40()
    requires
        bit_table_matches_from(44),
    ensures
        bit_table_matches_from(40),
{
    lemma2_to64();
    reveal_with_fuel(bit_table_matches_from, 5);
}

proof fn lemma_bit_table_from_36()
    requires
        bit_table_matches_from(40),
    ensures
        bit_table_matches_from(36),
{
    lemma2_to64();
    reveal_with_fuel(bit_table_matches_from, 5);
}

proof fn lemma_bit_table_from_32()
    requires
        bit_table_matches_from(36),
    ensures
        bit_table_matches_from(32),
{
    lemma2_to64();
    reveal_with_fuel(bit_table_matches_from, 5);
}

proof fn lemma_bit_table_from_28()
    requires
        bit_table_matches_from(32),
    ensures
        bit_table_matches_from(28),
{
    lemma2_to64();
    reveal_with_fuel(bit_table_matches_from, 5);
}

proof fn lemma_bit_table_from_24()
    requires
        bit_table_matches_from(28),
    ensures
        bit_table_matches_from(24),
{
    lemma2_to64();
    reveal_with_fuel(bit_table_matches_from, 5);
}

proof fn lemma_bit_table_from_20()
    requires
        bit_table_matches_from(24),
    ensures
        bit_table_matches_from(20),
{
    lemma2_to64();
    reveal_with_fuel(bit_table_matches_from, 5);
}

proof fn lemma_bit_table_from_16()
    requires
        bit_table_matches_from(20),
    ensures
        bit_table_matches_from(16),
{
    lemma2_to64();
    reveal_with_fuel(bit_table_matches_from, 5);
}

proof fn lemma_bit_table_from_12()
    requires
        bit_table_matches_from(16),
    ensures
        bit_table_matches_from(12),
{
    lemma2_to64();
    reveal_with_fuel(bit_table_matches_from, 5);
}

proof fn lemma_bit_table_from_8()
    requires
        bit_table_matches_from(12),
    ensures
        bit_table_matches_from(8),
{
    lemma2_to64();
    reveal_with_fuel(bit_table_matches_from, 5);
}

proof fn lemma_bit_table_from_4()
    requires
        bit_table_matches_from(8),
    ensures
        bit_table_matches_from(4),
{
    lemma2_to64();
    reveal_with_fuel(bit_table_matches_from, 5);
}

proof fn lemma_bit_table_from_0()
    requires
        bit_table_matches_from(4),
    ensures
        bit_table_matches_from(0),
{
    lemma2_to64();
    reveal_with_fuel(bit_table_matches_from, 5);
}

/// The table and the multiplier are a matched pair.
proof fn lemma_bit_table(k: int)
    requires
        0 <= k < 64,
    ensures
        0 <= bit_table_index(k) < 64,
        BIT_TABLE@[bit_table_index(k)] == k,
{
    assert(bit_table_matches_from(64));
    lemma_bit_table_from_60();
    lemma_bit_table_from_56();
    lemma_bit_table_from_52();
    lemma_bit_table_from_48();
    lemma_bit_table_from_44();
    lemma_bit_table_from_40();
    lemma_bit_table_from_36();
    lemma_bit_table_from_32();
    lemma_bit_table_from_28();
    lemma_bit_table_from_24();
    lemma_bit_table_from_20();
    lemma_bit_table_from_16();
    lemma_bit_table_from_12();
    lemma_bit_table_from_8();
    lemma_bit_table_from_4();
    lemma_bit_table_from_0();
    lemma_bit_table_matches_from(0, k as nat);
}

/// The mask of bits 0..=k.
spec fn mask_through(k: u64) -> u64 {
    ((1u64 << k) - 1) as u64 | (1u64 << k)
}

/// For a board whose lowest set bit is `k`, `b ^ (b - 1)` keeps bits 0..=k
/// and `b & (b - 1)` clears bit `k`.
proof fn lemma_isolate_lowest(b: u64, k: u64)
    by (bit_vector)
    requires
        k < 64,
        (b >> k) & 1 == 1,
        k == 0 || b << ((64 - k) as u64) == 0,
    ensures
        b ^ ((b - 1) as u64) == mask_through(k),
        b & ((b - 1) as u64) == b & !(1u64 << k),
{
}

proof fn lemma_fold_low(k: u64)
    by (bit_vector)
    requires
        k < 32,
    ensures
        (mask_through(k) & 0xffffffff) ^ (mask_through(k) >> 32) == ((1u64 << ((k + 1) as u64))
            - 1) as u64,
{
}

proof fn lemma_fold_high(k: u64)
    by (bit_vector)
    requires
        32 <= k < 64,
    ensures
        (mask_through(k) & 0xffffffff) ^ (mask_through(k) >> 32) == (0x1_0000_0000u64 - (1u64 << ((k
            - 31) as u64))) as u64,
{
}

proof fn lemma_clear_bit(b: u64, k: u64, j: u64)
    by (bit_vector)
    requires
        k < 64,
        j < 64,
    ensures
        (((b & !(1u64 << k)) >> j) & 1 == 1) <==> ((b >> j) & 1 == 1 && j != k),
{
}

/// What the lowest set bit of a nonzero board is, and what clearing it leaves.
proof fn lemma_lowest_bit(b: u64)
    requires
        b != 0,
    ensures
        0 <= lowest_bit(b) < 64,
        has_bit(b, lowest_bit(b)),
        forall|j: int| 0 <= j < lowest_bit(b) ==> !has_bit(b, j),
        without_lowest_bit(b) == b & !(1u64 << (lowest_bit(b) as u64)),
        forall|j: int|
            0 <= j < 64 ==> (has_bit(without_lowest_bit(b), j) <==> (has_bit(b, j) && j
                != lowest_bit(b))),
{
    let k = u64_trailing_zeros(b) as u64;
    axiom_u64_trailing_zeros(b);
    lemma_isolate_lowest(b, k);
    assert forall|j: int| 0 <= j < lowest_bit(b) implies !has_bit(b, j) by {
        assert((b >> (j as u64)) & 1u64 == 0u64);
    }
    assert forall|j: int| 0 <= j < 64 implies (has_bit(without_lowest_bit(b), j) <==> (has_bit(
        b,
        j,
    ) && j != lowest_bit(b))) by {
        lemma_clear_bit(b, k, j as u64);
    }
}

#[via_fn]
proof fn pop_sequence_decreases(b: u64) {
    if b != 0 {
        lemma_bit_count_without_lowest(b);
    }
}

/// The indices that `pop_first_bit` returns when it is called on `b` again and
/// again until the board is empty, in the order of the calls.
pub open spec fn pop_sequence(b: u64) -> Seq<int>
    decreases b
    via pop_sequence_decreases
{
    if b == 0 {
        Seq::empty()
    } else {
        seq![lowest_bit(b)] + pop_sequence(without_lowest_bit(b))
    }
}

/// The board left after `n` calls of `pop_first_bit` on `b`.
pub open spec fn remaining_after(b: u64, n: nat) -> u64
    decreases n,
{
    if n == 0 {
        b
    } else {
        remaining_after(without_lowest_bit(b), (n - 1) as nat)
    }
}

/// Calling `pop_first_bit` on a board until it is empty yields the index of
/// every set bit exactly once, in ascending order, and leaves the board at zero.
pub proof fn lemma_pop_sequence(b: u64)
    ensures
        pop_sequence(b).len() == bit_count(b),
        forall|n: int| 0 <= n < pop_sequence(b).len() ==> 0 <= #[trigger] pop_sequence(b)[n] < 64,
        forall|m: int, n: int|
            0 <= m < n < pop_sequence(b).len() ==> pop_sequence(b)[m] < pop_sequence(b)[n],
        forall|i: int| 0 <= i < 64 ==> (has_bit(b, i) <==> pop_sequence(b).contains(i)),
        forall|n: int|
            0 <= n < pop_sequence(b).len() ==> #[trigger] pop_sequence(b)[n] == lowest_bit(
                remaining_after(b, n as nat),
            ),
        remaining_after(b, bit_count(b)) == 0,
    decreases b,
{
    if b == 0 {
        assert forall|i: int| 0 <= i < 64 implies !has_bit(b, i) by {
            let ii = i as u64;
            assert((0u64 >> ii) & 1 == 0) by (bit_vector);
        }
    } else {
        let k = lowest_bit(b);
        let c = without_lowest_bit(b);
        lemma_lowest_bit(b);
        lemma_bit_count_without_lowest(b);
        lemma_pop_sequence(c);
        let s = pop_sequence(b);
        let t = pop_sequence(c);
        assert(s == seq![k] + t);
        assert forall|n: int| 0 <= n < t.len() implies k < #[trigger] t[n] by {
            let x = t[n];
            assert(0 <= x < 64);
            assert(t.contains(x));
            assert(has_bit(c, x));
            assert(has_bit(b, x) && x != k);
            if x < k {
                assert(!has_bit(b, x));
            }
        }
        assert forall|i: int| 0 <= i < 64 implies (has_bit(b, i) <==> s.contains(i)) by {
            if has_bit(b, i) && i != k {
                assert(t.contains(i));
                let n = choose|n: int| 0 <= n < t.len() && t[n] == i;
                assert(s[n + 1] == i);
            }
            if has_bit(b, i) && i == k {
                assert(s[0] == i);
            }
            if s.contains(i) {
                let n = choose|n: int| 0 <= n < s.len() && s[n] == i;
                if n > 0 {
                    assert(t[n - 1] == i);
                    assert(t.contains(i));
                }
            }
        }
        assert forall|n: int| 0 <= n < s.len() implies #[trigger] s[n] == lowest_bit(
            remaining_after(b, n as nat),
        ) by {
            if n > 0 {
                assert(s[n] == t[n - 1]);
                assert(remaining_after(b, n as nat) == remaining_after(c, (n - 1) as nat));
            }
        }
        assert(remaining_after(b, bit_count(b)) == remaining_after(c, bit_count(c)));
    }
}

proof fn lemma_set_bit_shift(b: u64, s: u64)
    by (bit_vector)
    requires
        0 < s < 64,
    ensures
        (b | (1u64 << s)) % 2 == b % 2,
        (b | (1u64 << s)) / 2 == (b / 2) | (1u64 << ((s - 1) as u64)),
        ((b / 2) >> ((s - 1) as u64)) & 1 == (b >> s) & 1,
{
}

/// Setting a bit that was clear adds one to the count.
pub proof fn lemma_set_bit_count(b: u64, s: u64)
    requires
        s < 64,
        !has_bit(b, s as int),
    ensures
        bit_count(b | (1u64 << s)) == bit_count(b) + 1,
    decreases s,
{
    let c = b | (1u64 << s);
    assert(c != 0) by (bit_vector)
        requires
            c == b | (1u64 << s),
            s < 64,
    ;
    assert(bit_count(c) == (c % 2) as nat + bit_count((c / 2) as u64));
    if b != 0 {
        assert(bit_count(b) == (b % 2) as nat + bit_count((b / 2) as u64));
    }
    if s == 0 {
        assert((b >> 0u64) & 1 != 1 ==> b | (1u64 << 0u64) == b + 1 && b % 2 == 0 && (b + 1) % 2
            == 1 && (b + 1) / 2 == b / 2) by (bit_vector);
    } else {
        lemma_set_bit_shift(b, s);
        lemma_set_bit_count((b / 2) as u64, (s - 1) as u64);
    }
}

/// The bits of `b` with bit `s` set are those of `b` and `s`.
pub proof fn lemma_set_bit_has(b: u64, s: u64, j: u64)
    by (bit_vector)
    requires
        s < 64,
        j < 64,
    ensures
        ((b | (1u64 << s)) >> j) & 1 == 1 <==> ((b >> j) & 1 == 1 || j == s),
{
}

fn get_overflow_as_32_bit(number: u64) -> (r: u32)
    ensures
        r == number % 0x1_0000_0000,
{
    (number % (u32::MAX as u64 + 1)) as u32
}

/// Clears the lowest set bit of `bitboard` and returns its index.
pub fn pop_first_bit(bitboard: &mut u64) -> (r: i32)
    requires
        *old(bitboard) != 0,
    ensures
        r == lowest_bit(*old(bitboard)),
        0 <= r < 64,
        has_bit(*old(bitboard), r as int),
        forall|j: int| 0 <= j < r ==> !has_bit(*old(bitboard), j),
        *final(bitboard) == without_lowest_bit(*old(bitboard)),
        *final(bitboard) == *old(bitboard) & !(1u64 << (r as u64)),
        *final(bitboard) < *old(bitboard),
        forall|j: int|
            0 <= j < 64 ==> (has_bit(*final(bitboard), j) <==> (has_bit(*old(bitboard), j) && j
                != r)),
{
    let ghost old_b: u64 = *bitboard;
    let ghost k: u64 = u64_trailing_zeros(old_b) as u64;
    proof {
        axiom_u64_trailing_zeros(old_b);
        lemma_isolate_lowest(old_b, k);
        lemma2_to64();
        if k < 32 {
            lemma_fold_low(k);
            lemma_u64_pow2_no_overflow((k + 1) as nat);
            lemma_u64_shl_is_mul(1, (k + 1) as u64);
        } else {
            lemma_fold_high(k);
            lemma_u64_pow2_no_overflow((k - 31) as nat);
            lemma_u64_shl_is_mul(1, (k - 31) as u64);
        }
        lemma_bit_table(k as int);
    }
    let b: u64 = *bitboard ^ (*bitboard - 1);
    let fold: u64 = (b & 0xffffffff) ^ (b >> 32);
    assert(fold == fold_of(k as int));
    *bitboard &= *bitboard - 1;
    let product: u32 = get_overflow_as_32_bit(fold * 0x783a9b23);
    assert(product >> 26 == product / 0x400_0000) by (bit_vector);
    let r = BIT_TABLE[(product >> 26) as usize];
    proof {
        lemma_lowest_bit(old_b);
        lemma_bit_count_without_lowest(old_b);
    }
    r
}

/// Sets bit `square_64` of `bitboard`.
pub fn set_bit_to_bitboard(definitions: &Definitions, bitboard: &mut u64, square_64: i32)
    requires
        definitions.tables_wf(),
        0 <= square_64 < 64,
    ensures
        *final(bitboard) == *old(bitboard) | (1u64 << (square_64 as u64)),
{
    *bitboard |= definitions.bit_mask_to_set_bit_inside_bitboard()[square_64 as usize];
}

/// Clears bit `square_64` of `bitboard`.
pub fn clear_bit_to_bitboard(definitions: &Definitions, bitboard: &mut u64, square_64: i32)
    requires
        definitions.tables_wf(),
        0 <= square_64 < 64,
    ensures
        *final(bitboard) == *old(bitboard) & !(1u64 << (square_64 as u64)),
{
    *bitboard &= definitions.bit_mask_to_clear_bit_inside_bitboard()[square_64 as usize];
}

} // verus!
