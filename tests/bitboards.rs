use chess_engine::bitboards::{clear_bit_to_bitboard, count_bits, pop_first_bit, set_bit_to_bitboard};
use chess_engine::definitions::Definitions;

fn tables() -> Definitions {
    let mut definitions = Definitions::new();
    definitions.init_with_seed(7);
    definitions
}

#[test]
fn count_bits_of_zero_and_all_ones() {
    assert_eq!(count_bits(0), 0);
    assert_eq!(count_bits(u64::MAX), 64);
}

#[test]
fn count_bits_matches_count_ones() {
    let samples: [u64; 8] = [1, 2, 3, 0x8000_0000_0000_0000, 0xF0F0, 0x00FF_0000_0000_FF00, 12345678901, 0x5555_5555_5555_5555];
    for b in samples {
        assert_eq!(count_bits(b), b.count_ones() as u64);
    }
}

#[test]
fn pop_first_bit_yields_ascending_indices_once() {
    let samples: [u64; 6] = [1, 0x8000_0000_0000_0000, u64::MAX, 0x00FF_0000_0000_FF00, 0x1_0000_0001, 0xA5A5_0000_0F00_0001];
    for start in samples {
        let mut b = start;
        let mut seen: Vec<i32> = Vec::new();
        while b != 0 {
            seen.push(pop_first_bit(&mut b));
        }
        let expected: Vec<i32> = (0..64).filter(|i| start & (1u64 << i) != 0).collect();
        assert_eq!(seen, expected);
        assert_eq!(b, 0);
    }
}

#[test]
fn pop_first_bit_clears_each_single_bit() {
    for index in 0..64 {
        let mut b: u64 = 1u64 << index;
        assert_eq!(pop_first_bit(&mut b), index);
        assert_eq!(b, 0);
    }
}

#[test]
fn pop_first_bit_on_high_bit_with_lower_set() {
    let mut b: u64 = 0b1011000;
    assert_eq!(pop_first_bit(&mut b), 3);
    assert_eq!(b, 0b1010000);
}

#[test]
fn set_and_clear_bits() {
    let definitions = tables();
    let mut b: u64 = 0;
    set_bit_to_bitboard(&definitions, &mut b, 0);
    set_bit_to_bitboard(&definitions, &mut b, 63);
    set_bit_to_bitboard(&definitions, &mut b, 28);
    assert_eq!(b, 1 | (1u64 << 63) | (1u64 << 28));
    clear_bit_to_bitboard(&definitions, &mut b, 63);
    assert_eq!(b, 1 | (1u64 << 28));
    clear_bit_to_bitboard(&definitions, &mut b, 5);
    assert_eq!(b, 1 | (1u64 << 28));
}
