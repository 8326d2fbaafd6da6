use checksum_coverage::algorithm::{checksum, Algorithm};
use checksum_coverage::block::{build_block, check_source, SourceError, BLOCK_SIZE, NUM_BLOCKS};
use checksum_coverage::coverage::detection_coverage_adjacent_2bit;
use checksum_coverage::flip::flip_bit;
use checksum_coverage::frequency::frequency_table;

#[test]
fn reference_configuration_constants() {
    assert_eq!(BLOCK_SIZE, 128);
    assert_eq!(NUM_BLOCKS, 10000);
}

#[test]
fn source_must_hold_one_block() {
    assert_eq!(check_source(&[0u8; 127], 128), Err(SourceError::TooSmall));
    assert_eq!(check_source(&[0u8; 128], 128), Ok(()));
    assert_eq!(check_source(&[], 1), Err(SourceError::TooSmall));
}

#[test]
fn blocks_wrap_around_the_source() {
    let data = [1u8, 2, 3];
    assert_eq!(build_block(&data, 0, 2), vec![1, 2]);
    assert_eq!(build_block(&data, 1, 2), vec![3, 1]);
    assert_eq!(build_block(&data, 2, 2), vec![2, 3]);
    assert_eq!(build_block(&data, 0, 3), vec![1, 2, 3]);
}

#[test]
fn flip_toggles_one_bit() {
    let mut b = vec![0u8, 0];
    flip_bit(&mut b, 0);
    assert_eq!(b, vec![1, 0]);
    flip_bit(&mut b, 7);
    assert_eq!(b, vec![0x81, 0]);
    flip_bit(&mut b, 8);
    assert_eq!(b, vec![0x81, 1]);
}

#[test]
fn flip_twice_restores_block() {
    let original: Vec<u8> = (0u8..128).collect();
    for p in [0usize, 7, 8, 500, 1023] {
        let mut b = original.clone();
        flip_bit(&mut b, p);
        assert_ne!(b, original);
        flip_bit(&mut b, p);
        assert_eq!(b, original);
    }
}

#[test]
fn total_count_is_blocks_times_positions() {
    let data: Vec<u8> = (0u8..=255).collect();
    let r = detection_coverage_adjacent_2bit(&data, Algorithm::Sum, 20, BLOCK_SIZE);
    assert_eq!(r.total, 20 * 1023);
    assert!(r.detected <= r.total);
    assert_eq!(r.algorithm, Algorithm::Sum);
}

#[test]
fn total_count_in_small_configuration() {
    let data = [0xA5u8; 4];
    let r = detection_coverage_adjacent_2bit(&data, Algorithm::Xor, 3, 2);
    assert_eq!(r.total, 3 * 15);
}

#[test]
fn xor_detects_every_adjacent_pair() {
    let data: Vec<u8> = (0u8..128).collect();
    let r = detection_coverage_adjacent_2bit(&data, Algorithm::Xor, 2, BLOCK_SIZE);
    assert_eq!(r.detected, r.total);
}

#[test]
fn or_misses_flips_in_all_ones_block() {
    let data = vec![0xFFu8; 128];
    let r = detection_coverage_adjacent_2bit(&data, Algorithm::Or, 1, BLOCK_SIZE);
    assert_eq!(r.total, 1023);
    assert_eq!(r.detected, 0);
}

#[test]
fn and_misses_flips_in_all_zeros_block() {
    let data = vec![0u8; 128];
    let r = detection_coverage_adjacent_2bit(&data, Algorithm::And, 1, BLOCK_SIZE);
    assert_eq!(r.total, 1023);
    assert_eq!(r.detected, 0);
}

#[test]
fn xor_misses_the_same_bit_flipped_twice() {
    let data = vec![0x3Cu8; 128];
    let baseline = checksum(Algorithm::Xor, &data);
    let mut b = data.clone();
    flip_bit(&mut b, 9);
    flip_bit(&mut b, 9);
    assert_eq!(checksum(Algorithm::Xor, &b), baseline);
    // Bit 0 of two different bytes: their parity changes cancel.
    flip_bit(&mut b, 0);
    flip_bit(&mut b, 8);
    assert_eq!(checksum(Algorithm::Xor, &b), baseline);
}

#[test]
fn sum_detection_on_single_byte_block() {
    // Bits p, p+1 of one byte: toggling changes the byte, and so the sum.
    let data = [0u8];
    let r = detection_coverage_adjacent_2bit(&data, Algorithm::Sum, 1, 1);
    assert_eq!(r.total, 7);
    assert_eq!(r.detected, 7);
}

#[test]
fn frequency_table_counts_blocks() {
    let data: Vec<u8> = (0u8..128).collect();
    let t = frequency_table(&data, Algorithm::Sum, 5, BLOCK_SIZE);
    assert_eq!(t.len(), 256);
    assert_eq!(t[192], 5);
    assert_eq!(t.iter().sum::<u32>(), 5);
}

#[test]
fn frequency_table_spreads_over_values() {
    let data = [1u8, 2, 3, 4];
    // blocks of 2: [1,2], [3,4], [1,2]; sums 3, 7, 3
    let t = frequency_table(&data, Algorithm::Sum, 3, 2);
    assert_eq!(t[3], 2);
    assert_eq!(t[7], 1);
    assert_eq!(t.iter().sum::<u32>(), 3);
}
