use checksum_coverage::algorithm::{checksum, Algorithm};
use checksum_coverage::checksum::{
    checksum_and, checksum_f, checksum_mul, checksum_or, checksum_sub, checksum_sum,
    checksum_xnor, checksum_xor,
};

fn ramp() -> Vec<u8> {
    (0u8..128).collect()
}

#[test]
fn ramp_block_sum_is_total_mod_256() {
    // 0 + 1 + ... + 127 == 8128, and 8128 mod 256 == 192
    assert_eq!(checksum_sum(&ramp()), (8128 % 256) as u8);
    assert_eq!(checksum_sum(&ramp()), 192);
}

#[test]
fn ramp_block_xor_is_zero() {
    assert_eq!(checksum_xor(&ramp()), 0);
}

#[test]
fn sum_wraps_modulo_256() {
    assert_eq!(checksum_sum(&[200, 100]), 44);
    assert_eq!(checksum_sum(&[]), 0);
    assert_eq!(checksum_sum(&[255; 128]), 128);
}

#[test]
fn sub_subtracts_later_bytes_from_first() {
    assert_eq!(checksum_sub(&[10, 3, 2]), 5);
    assert_eq!(checksum_sub(&[1, 2]), 255);
    assert_eq!(checksum_sub(&[0, 255, 255]), 2);
}

#[test]
fn mul_multiplies_modulo_256() {
    assert_eq!(checksum_mul(&[2, 3, 4]), 24);
    assert_eq!(checksum_mul(&[16, 16]), 0);
    assert_eq!(checksum_mul(&[]), 1);
    assert_eq!(checksum_mul(&[17, 17]), 33);
}

#[test]
fn bitwise_reductions() {
    assert_eq!(checksum_and(&[0xF0, 0x3C]), 0x30);
    assert_eq!(checksum_and(&[]), 0xFF);
    assert_eq!(checksum_or(&[0xF0, 0x0C]), 0xFC);
    assert_eq!(checksum_or(&[]), 0);
    assert_eq!(checksum_xor(&[0xF0, 0x3C]), 0xCC);
    assert_eq!(checksum_xnor(&[0xF0, 0x3C]), 0x33);
}

#[test]
fn xnor_is_255_minus_xor() {
    let blocks: Vec<Vec<u8>> = vec![ramp(), vec![0x5A; 128], vec![1, 2, 3], vec![0]];
    for b in &blocks {
        assert_eq!(checksum_xnor(b), 255 - checksum_xor(b));
    }
}

#[test]
fn single_byte_block_gives_the_byte() {
    for v in [0u8, 1, 7, 128, 255] {
        let b = [v];
        assert_eq!(checksum_sum(&b), v);
        assert_eq!(checksum_sub(&b), v);
        assert_eq!(checksum_mul(&b), v);
    }
}

#[test]
fn combined_checksum_exact_values() {
    // sum 6, xor 0, and 0, or 3
    assert_eq!(checksum_f(&[1, 2, 3]), 5);
    // sum 254, xor 0, and 255, or 255: 254 ^ 0 ^ 254
    assert_eq!(checksum_f(&[255, 255]), 0);
}

#[test]
fn dispatch_matches_each_checksum() {
    let b = ramp();
    assert_eq!(checksum(Algorithm::Sum, &b), checksum_sum(&b));
    assert_eq!(checksum(Algorithm::Subtract, &b), checksum_sub(&b));
    assert_eq!(checksum(Algorithm::Multiply, &b), checksum_mul(&b));
    assert_eq!(checksum(Algorithm::And, &b), checksum_and(&b));
    assert_eq!(checksum(Algorithm::Or, &b), checksum_or(&b));
    assert_eq!(checksum(Algorithm::Xor, &b), checksum_xor(&b));
    assert_eq!(checksum(Algorithm::Xnor, &b), checksum_xnor(&b));
    assert_eq!(checksum(Algorithm::Combined, &b), checksum_f(&b));
}

#[test]
fn digest_checksums_take_first_digest_byte() {
    let b = b"abc";
    assert_eq!(checksum(Algorithm::Sha1, b), 0xa9);
    assert_eq!(checksum(Algorithm::Md5, b), 0x90);
    assert_eq!(checksum(Algorithm::Sha256, b), 0xba);
}

#[test]
fn algorithm_names() {
    assert_eq!(Algorithm::Sum.name(), "Sum");
    assert_eq!(Algorithm::Subtract.name(), "Subtract");
    assert_eq!(Algorithm::And.name(), "AND");
    assert_eq!(Algorithm::Xnor.name(), "XNOR");
    assert_eq!(Algorithm::Combined.name(), "F");
    assert_eq!(Algorithm::Sha256.name(), "SHA256");
}
