use aggverify::field::MODULUS;
use aggverify::transcript::{challenge_from_digest, encode_operands, oracle};
use sha2::{Digest, Sha256};

#[test]
fn operands_are_encoded_big_endian() {
    assert_eq!(
        encode_operands(&vec![0x0102030405060708, 1]),
        vec![1, 2, 3, 4, 5, 6, 7, 8, 0, 0, 0, 0, 0, 0, 0, 1]
    );
}

#[test]
fn oracle_hashes_the_encoding() {
    let ops = vec![7u64, 11, 13];
    let digest = Sha256::digest(&encode_operands(&ops));
    let mut word = 0u64;
    for b in digest.iter().take(8) {
        word = (word << 8) | (*b as u64);
    }
    assert_eq!(oracle(&ops), word % (MODULUS - 1) + 1);
}

#[test]
fn oracle_binds_order_and_content() {
    let a = oracle(&vec![1, 2]);
    assert_ne!(a, oracle(&vec![2, 1]));
    assert_ne!(a, oracle(&vec![1, 2, 0]));
    assert_eq!(a, oracle(&vec![1, 2]));
    assert!(a >= 1 && a < MODULUS);
}

#[test]
fn challenge_from_digest_exact() {
    let d = vec![0, 0, 0, 0, 0, 0, 1, 2, 99];
    assert_eq!(challenge_from_digest(&d), 0x0102 + 1);
    let top = vec![0xff; 8];
    assert_eq!(challenge_from_digest(&top), u64::MAX % (MODULUS - 1) + 1);
}
