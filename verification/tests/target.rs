use sha3pow::hash::H256;
use sha3pow::pow::is_valid_hash;
use sha3pow::uint::U256;

fn hash_with_last_byte(byte: u8) -> H256 {
    let mut bytes = [0u8; 32];
    bytes[31] = byte;
    H256(bytes)
}

fn hash_with_first_byte(byte: u8) -> H256 {
    let mut bytes = [0u8; 32];
    bytes[0] = byte;
    H256(bytes)
}

const MAX: U256 = U256([u64::MAX; 4]);

#[test]
fn zero_hash_meets_every_difficulty() {
    let zero = H256([0u8; 32]);
    assert!(is_valid_hash(&zero, U256::from(0)));
    assert!(is_valid_hash(&zero, U256::from(1)));
    assert!(is_valid_hash(&zero, U256::from(10000)));
    assert!(is_valid_hash(&zero, MAX));
}

#[test]
fn difficulty_one_accepts_any_hash() {
    assert!(is_valid_hash(&H256([0xff; 32]), U256::from(1)));
    assert!(is_valid_hash(&H256([0x80; 32]), U256::from(1)));
    assert!(is_valid_hash(&hash_with_last_byte(1), U256::from(1)));
}

#[test]
fn difficulty_zero_accepts_any_hash() {
    assert!(is_valid_hash(&H256([0xff; 32]), U256::from(0)));
    assert!(is_valid_hash(&hash_with_first_byte(0xff), U256::from(0)));
}

#[test]
fn product_of_exactly_two_to_the_256_overflows() {
    // 2^255 * 2 = 2^256
    assert!(!is_valid_hash(&hash_with_first_byte(0x80), U256::from(2)));
}

#[test]
fn product_just_below_two_to_the_256_passes() {
    // (2^255 - 1) * 2 = 2^256 - 2
    let mut bytes = [0xffu8; 32];
    bytes[0] = 0x7f;
    assert!(is_valid_hash(&H256(bytes), U256::from(2)));
}

#[test]
fn largest_hash_fails_at_difficulty_two() {
    assert!(!is_valid_hash(&H256([0xff; 32]), U256::from(2)));
}

#[test]
fn hash_is_read_with_its_first_byte_most_significant() {
    let two_pow_254 = U256([0, 0, 0, 1 << 62]);
    // 2 * 2^254 = 2^255
    assert!(is_valid_hash(&hash_with_last_byte(2), two_pow_254));
    // 2^249 * 2^254 overflows
    assert!(!is_valid_hash(&hash_with_first_byte(2), two_pow_254));
}

#[test]
fn difficulty_words_are_least_significant_first() {
    // The hash is 2^8 = 256.
    let mut bytes = [0u8; 32];
    bytes[30] = 1;
    let hash = H256(bytes);
    // 256 * 2^247 = 2^255
    assert!(is_valid_hash(&hash, U256([0, 0, 0, 1 << 55])));
    // 256 * 2^248 = 2^256
    assert!(!is_valid_hash(&hash, U256([0, 0, 0, 1 << 56])));
    // 256 * 2^56 is far below
    assert!(is_valid_hash(&hash, U256([1 << 56, 0, 0, 0])));
}

#[test]
fn threshold_at_difficulty_ten_thousand() {
    // (2^256 - 1) / 10000, most significant byte first
    let at = [
        0u8, 6, 141, 184, 186, 199, 16, 203, 41, 94, 158, 27, 8, 154, 2, 117, 37, 70, 10, 166, 76,
        47, 131, 123, 74, 35, 57, 192, 235, 237, 250, 67,
    ];
    let mut above = at;
    above[31] = 68;
    assert!(is_valid_hash(&H256(at), U256::from(10000)));
    assert!(!is_valid_hash(&H256(above), U256::from(10000)));
}

#[test]
fn largest_difficulty_accepts_only_zero_and_one() {
    assert!(is_valid_hash(&hash_with_last_byte(0), MAX));
    assert!(is_valid_hash(&hash_with_last_byte(1), MAX));
    assert!(!is_valid_hash(&hash_with_last_byte(2), MAX));
}

#[test]
fn larger_difficulty_accepts_less() {
    let hash = hash_with_first_byte(0x40); // 2^254
    assert!(is_valid_hash(&hash, U256::from(1)));
    assert!(is_valid_hash(&hash, U256::from(2)));
    assert!(is_valid_hash(&hash, U256::from(3)));
    assert!(!is_valid_hash(&hash, U256::from(4)));
    assert!(!is_valid_hash(&hash, U256::from(5)));
}

#[test]
fn target_test_is_repeatable() {
    let hash = hash_with_first_byte(0x40);
    let first = is_valid_hash(&hash, U256::from(3));
    let second = is_valid_hash(&hash, U256::from(3));
    assert_eq!(first, second);
}

#[test]
fn target_test_agrees_with_checked_multiplication() {
    let hashes = [
        H256([0u8; 32]),
        H256([0xff; 32]),
        H256([0x01; 32]),
        hash_with_first_byte(0x80),
        hash_with_last_byte(0x80),
        hash_with_first_byte(1),
    ];
    let difficulties = [
        U256::from(0),
        U256::from(1),
        U256::from(2),
        U256::from(255),
        U256::from(256),
        U256::from(10000),
        U256([0, 1, 0, 0]),
        U256([0, 0, 1, 0]),
        U256([0, 0, 0, 1]),
        U256([u64::MAX, u64::MAX, 0, 0]),
        MAX,
    ];
    for hash in hashes.iter() {
        for difficulty in difficulties.iter() {
            let number = primitive_types::U256::from_big_endian(&hash.0);
            let fits = number.checked_mul(primitive_types::U256(difficulty.0)).is_some();
            assert_eq!(is_valid_hash(hash, *difficulty), fits);
        }
    }
}

#[test]
fn number_from_a_word_has_that_word_lowest() {
    assert_eq!(U256::from(10000), U256([10000, 0, 0, 0]));
    assert_eq!(U256::from(u64::MAX), U256([u64::MAX, 0, 0, 0]));
    assert_eq!(U256::from(7).0, primitive_types::U256::from(7u64).0);
}

#[test]
fn numbers_compare_by_all_four_words() {
    assert_eq!(U256([1, 2, 3, 4]), U256([1, 2, 3, 4]));
    assert_ne!(U256([1, 2, 3, 4]), U256([0, 2, 3, 4]));
    assert_ne!(U256([1, 2, 3, 4]), U256([1, 0, 3, 4]));
    assert_ne!(U256([1, 2, 3, 4]), U256([1, 2, 0, 4]));
    assert_ne!(U256([1, 2, 3, 4]), U256([1, 2, 3, 0]));
}

#[test]
fn hashes_compare_by_all_their_bytes() {
    assert_eq!(H256([9u8; 32]), H256([9u8; 32]));
    for i in 0..32 {
        let mut bytes = [9u8; 32];
        bytes[i] = 8;
        assert_ne!(H256(bytes), H256([9u8; 32]));
    }
}
