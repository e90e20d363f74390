use parity_scale_codec::{Decode, Encode};
use sha3pow::codec::{Calculation, DecodeError, Seal, ENCODED_LEN};
use sha3pow::hash::H256;
use sha3pow::uint::U256;

fn sample_seal() -> Seal {
    Seal {
        difficulty: U256([
            0x0807_0605_0403_0201,
            0x100f_0e0d_0c0b_0a09,
            0x1817_1615_1413_1211,
            0x201f_1e1d_1c1b_1a19,
        ]),
        work: H256([0xaa; 32]),
        nonce: H256([0xbb; 32]),
    }
}

fn counting_bytes(len: usize) -> Vec<u8> {
    let mut bytes = Vec::new();
    for i in 0..len {
        bytes.push((i % 251) as u8);
    }
    bytes
}

#[test]
fn record_takes_ninety_six_bytes() {
    assert_eq!(ENCODED_LEN, 96);
    assert_eq!(sample_seal().encode().len(), 96);
    let calculation = Calculation {
        difficulty: U256::from(1),
        pre_hash: H256([0; 32]),
        nonce: H256([0; 32]),
    };
    assert_eq!(calculation.encode().len(), 96);
}

#[test]
fn seal_is_written_difficulty_work_nonce() {
    let bytes = sample_seal().encode();
    let mut expected = Vec::new();
    for i in 1..=32u8 {
        expected.push(i);
    }
    expected.extend_from_slice(&[0xaa; 32]);
    expected.extend_from_slice(&[0xbb; 32]);
    assert_eq!(bytes, expected);
}

#[test]
fn calculation_is_written_difficulty_pre_hash_nonce() {
    let calculation = Calculation {
        difficulty: U256::from(10000),
        pre_hash: H256([0x11; 32]),
        nonce: H256([0x22; 32]),
    };
    let mut expected = vec![0x10, 0x27];
    expected.extend_from_slice(&[0u8; 30]);
    expected.extend_from_slice(&[0x11; 32]);
    expected.extend_from_slice(&[0x22; 32]);
    assert_eq!(calculation.encode(), expected);
}

#[test]
fn difficulty_is_written_least_significant_byte_first() {
    let seal = Seal {
        difficulty: U256([0, 0, 0, 0x8000_0000_0000_0000]),
        work: H256([0; 32]),
        nonce: H256([0; 32]),
    };
    let bytes = seal.encode();
    assert_eq!(bytes[31], 0x80);
    assert!(bytes[..31].iter().all(|b| *b == 0));
    assert!(bytes[32..].iter().all(|b| *b == 0));
}

#[test]
fn seal_round_trips() {
    let seal = sample_seal();
    assert_eq!(Seal::decode(&seal.encode()), Ok(seal));
    let zero = Seal { difficulty: U256([0; 4]), work: H256([0; 32]), nonce: H256([0; 32]) };
    assert_eq!(Seal::decode(&zero.encode()), Ok(zero));
    let full =
        Seal { difficulty: U256([u64::MAX; 4]), work: H256([0xff; 32]), nonce: H256([0xff; 32]) };
    assert_eq!(Seal::decode(&full.encode()), Ok(full));
}

#[test]
fn calculation_round_trips() {
    let calculation = Calculation {
        difficulty: U256([5, 6, 7, 8]),
        pre_hash: H256([0x33; 32]),
        nonce: H256([0x44; 32]),
    };
    assert_eq!(Calculation::decode(&calculation.encode()), Ok(calculation));
}

#[test]
fn decoded_bytes_encode_to_themselves() {
    let bytes = counting_bytes(96);
    let seal = Seal::decode(&bytes).unwrap();
    assert_eq!(seal.encode(), bytes);
    assert_eq!(seal.work, H256(bytes[32..64].try_into().unwrap()));
    assert_eq!(seal.nonce, H256(bytes[64..96].try_into().unwrap()));
    assert_eq!(seal.difficulty.0[0], u64::from_le_bytes(bytes[0..8].try_into().unwrap()));
    assert_eq!(seal.difficulty.0[3], u64::from_le_bytes(bytes[24..32].try_into().unwrap()));
}

#[test]
fn truncated_bytes_do_not_decode() {
    for len in [0usize, 1, 31, 32, 64, 95] {
        let bytes = counting_bytes(len);
        assert_eq!(Seal::decode(&bytes), Err(DecodeError::NotEnoughData));
        assert_eq!(Calculation::decode(&bytes), Err(DecodeError::NotEnoughData));
    }
}

#[test]
fn trailing_bytes_are_not_read() {
    let mut bytes = sample_seal().encode();
    bytes.extend_from_slice(&[0xcc; 5]);
    assert_eq!(Seal::decode(&bytes), Ok(sample_seal()));
}

#[test]
fn distinct_seals_have_distinct_bytes() {
    let base = sample_seal();
    let mut other_difficulty = base;
    other_difficulty.difficulty = U256([0x0807_0605_0403_0201, 0, 0, 0]);
    let mut other_work = base;
    other_work.work = H256([0xbb; 32]);
    let mut other_nonce = base;
    other_nonce.nonce = H256([0xaa; 32]);
    let all = [base, other_difficulty, other_work, other_nonce];
    for (i, a) in all.iter().enumerate() {
        for (j, b) in all.iter().enumerate() {
            assert_eq!(a.encode() == b.encode(), i == j);
        }
    }
}

#[test]
fn swapping_work_and_nonce_changes_the_bytes() {
    let a = Seal { difficulty: U256::from(1), work: H256([1; 32]), nonce: H256([2; 32]) };
    let b = Seal { difficulty: U256::from(1), work: H256([2; 32]), nonce: H256([1; 32]) };
    assert_ne!(a.encode(), b.encode());
    assert_ne!(a, b);
}

#[test]
fn encoding_agrees_with_the_scale_codec() {
    let seal = sample_seal();
    let outside = (
        primitive_types::U256(seal.difficulty.0),
        primitive_types::H256(seal.work.0),
        primitive_types::H256(seal.nonce.0),
    );
    assert_eq!(seal.encode(), outside.encode());
}

#[test]
fn decoding_agrees_with_the_scale_codec() {
    for len in [0usize, 95, 96, 97, 200] {
        let bytes = counting_bytes(len);
        let outside = <(primitive_types::U256, primitive_types::H256, primitive_types::H256)>::decode(
            &mut &bytes[..],
        );
        match Seal::decode(&bytes) {
            Ok(seal) => {
                let (difficulty, work, nonce) = outside.unwrap();
                assert_eq!(seal.difficulty.0, difficulty.0);
                assert_eq!(seal.work.0, work.0);
                assert_eq!(seal.nonce.0, nonce.0);
            },
            Err(_) => assert!(outside.is_err()),
        }
    }
}

#[test]
fn seals_compare_field_by_field() {
    let base = sample_seal();
    assert_eq!(base, sample_seal());
    let mut changed = base;
    changed.difficulty = U256([0x0807_0605_0403_0201, 0x100f_0e0d_0c0b_0a09, 0, 0]);
    assert_ne!(base, changed);
    let mut changed = base;
    changed.work.0[31] = 0;
    assert_ne!(base, changed);
    let mut changed = base;
    changed.nonce.0[0] = 0;
    assert_ne!(base, changed);
}

#[test]
fn fields_are_appended_to_what_is_there() {
    let mut out = vec![0xee, 0xdd];
    U256([0x0102, 0, 0, 0x0a00_0000_0000_0000]).encode_to(&mut out);
    assert_eq!(out.len(), 34);
    assert_eq!(&out[..4], &[0xee, 0xdd, 0x02, 0x01]);
    assert_eq!(out[33], 0x0a);
    assert!(out[4..33].iter().all(|b| *b == 0));
    let mut digest = [0u8; 32];
    for i in 0..32 {
        digest[i] = i as u8 + 100;
    }
    H256(digest).encode_to(&mut out);
    assert_eq!(out.len(), 66);
    assert_eq!(&out[34..], &digest[..]);
    assert_eq!(&out[..2], &[0xee, 0xdd]);
}
