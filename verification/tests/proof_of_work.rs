use alloy::primitives::keccak256;
use alloy::primitives::U256 as Uint;
use pfft_miner::proof_of_work::{
    check_proof, hash_meets_target, proof_preimage, target_from_hex_zeros, target_to_difficulty,
};
use pfft_miner::u256::U256;

fn value(x: U256) -> Uint {
    Uint::from_limbs(x.limbs)
}

fn number(x: Uint) -> U256 {
    U256 { limbs: x.into_limbs() }
}

#[test]
fn target_for_seven_hex_zeros_matches_python() {
    let target = target_from_hex_zeros(U256::from_u64(7));
    let expected = Uint::MAX >> 28usize;
    assert_eq!(value(target), expected);
}

#[test]
fn target_zero_hex_zeros_is_u256_max() {
    let target = target_from_hex_zeros(U256::zero());
    assert_eq!(value(target), Uint::MAX);
    assert_eq!(target, U256::max_value());
}

#[test]
fn difficulty_for_kernel_is_target_plus_one() {
    let target = target_from_hex_zeros(U256::from_u64(7));
    let diff = target_to_difficulty(target);
    // hash <= target  iff  hash < diff
    assert_eq!(value(diff), value(target) + Uint::from(1u64));
}

#[test]
fn proof_check_matches_python_formula() {
    // Use a low-difficulty (high target) to find any small nonce reliably.
    let challenge = [0u8; 32];
    // hex_zeros = 1 -> target has 4 leading zero bits, ~1 in 16 hashes wins.
    let target = target_from_hex_zeros(U256::from_u64(1));
    let mut found = None;
    for n in 0u64..1000 {
        if check_proof(&challenge, U256::from_u64(n), target) {
            found = Some(n);
            break;
        }
    }
    assert!(found.is_some(), "expected at least one win in 1000 tries");

    // Cross-check exclusive-difficulty semantics: same nonce, < diff, must hold.
    let diff = target_to_difficulty(target);
    let nonce = Uint::from(found.unwrap());
    let mut buf = [0u8; 64];
    buf[..32].copy_from_slice(&challenge);
    buf[32..].copy_from_slice(&nonce.to_be_bytes::<32>());
    let h = Uint::from_be_bytes::<32>(keccak256(buf).0);
    assert!(h <= value(target));
    assert!(h < value(diff));
}

#[test]
fn check_agrees_with_the_hash_on_every_nonce() {
    let challenge = [0xA5u8; 32];
    let target = target_from_hex_zeros(U256::from_u64(1));
    for n in 0u64..200 {
        let mut buf = [0u8; 64];
        buf[..32].copy_from_slice(&challenge);
        buf[32..].copy_from_slice(&Uint::from(n).to_be_bytes::<32>());
        let hash = keccak256(buf).0;
        let expected = hash[0] < 16;
        assert_eq!(check_proof(&challenge, U256::from_u64(n), target), expected);
        assert_eq!(hash_meets_target(&hash, target), expected);
    }
}

#[test]
fn hash_of_zeros_is_the_known_one() {
    // Keccak-256 of 64 zero bytes.
    let known: [u8; 32] = [
        0xad, 0x32, 0x28, 0xb6, 0x76, 0xf7, 0xd3, 0xcd, 0x42, 0x84, 0xa5, 0x44, 0x3f, 0x17, 0xf1,
        0x96, 0x2b, 0x36, 0xe4, 0x91, 0xb3, 0x0a, 0x40, 0xb2, 0x40, 0x58, 0x49, 0xe5, 0x97, 0xba,
        0x5f, 0xb5,
    ];
    let exact = number(Uint::from_be_bytes(known));
    let below = number(Uint::from_be_bytes(known) - Uint::from(1u64));
    assert!(check_proof(&[0u8; 32], U256::zero(), exact));
    assert!(!check_proof(&[0u8; 32], U256::zero(), below));
}

#[test]
fn preimage_is_challenge_then_big_endian_nonce() {
    let mut challenge = [0u8; 32];
    for i in 0..32 {
        challenge[i] = i as u8;
    }
    let nonce = U256 { limbs: [0x0807_0605_0403_0201, 0x11, 0, 0xFF00_0000_0000_0000] };
    let bytes = proof_preimage(&challenge, nonce);
    assert_eq!(&bytes[..32], &challenge[..]);
    assert_eq!(bytes[32], 0xFF);
    assert_eq!(&bytes[33..55], &[0u8; 22][..]);
    assert_eq!(bytes[55], 0x11);
    assert_eq!(&bytes[56..], &[8u8, 7, 6, 5, 4, 3, 2, 1][..]);
}

#[test]
fn hash_is_read_big_endian() {
    let mut hash = [0u8; 32];
    hash[31] = 2;
    assert!(hash_meets_target(&hash, U256::from_u64(2)));
    assert!(!hash_meets_target(&hash, U256::from_u64(1)));
    hash[0] = 1;
    assert!(!hash_meets_target(&hash, U256::from_u64(u64::MAX)));
    assert!(hash_meets_target(&[0xFF; 32], U256::max_value()));
}

#[test]
fn targets_at_the_end_of_the_range() {
    assert_eq!(target_from_hex_zeros(U256::from_u64(63)), U256::from_u64(15));
    assert_eq!(target_from_hex_zeros(U256::from_u64(64)), U256::zero());
    assert_eq!(target_from_hex_zeros(U256::from_u64(65)), U256::zero());
    assert_eq!(target_from_hex_zeros(U256::from_u128(u128::MAX)), U256::zero());
    assert_eq!(target_from_hex_zeros(U256 { limbs: [0, 0, 1, 0] }), U256::zero());
    assert_eq!(target_from_hex_zeros(U256 { limbs: [7, 0, 0, 1] }), U256::zero());
    assert_eq!(target_from_hex_zeros(U256::max_value()), U256::zero());
}

#[test]
fn targets_fall_with_more_zeros() {
    let mut last = U256::max_value();
    for zeros in 1u64..=64 {
        let target = target_from_hex_zeros(U256::from_u64(zeros));
        assert!(target.lt(&last));
        last = target;
    }
}

#[test]
fn target_counts_leading_hex_zeros() {
    for zeros in 0usize..=64 {
        let target = target_from_hex_zeros(U256::from_usize(zeros));
        for leading in 0usize..=64 {
            let mut hash = [0xFFu8; 32];
            for digit in 0..leading {
                hash[digit / 2] &= if digit % 2 == 0 { 0x0F } else { 0xF0 };
            }
            assert_eq!(hash_meets_target(&hash, target), leading >= zeros);
        }
    }
}

#[test]
fn difficulty_saturates() {
    assert_eq!(target_to_difficulty(U256::zero()), U256::from_u64(1));
    assert_eq!(target_to_difficulty(U256::max_value()), U256::max_value());
    let almost = number(Uint::MAX - Uint::from(1u64));
    assert_eq!(target_to_difficulty(almost), U256::max_value());
}

#[test]
fn difficulty_is_the_exclusive_target() {
    let target = target_from_hex_zeros(U256::from_u64(60));
    let difficulty = target_to_difficulty(target);
    for hash in [0u64, 1, 0xFFFE, 0xFFFF, 0x1_0000, u64::MAX] {
        let hash = U256::from_u64(hash);
        assert_eq!(hash.le(&target), hash.lt(&difficulty));
    }
    // The one pair on which the two bounds differ.
    let max = U256::max_value();
    assert!(max.le(&max));
    assert!(!max.lt(&target_to_difficulty(max)));
}

#[test]
fn every_nonce_passes_without_zeros() {
    let target = target_from_hex_zeros(U256::zero());
    for n in 0u64..50 {
        assert!(check_proof(&[7u8; 32], U256::from_u64(n), target));
    }
}
