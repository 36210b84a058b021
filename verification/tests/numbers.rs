use alloy::primitives::U256 as Uint;
use pfft_miner::u256::U256;

fn samples() -> Vec<U256> {
    let limbs = [0u64, 1, 2, u64::MAX - 1, u64::MAX];
    let mut all = Vec::new();
    for a in limbs {
        for b in limbs {
            for c in [0u64, 5, u64::MAX] {
                for d in [0u64, 9, u64::MAX] {
                    all.push(U256 { limbs: [a, b, c, d] });
                }
            }
        }
    }
    all
}

#[test]
fn order_is_the_order_of_the_numbers() {
    let all = samples();
    for x in &all {
        for y in &all {
            let (a, b) = (Uint::from_limbs(x.limbs), Uint::from_limbs(y.limbs));
            assert_eq!(x.le(y), a <= b);
            assert_eq!(x.lt(y), a < b);
        }
    }
}

#[test]
fn narrow_numbers_round_trip() {
    for n in [0u128, 1, u64::MAX as u128, u64::MAX as u128 + 1, u128::MAX] {
        let x = U256::from_u128(n);
        assert_eq!(Uint::from_limbs(x.limbs), Uint::from(n));
        assert!(x.fits_u128());
        assert_eq!(x.to_u128(), n);
    }
    assert_eq!(U256::from_u64(77), U256::from_usize(77));
    assert!(!U256 { limbs: [0, 0, 1, 0] }.fits_u128());
    assert!(!U256::max_value().fits_u128());
}
