use alloy::primitives::U256 as Uint;
use pfft_miner::text::{format_eth, hex_short, parse_unsigned, whole_tokens, whole_tokens_fit};
use pfft_miner::u256::U256;

fn number(x: Uint) -> U256 {
    U256 { limbs: x.into_limbs() }
}

#[test]
fn hex_short_shows_eight_bytes() {
    let bytes: Vec<u8> = vec![0xde, 0xad, 0xbe, 0xef, 0x00, 0x01, 0x0a, 0xff, 0x77, 0x88];
    assert_eq!(hex_short(&bytes), "deadbeef00010aff");
}

#[test]
fn hex_short_of_few_bytes() {
    assert_eq!(hex_short(&[]), "");
    assert_eq!(hex_short(&[0x05]), "05");
    assert_eq!(hex_short(&[0xa0, 0x9f]), "a09f");
}

#[test]
fn hex_short_agrees_with_formatting() {
    for b in 0u8..=255 {
        assert_eq!(hex_short(&[b]), format!("{:02x}", b));
    }
}

#[test]
fn ether_amounts() {
    assert_eq!(format_eth(U256::zero()), "0.000000");
    assert_eq!(format_eth(U256::from_u64(1_000_000_000_000_000_000)), "1.000000");
    assert_eq!(format_eth(U256::from_u64(1_234_567_890_000_000_000)), "1.234567");
    assert_eq!(format_eth(U256::from_u64(50_000_000_000_000)), "0.000050");
    assert_eq!(format_eth(U256::from_u64(999_999_999_999)), "0.000000");
    assert_eq!(format_eth(U256::from_u64(1_000_000_000_000)), "0.000001");
    let many = Uint::from(12_345u64) * Uint::from(10u64).pow(Uint::from(18u64))
        + Uint::from(7_000_000_000_000u64);
    assert_eq!(format_eth(number(many)), "12345.000007");
}

#[test]
fn ether_amount_reads_back_in_millionths() {
    for wei in [0u64, 1, 999_999_999_999, 3_141_592_653_589_793_238, u64::MAX] {
        let text = format_eth(U256::from_u64(wei)).replace('.', "");
        assert_eq!(text.parse::<u64>().unwrap(), wei / 1_000_000_000_000);
    }
}

#[test]
fn largest_ether_amount() {
    let wei = (Uint::from(u128::MAX) + Uint::from(1u64)) * Uint::from(10u64).pow(Uint::from(18u64));
    assert!(!whole_tokens_fit(number(wei)));
    let wei = wei - Uint::from(1u64);
    assert!(whole_tokens_fit(number(wei)));
    assert_eq!(whole_tokens(number(wei)), u128::MAX);
    assert_eq!(format_eth(number(wei)), format!("{}.999999", u128::MAX));
}

#[test]
fn unsigned_numbers_parse_as_in_the_standard_library() {
    for text in [
        "", "+", "-", "0", "-0", "+0", "00", "007", "+12", "++12", "1+", " 1", "1 ", "1_000", "1.0",
        "12a", "a12", "18446744073709551615", "18446744073709551616", "99999999999999999999999",
        "0000000000000000000000000000042", "\u{664}", "1\u{e9}",
    ] {
        assert_eq!(parse_unsigned(text, u64::MAX), text.parse::<u64>().ok());
        assert_eq!(parse_unsigned(text, 255), text.parse::<u8>().ok().map(|n| n as u64));
    }
}

#[test]
fn written_numbers_are_read_back() {
    for n in [0u64, 9, 10, 99, 100, 65_535, u64::MAX] {
        assert_eq!(parse_unsigned(&n.to_string(), u64::MAX), Some(n));
    }
}
