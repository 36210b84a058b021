use pfft_miner::config::{
    choose_backend, gpu_enabled, gpu_mode, optional_u64, optional_usize, rpc_url, thread_count,
    u64_or, Backend, GpuFailure, GpuMode, GpuOutcome, DEFAULT_CONFIRMATION_TIMEOUT_SECS,
    DEFAULT_PAUSE_SECS, DEFAULT_RPC_URL,
};
use pfft_miner::identity::{identify, load_identity, normalize_key, KeyError};
use pfft_miner::watchdog::{watch, WatchdogAction};

const KEY: &str = "4c0883a69102937d6231471b5dbb6204fe5129617082792ae468d01a3f362318";

fn set(text: &str) -> Option<String> {
    Some(text.to_string())
}

#[test]
fn numbers_fall_back_to_defaults() {
    assert_eq!(u64_or(&None, DEFAULT_PAUSE_SECS), 5);
    assert_eq!(u64_or(&set("0"), DEFAULT_PAUSE_SECS), 0);
    assert_eq!(u64_or(&set("soon"), DEFAULT_PAUSE_SECS), 5);
    assert_eq!(u64_or(&None, DEFAULT_CONFIRMATION_TIMEOUT_SECS), 90);
    assert_eq!(u64_or(&set("120"), DEFAULT_CONFIRMATION_TIMEOUT_SECS), 120);
    assert_eq!(thread_count(&set("3"), 16), 3);
    assert_eq!(thread_count(&set("-3"), 16), 16);
    assert_eq!(thread_count(&None, 16), 16);
    assert_eq!(optional_u64(&set("21000")), Some(21000));
    assert_eq!(optional_u64(&set("21k")), None);
    assert_eq!(optional_u64(&None), None);
    assert_eq!(optional_usize(&set("4194304")), Some(4194304));
    assert_eq!(optional_usize(&set("")), None);
}

#[test]
fn endpoint_order() {
    assert_eq!(rpc_url(&set("a"), &set("b")), "a");
    assert_eq!(rpc_url(&None, &set("b")), "b");
    assert_eq!(rpc_url(&None, &None), "https://ethereum-rpc.publicnode.com");
    assert_eq!(DEFAULT_RPC_URL, "https://ethereum-rpc.publicnode.com");
}

#[test]
fn gpu_modes() {
    assert_eq!(gpu_mode(&None), GpuMode::Required);
    for text in ["1", "true", "yes"] {
        assert_eq!(gpu_mode(&set(text)), GpuMode::Required);
    }
    assert_eq!(gpu_mode(&set("auto")), GpuMode::Optional);
    for text in ["0", "", "no", "TRUE", "Auto", "11", " 1"] {
        assert_eq!(gpu_mode(&set(text)), GpuMode::Disabled);
    }
    assert!(gpu_enabled(GpuMode::Required));
    assert!(gpu_enabled(GpuMode::Optional));
    assert!(!gpu_enabled(GpuMode::Disabled));
}

#[test]
fn backend_choice() {
    let required = GpuMode::Required;
    let auto = GpuMode::Optional;
    let off = GpuMode::Disabled;
    assert_eq!(choose_backend(required, GpuOutcome::Ready), Ok(Backend::Gpu));
    assert_eq!(choose_backend(auto, GpuOutcome::Ready), Ok(Backend::Gpu));
    assert_eq!(choose_backend(off, GpuOutcome::Ready), Ok(Backend::Cpu));
    assert_eq!(choose_backend(required, GpuOutcome::InitFailed), Err(GpuFailure::InitFailed));
    assert_eq!(choose_backend(auto, GpuOutcome::InitFailed), Ok(Backend::Cpu));
    assert_eq!(choose_backend(required, GpuOutcome::SelfTestFailed), Err(GpuFailure::SelfTestFailed));
    assert_eq!(choose_backend(auto, GpuOutcome::SelfTestFailed), Err(GpuFailure::SelfTestFailed));
    assert_eq!(choose_backend(required, GpuOutcome::NotBuilt), Ok(Backend::Cpu));
    assert_eq!(choose_backend(off, GpuOutcome::SelfTestFailed), Ok(Backend::Cpu));
}

#[test]
fn key_gives_its_address() {
    let id = load_identity(KEY).unwrap();
    assert_eq!(id.key, KEY);
    let expected: [u8; 20] = [
        0x2c, 0x75, 0x36, 0xe3, 0x60, 0x5d, 0x9c, 0x16, 0xa7, 0xa3, 0xd7, 0xb1, 0x89, 0x8e, 0x52,
        0x93, 0x96, 0xa6, 0x5c, 0x23,
    ];
    assert_eq!(id.address, expected);
}

#[test]
fn prefix_and_white_space_do_not_matter() {
    let plain = load_identity(KEY).unwrap().address;
    for raw in [
        format!("0x{}", KEY),
        format!("  0x{}\n", KEY),
        format!("\u{2003}\t{}\u{a0}", KEY),
        format!("0x0x{}", KEY),
    ] {
        assert_eq!(load_identity(&raw).unwrap().address, plain);
        assert_eq!(normalize_key(&raw).unwrap(), KEY);
        assert_eq!(raw.trim().trim_start_matches("0x"), KEY);
    }
}

#[test]
fn wrong_lengths_are_told() {
    for (raw, len) in [
        ("", 0usize),
        ("0x", 0),
        ("  ", 0),
        ("0x12", 2),
        ("0x 12", 3),
        ("x0", 2),
        ("\u{e9}\u{20ac}\u{1f600}", 9),
    ] {
        assert_eq!(raw.trim().trim_start_matches("0x").len(), len);
        match load_identity(raw) {
            Err(KeyError::WrongLength(n)) => assert_eq!(n, len),
            _ => panic!("expected a wrong length"),
        }
        assert!(matches!(normalize_key(raw), Err(KeyError::WrongLength(_))));
    }
}

#[test]
fn white_space_is_that_of_the_standard_library() {
    for code in 0u32..0x1_0000 {
        if let Some(c) = char::from_u32(code) {
            let raw = format!("{}{}{}", c, KEY, c);
            let ours = matches!(normalize_key(&raw), Ok(ref key) if key == KEY);
            assert_eq!(ours, c.is_whitespace());
        }
    }
}

#[test]
fn keys_of_either_case_are_accepted() {
    assert_eq!(
        load_identity(&KEY.to_uppercase()).unwrap().address,
        load_identity(KEY).unwrap().address
    );
}

#[test]
fn keys_are_accepted_up_to_the_order_of_the_curve() {
    let one = format!("{}1", "0".repeat(63));
    let last = "fffffffffffffffffffffffffffffffebaaedce6af48a03bbfd25e8cd0364140";
    let order = "fffffffffffffffffffffffffffffffebaaedce6af48a03bbfd25e8cd0364141";
    assert!(load_identity(&one).is_ok());
    assert!(load_identity(last).is_ok());
    assert!(matches!(load_identity(order), Err(KeyError::Malformed(_))));
}

#[test]
fn malformed_keys_are_refused() {
    let zero = "0".repeat(64);
    let letters = "g".repeat(64);
    let too_large = "f".repeat(64);
    let prefixed = format!("0X{}", "1".repeat(62));
    let accented = "\u{e9}".repeat(32);
    for raw in [zero, letters, too_large, prefixed, accented] {
        assert!(matches!(load_identity(&raw), Err(KeyError::Malformed(_))));
    }
}

#[test]
fn parse_result_decides() {
    let id = identify(KEY.to_string(), Ok([9u8; 20])).unwrap();
    assert_eq!(id.key, KEY);
    assert_eq!(id.address, [9u8; 20]);
    let error = "zz".parse::<alloy::signers::local::PrivateKeySigner>().unwrap_err();
    assert!(matches!(identify(KEY.to_string(), Err(error)), Err(KeyError::Malformed(_))));
}

#[test]
fn watchdog_wake_ups() {
    assert_eq!(watch(true, true, 9_999, 5, 1), WatchdogAction::Exit);
    assert_eq!(watch(false, true, 9_999, 5, 1), WatchdogAction::StopSearch);
    assert_eq!(watch(false, false, 1_999, 5, 1), WatchdogAction::Sleep);
    assert_eq!(watch(false, false, 2_000, 5, 1), WatchdogAction::Display { attempts: 4 });
    assert_eq!(watch(false, false, 2_000, 1, 5), WatchdogAction::Display { attempts: 0 });
}
