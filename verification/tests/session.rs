use alloy::primitives::U256 as Uint;
use pfft_miner::proof_of_work::{target_from_hex_zeros, target_to_difficulty};
use pfft_miner::session::{Action, Event, Phase, Session, Settlement, StopReason};
use pfft_miner::status::{balance_is_low, mint_probe, wallet_cap_wei, Status, Verdict};
use pfft_miner::u256::U256;

fn tokens(n: u64) -> U256 {
    let amount = Uint::from(n) * Uint::from(10u64).pow(Uint::from(18u64));
    U256 { limbs: amount.into_limbs() }
}

fn status(minted: u64, supply: u64, wallet: u64) -> Status {
    Status::from_readings(
        U256::from_u64(7),
        tokens(minted),
        tokens(supply),
        tokens(1_000),
        tokens(wallet),
        tokens(wallet),
    )
}

fn take(session: &mut Session, event: Event) -> Action {
    assert!(session.can_take(&event));
    session.step(event)
}

#[test]
fn amounts() {
    assert_eq!(mint_probe(), tokens(1_000));
    assert_eq!(wallet_cap_wei(), tokens(10_000));
    assert!(balance_is_low(U256::zero()));
    assert!(balance_is_low(U256::from_u64(49_999_999_999_999)));
    assert!(!balance_is_low(U256::from_u64(50_000_000_000_000)));
}

#[test]
fn status_has_its_target() {
    let s = status(1, 21_000_000, 0);
    assert_eq!(s.target, target_from_hex_zeros(U256::from_u64(7)));
    assert!(s.is_wf());
    let mut other = s;
    other.target = U256::zero();
    assert!(!other.is_wf());
}

#[test]
fn status_with_more_zeros_than_can_be_shown() {
    let zeros = U256 { limbs: [0, 0, 1, 0] };
    let s =
        Status::from_readings(zeros, tokens(1), tokens(3), tokens(1), tokens(0), tokens(0));
    assert_eq!(s.hex_zeros, zeros);
    assert_eq!(s.target, U256::zero());
    assert!(s.is_wf());
    assert!(!s.is_round_reportable());
    assert!(!s.is_reportable());
}

#[test]
fn figures_of_a_status() {
    let s = status(5_250_000, 21_000_000, 3_000);
    assert!(s.is_reportable());
    let report = s.report();
    assert_eq!(report.round.minted, 5_250_000);
    assert_eq!(report.round.progress_bp, 2_500);
    assert_eq!(report.round.next_mint, 1_000);
    assert_eq!(report.round.hex_zeros, 7);
    assert_eq!(report.round.difficulty_bits, 28);
    assert_eq!(report.max_supply, 21_000_000);
    assert_eq!(report.wallet_minted, 3_000);
    assert_eq!(report.wallet_balance, 3_000);
    assert_eq!(s.round_report(), report.round);
}

#[test]
fn progress_is_rounded_down() {
    assert_eq!(status(1, 3, 0).round_report().progress_bp, 3_333);
    assert_eq!(status(2, 3, 0).round_report().progress_bp, 6_666);
    assert_eq!(status(3, 3, 0).round_report().progress_bp, 10_000);
    assert_eq!(status(0, 3, 0).round_report().progress_bp, 0);
    assert_eq!(status(6, 3, 0).round_report().progress_bp, 20_000);
}

#[test]
fn progress_that_would_wrap_is_not_reported() {
    let mut s = status(1, 3, 0);
    s.total_minted = U256 { limbs: [1, 0, 0, 1 << 63] };
    s.max_supply = U256 { limbs: [0, 0, 0, 1] };
    assert!(!s.is_round_reportable());
}

#[test]
fn statuses_that_cannot_be_shown() {
    let mut s = status(1, 3, 0);
    s.max_supply = U256::zero();
    assert!(!s.is_round_reportable());
    let mut s = status(1, 3, 0);
    s.hex_zeros = U256::from_u64(0x4000_0000);
    assert!(!s.is_round_reportable());
    s.hex_zeros = U256::from_u64(0x3FFF_FFFF);
    assert_eq!(s.round_report().difficulty_bits, 0xFFFF_FFFC);
    s.hex_zeros = U256::from_u64(0x1_0000_0003);
    assert_eq!(s.round_report().hex_zeros, 3);
    s.hex_zeros = U256::max_value();
    assert!(!s.is_round_reportable());
    let mut s = status(1, 3, 0);
    s.wallet_bal = U256::max_value();
    assert!(s.is_round_reportable());
    assert!(!s.is_reportable());
}

#[test]
fn verdicts() {
    assert_eq!(status(1, 2, 0).assess(), Verdict::Mine);
    assert_eq!(status(2, 2, 0).assess(), Verdict::MaxSupplyReached);
    assert_eq!(status(3, 2, 20_000).assess(), Verdict::MaxSupplyReached);
    assert_eq!(status(1, 2, 10_000).assess(), Verdict::WalletCapReached);
    assert_eq!(status(1, 2, 9_999).assess(), Verdict::Mine);
}

#[test]
fn a_round_that_mints() {
    let mut s = Session::new(5);
    let st = status(1, 21_000_000, 0);
    let nonce = U256::from_u64(42);
    assert_eq!(take(&mut s, Event::RoundDue { shutdown: false }), Action::ReadStatus);
    assert_eq!(take(&mut s, Event::StatusRead { status: st }), Action::ReadChallenge);
    assert_eq!(
        take(&mut s, Event::ChallengeRead { challenge: [1u8; 32] }),
        Action::Mine {
            challenge: [1u8; 32],
            target: st.target,
            difficulty: target_to_difficulty(st.target),
        }
    );
    assert_eq!(
        take(&mut s, Event::SearchEnded { solution: Some(nonce), attempts: 1_234 }),
        Action::CheckNonce { nonce }
    );
    assert_eq!(take(&mut s, Event::NonceChecked { valid: true }), Action::Submit { nonce });
    assert_eq!(
        take(&mut s, Event::Settled { settlement: Settlement::Confirmed }),
        Action::Summarize
    );
    assert_eq!(s.mints, 1);
    assert_eq!(s.earned, tokens(1_000));
    assert_eq!(s.attempts, 1_234);
    assert_eq!(s.rounds, 1);
    assert_eq!(take(&mut s, Event::Summarized { shutdown: false }), Action::Pause { seconds: 5 });
    assert_eq!(
        take(&mut s, Event::RoundDue { shutdown: true }),
        Action::Stop { reason: StopReason::Shutdown }
    );
    assert_eq!(s.phase, Phase::Stopped);
    assert_eq!(s.rounds, 1);
}

fn mining() -> Session {
    let mut s = Session::new(0);
    take(&mut s, Event::RoundDue { shutdown: false });
    take(&mut s, Event::StatusRead { status: status(1, 21_000_000, 0) });
    take(&mut s, Event::ChallengeRead { challenge: [1u8; 32] });
    s
}

fn submitting() -> Session {
    let mut s = mining();
    take(&mut s, Event::SearchEnded { solution: Some(U256::from_u64(9)), attempts: 7 });
    let action = take(&mut s, Event::CheckFailed);
    assert_eq!(action, Action::Submit { nonce: U256::from_u64(9) });
    s
}

#[test]
fn failures_are_retried() {
    let mut s = Session::new(5);
    take(&mut s, Event::RoundDue { shutdown: false });
    assert_eq!(take(&mut s, Event::StatusFailed), Action::Pause { seconds: 15 });
    take(&mut s, Event::RoundDue { shutdown: false });
    take(&mut s, Event::StatusRead { status: status(1, 2, 0) });
    assert_eq!(take(&mut s, Event::ChallengeFailed), Action::Pause { seconds: 5 });
    assert_eq!(s.rounds, 2);
    assert_eq!(s.phase, Phase::Idle);
}

#[test]
fn sessions_end_at_the_limits() {
    let mut s = Session::new(5);
    take(&mut s, Event::RoundDue { shutdown: false });
    assert_eq!(
        take(&mut s, Event::StatusRead { status: status(2, 2, 0) }),
        Action::Stop { reason: StopReason::MaxSupplyReached }
    );
    let mut s = Session::new(5);
    take(&mut s, Event::RoundDue { shutdown: false });
    assert_eq!(
        take(&mut s, Event::StatusRead { status: status(1, 2, 10_000) }),
        Action::Stop { reason: StopReason::WalletCapReached }
    );
    assert!(!s.can_take(&Event::RoundDue { shutdown: false }));
    assert!(!s.can_take(&Event::StatusFailed));
}

#[test]
fn a_search_without_result_starts_over() {
    let mut s = mining();
    assert_eq!(
        take(&mut s, Event::SearchEnded { solution: None, attempts: 50 }),
        Action::NextRound
    );
    assert_eq!(s.attempts, 50);
}

#[test]
fn a_refused_nonce_is_not_submitted() {
    let mut s = mining();
    take(&mut s, Event::SearchEnded { solution: Some(U256::from_u64(9)), attempts: 0 });
    assert_eq!(take(&mut s, Event::NonceChecked { valid: false }), Action::NextRound);
    assert_eq!(s.phase, Phase::Idle);
}

#[test]
fn only_confirmations_count() {
    for settlement in [
        Settlement::Reverted,
        Settlement::ReceiptFailed,
        Settlement::TimedOut,
        Settlement::SendFailed,
    ] {
        let mut s = submitting();
        assert_eq!(take(&mut s, Event::Settled { settlement }), Action::Summarize);
        assert_eq!(s.mints, 0);
        assert_eq!(s.earned, U256::zero());
        assert_eq!(take(&mut s, Event::Summarized { shutdown: false }), Action::NextRound);
    }
    let mut s = submitting();
    s.pause_secs = 3;
    take(&mut s, Event::Settled { settlement: Settlement::Confirmed });
    assert_eq!(s.mints, 1);
    assert_eq!(take(&mut s, Event::Summarized { shutdown: true }), Action::NextRound);
}

#[test]
fn unexpected_events_are_told() {
    let s = mining();
    for event in [
        Event::RoundDue { shutdown: false },
        Event::StatusRead { status: status(1, 2, 0) },
        Event::StatusFailed,
        Event::ChallengeRead { challenge: [0u8; 32] },
        Event::ChallengeFailed,
        Event::NonceChecked { valid: true },
        Event::CheckFailed,
        Event::Settled { settlement: Settlement::Confirmed },
        Event::Summarized { shutdown: false },
    ] {
        assert!(!s.can_take(&event));
    }
    let mut full = s;
    full.attempts = u64::MAX;
    assert!(full.can_take(&Event::SearchEnded { solution: None, attempts: 0 }));
    assert!(!full.can_take(&Event::SearchEnded { solution: None, attempts: 1 }));
}

#[test]
fn totals_are_sums_over_rounds() {
    let mut s = Session::new(0);
    for round in 1u64..=10 {
        take(&mut s, Event::RoundDue { shutdown: false });
        take(&mut s, Event::StatusRead { status: status(1, 21_000_000, 0) });
        take(&mut s, Event::ChallengeRead { challenge: [1u8; 32] });
        take(&mut s, Event::SearchEnded { solution: Some(U256::from_u64(round)), attempts: round });
        take(&mut s, Event::NonceChecked { valid: true });
        let settlement = if round % 2 == 0 { Settlement::Confirmed } else { Settlement::Reverted };
        take(&mut s, Event::Settled { settlement });
        take(&mut s, Event::Summarized { shutdown: false });
    }
    assert_eq!(s.rounds, 10);
    assert_eq!(s.attempts, 55);
    assert_eq!(s.mints, 5);
    assert_eq!(s.earned, tokens(5_000));
}
