use pfft_miner::proof_of_work::{check_proof, target_from_hex_zeros};
use pfft_miner::u256::U256;
use pfft_miner::worker::{draw_start_nonce, Worker, WorkerEvent};

#[test]
fn worker_starts_at_its_offset() {
    let w = Worker::new(U256::from_u64(100), 3, 8);
    assert_eq!(w.nonce, U256::from_u64(103));
    assert_eq!(w.stride, U256::from_u64(8));
    assert_eq!(w.local_attempts, 0);
}

#[test]
fn worker_wraps_round() {
    let mut w = Worker::new(U256::max_value(), 1, 5);
    assert_eq!(w.nonce, U256::zero());
    w.nonce = U256 { limbs: [u64::MAX - 1, u64::MAX, u64::MAX, u64::MAX] };
    assert_eq!(w.on_result(false), WorkerEvent::Continue);
    assert_eq!(w.nonce, U256::from_u64(3));
}

#[test]
fn hit_is_reported_with_the_attempts_before_it() {
    let mut w = Worker::new(U256::from_u64(10), 0, 2);
    assert_eq!(w.on_result(false), WorkerEvent::Continue);
    assert_eq!(w.on_result(false), WorkerEvent::Continue);
    let before = w;
    assert_eq!(
        w.on_result(true),
        WorkerEvent::Found { nonce: U256::from_u64(14), attempts: 2 }
    );
    assert_eq!(w, before);
}

#[test]
fn report_comes_after_the_interval() {
    let mut w = Worker::new(U256::zero(), 0, 1);
    for _ in 0..0x3FFF {
        assert_eq!(w.on_result(false), WorkerEvent::Continue);
    }
    assert_eq!(w.on_result(false), WorkerEvent::Report { attempts: 0x4000 });
    assert_eq!(w.local_attempts, 0);
    assert_eq!(w.nonce, U256::from_u64(0x4000));
}

#[test]
fn run_finds_the_first_solution_on_the_way() {
    let challenge = [3u8; 32];
    let target = target_from_hex_zeros(U256::from_u64(2));
    let mut w = Worker::new(U256::from_u64(1_000), 2, 3);
    let event = w.run(&challenge, target);
    let mut expected = 1_002u64;
    let mut attempts = 0u64;
    while !check_proof(&challenge, U256::from_u64(expected), target) {
        expected += 3;
        attempts += 1;
    }
    assert_eq!(event, WorkerEvent::Found { nonce: U256::from_u64(expected), attempts });
}

#[test]
fn run_reports_when_nothing_solves() {
    let mut w = Worker::new(U256::from_u64(5), 0, 4);
    let event = w.run(&[0u8; 32], U256::zero());
    assert_eq!(event, WorkerEvent::Report { attempts: 0x4000 });
    assert_eq!(w.nonce, U256::from_u64(5 + 4 * 0x4000));
    assert_eq!(w.local_attempts, 0);
}

#[test]
fn workers_share_the_nonces() {
    let threads = 5usize;
    let mut tried = vec![0u32; 100];
    for tid in 0..threads {
        let mut w = Worker::new(U256::from_u64(0), tid, threads);
        for _ in 0..20 {
            tried[w.nonce.to_u128() as usize] += 1;
            w.on_result(false);
        }
    }
    assert!(tried.iter().all(|&times| times == 1));
}

#[test]
fn start_nonces_are_64_bit_and_vary() {
    let draws: Vec<U256> = (0..16).map(|_| draw_start_nonce()).collect();
    assert!(draws.iter().all(|n| n.le(&U256::from_u64(u64::MAX))));
    assert!(draws.iter().any(|n| *n != draws[0]));
}

#[test]
fn the_search_goes_on_where_it_reported() {
    let challenge = [9u8; 32];
    let target = target_from_hex_zeros(U256::from_u64(5));
    let mut w = Worker::new(U256::from_u64(0), 0, 1);
    let mut reported = 0u64;
    let found = loop {
        match w.run(&challenge, target) {
            WorkerEvent::Found { nonce, attempts } => {
                break nonce.to_u128() as u64 == reported + attempts;
            }
            WorkerEvent::Report { attempts } => {
                reported += attempts;
                assert_eq!(w.nonce, U256::from_u64(reported));
                if reported >= 20 * 0x4000 {
                    break true;
                }
            }
            WorkerEvent::Continue => unreachable!(),
        }
    };
    assert!(found);
}
