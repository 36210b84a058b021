use pfft_miner::proof_of_work::{check_proof, target_from_hex_zeros};
use pfft_miner::search::Search;
use pfft_miner::u256::U256;
use pfft_miner::worker::{Worker, WorkerEvent};

/// Lets the workers run in turn until all have ended, or until `turns` runs,
/// after which the search is told to stop. Returns the search and its reports.
fn mine(challenge: &[u8; 32], target: U256, start: u64, threads: usize, turns: u64) -> (Search, u64) {
    let mut search = Search::new();
    let mut reports = 0;
    let mut runs = 0;
    let mut workers: Vec<Worker> =
        (0..threads).map(|tid| Worker::new(U256::from_u64(start), tid, threads)).collect();
    while !workers.is_empty() {
        workers.retain_mut(|worker| {
            if runs == turns {
                search.request_stop();
            }
            runs += 1;
            let event = worker.run(challenge, target);
            if let WorkerEvent::Report { .. } = event {
                reports += 1;
            }
            !search.absorb(event)
        });
    }
    (search, reports)
}

#[test]
fn one_thread_finds_the_first_valid_nonce() {
    let challenge = [17u8; 32];
    let target = target_from_hex_zeros(U256::from_u64(3));
    for start in [0u64, 5_000, 123_456_789] {
        let (search, _) = mine(&challenge, target, start, 1, u64::MAX);
        let mut failures = 0;
        while !check_proof(&challenge, U256::from_u64(start + failures), target) {
            failures += 1;
        }
        assert_eq!(search.solution, Some(U256::from_u64(start + failures)));
        assert_eq!(search.attempts, failures);
    }
}

#[test]
fn several_threads_find_the_first_of_a_walk() {
    let challenge = [18u8; 32];
    let target = target_from_hex_zeros(U256::from_u64(3));
    let (search, _) = mine(&challenge, target, 100, 4, u64::MAX);
    let nonce = search.solution.unwrap();
    assert!(check_proof(&challenge, nonce, target));
    let mut earlier = 100 + (nonce.to_u128() as u64 - 100) % 4;
    while U256::from_u64(earlier).lt(&nonce) {
        assert!(!check_proof(&challenge, U256::from_u64(earlier), target));
        earlier += 4;
    }
}

#[test]
fn a_search_that_is_given_up_counts_its_reports() {
    let challenge = [19u8; 32];
    let (search, reports) = mine(&challenge, U256::zero(), 0, 2, 3);
    assert_eq!(search.solution, None);
    assert_eq!(reports, 5);
    assert_eq!(search.attempts, 5 * 0x4000);
}

#[test]
fn the_largest_target_takes_the_first_nonce() {
    let challenge = [20u8; 32];
    let mut worker = Worker::new(U256::from_u64(40), 2, 3);
    assert_eq!(
        worker.run(&challenge, U256::max_value()),
        WorkerEvent::Found { nonce: U256::from_u64(42), attempts: 0 }
    );
    let (search, reports) = mine(&challenge, U256::max_value(), 40, 3, u64::MAX);
    assert_eq!(search, Search { solution: Some(U256::from_u64(40)), stop: true, attempts: 0 });
    assert_eq!(reports, 0);
}
