use pfft_miner::proof_of_work::{check_proof, target_from_hex_zeros};
use pfft_miner::search::Search;
use pfft_miner::u256::U256;
use pfft_miner::worker::{Worker, WorkerEvent};

fn found(nonce: u64, attempts: u64) -> WorkerEvent {
    WorkerEvent::Found { nonce: U256::from_u64(nonce), attempts }
}

#[test]
fn search_starts_empty() {
    assert_eq!(Search::new(), Search { solution: None, stop: false, attempts: 0 });
}

#[test]
fn first_solution_is_kept() {
    let mut search = Search::new();
    assert!(search.absorb(found(1, 10)));
    assert!(search.absorb(found(2, 20)));
    assert_eq!(search.solution, Some(U256::from_u64(1)));
    assert_eq!(search.attempts, 30);
    assert!(search.stop);
}

#[test]
fn threads_end_with_a_solution_or_when_told() {
    let mut search = Search::new();
    assert!(!search.absorb(WorkerEvent::Report { attempts: 0x4000 }));
    assert!(!search.absorb(WorkerEvent::Continue));
    assert_eq!(search, Search { solution: None, stop: false, attempts: 0x4000 });
    search.request_stop();
    assert_eq!(search, Search { solution: None, stop: true, attempts: 0x4000 });
    assert!(!search.absorb(WorkerEvent::Continue));
    assert!(search.absorb(WorkerEvent::Report { attempts: 0x4000 }));
    assert_eq!(search, Search { solution: None, stop: true, attempts: 0x8000 });
}

#[test]
fn a_solution_after_the_stop_still_counts() {
    let mut search = Search::new();
    search.request_stop();
    assert!(search.absorb(found(7, 3)));
    assert_eq!(search.solution, Some(U256::from_u64(7)));
}

#[test]
fn a_search_that_nobody_stops_ends_with_a_solution() {
    let events = [
        WorkerEvent::Report { attempts: 0x4000 },
        WorkerEvent::Continue,
        found(5, 2),
        WorkerEvent::Report { attempts: 0x4000 },
        WorkerEvent::Continue,
        found(6, 1),
    ];
    let mut search = Search { solution: None, stop: false, attempts: 100 };
    let exits: Vec<bool> = events.iter().map(|&event| search.absorb(event)).collect();
    assert_eq!(exits, [false, false, true, true, false, true]);
    assert_eq!(search.solution, Some(U256::from_u64(5)));
    assert!(search.stop);
    assert_eq!(search.attempts, 100 + 2 * 0x4000 + 3);
}

#[test]
fn a_search_without_a_solution_was_told_to_stop() {
    let mut search = Search::new();
    for _ in 0..3 {
        assert!(!search.absorb(WorkerEvent::Report { attempts: 0x4000 }));
        assert!(!search.stop);
    }
    search.request_stop();
    for _ in 0..3 {
        assert!(search.absorb(WorkerEvent::Report { attempts: 0x4000 }));
    }
    assert_eq!(search, Search { solution: None, stop: true, attempts: 6 * 0x4000 });
}

#[test]
fn attempts_wrap_around() {
    let mut search = Search { solution: None, stop: false, attempts: u64::MAX };
    search.absorb(WorkerEvent::Report { attempts: 0x4000 });
    assert_eq!(search.attempts, 0x3FFF);
}

#[test]
fn workers_of_one_search_find_a_valid_nonce() {
    let challenge = [3u8; 32];
    let target = target_from_hex_zeros(U256::from_u64(3));
    let threads = 3;
    let mut search = Search::new();
    let mut workers: Vec<Worker> =
        (0..threads).map(|tid| Worker::new(U256::from_u64(1_000), tid, threads)).collect();
    while !workers.is_empty() {
        workers.retain_mut(|worker| {
            let event = worker.run(&challenge, target);
            !search.absorb(event)
        });
    }
    assert!(search.stop);
    let nonce = search.solution.unwrap();
    assert!(check_proof(&challenge, nonce, target));
}
