//! A whole search: the workers of all threads, from the start nonce to the
//! solution.
use crate::proof_of_work::proof_valid;
use crate::search::attempts_of;
use crate::search::ends_thread;
use crate::search::first_solution;
use crate::search::is_history;
use crate::search::law_search_outcome;
use crate::search::law_solution_was_found;
use crate::search::lemma_stretch;
use crate::search::total_attempts;
use crate::search::with_request;
use crate::search::Search;
use crate::u256::modulus;
use crate::worker::law_stretches_join;
use crate::worker::lemma_walk_start;
use crate::worker::lemma_worker_nonce;
use crate::worker::runs;
use crate::worker::worker_nonce;
use crate::worker::Worker;
use crate::worker::WorkerEvent;
use crate::worker::REPORT_INTERVAL;
use vstd::arithmetic::div_mod::lemma_mod_add_multiples_vanish;
use vstd::arithmetic::power2::lemma_pow2_pos;
use vstd::prelude::*;

verus! {

/// The workers of all threads before their first attempt.
pub open spec fn is_fresh(pool: Seq<Worker>, start: nat) -> bool {
    forall|t: int|
        #![trigger pool[t]]
        0 <= t < pool.len() ==> {
            &&& pool[t].nonce@ == (start + t as nat) % modulus()
            &&& pool[t].stride@ == pool.len()
            &&& pool[t].local_attempts == 0
        }
}

/// One worker of the pool runs until it has an event; the others stay.
pub open spec fn pool_runs(
    pre: Seq<Worker>,
    challenge: Seq<u8>,
    target: nat,
    tid: int,
    event: WorkerEvent,
    post: Seq<Worker>,
) -> bool {
    &&& 0 <= tid < pre.len()
    &&& runs(pre[tid], challenge, target, event, post[tid])
    &&& post == pre.update(tid, post[tid])
}

/// A search by a pool of workers. In step `i` the worker of thread `tids[i]`
/// runs and takes `pools[i]` to `pools[i + 1]`, and its event takes `states[i]`
/// to `states[i + 1]`. A thread that has ended brings no more events.
pub open spec fn is_search(
    challenge: Seq<u8>,
    target: nat,
    pools: Seq<Seq<Worker>>,
    tids: Seq<int>,
    states: Seq<Search>,
    requests: Seq<bool>,
    events: Seq<WorkerEvent>,
) -> bool {
    &&& is_history(states, requests, events)
    &&& pools.len() == events.len() + 1
    &&& tids.len() == events.len()
    &&& forall|i: int|
        0 <= i < events.len() ==> pool_runs(
            pools[i],
            challenge,
            target,
            tids[i],
            #[trigger] events[i],
            pools[i + 1],
        )
    &&& forall|i: int, j: int|
        0 <= i < j < events.len() && #[trigger] tids[i] == #[trigger] tids[j] ==> !ends_thread(
            with_request(states[i], requests[i]),
            events[i],
        )
}

/// The attempts that one thread reported.
pub open spec fn thread_attempts(tids: Seq<int>, events: Seq<WorkerEvent>, tid: int) -> nat
    decreases events.len(),
{
    if events.len() == 0 {
        0
    } else {
        thread_attempts(tids.drop_last(), events.drop_last(), tid) + if tids.last() == tid {
            attempts_of(events.last())
        } else {
            0
        }
    }
}

/// The first steps of a search are a search.
proof fn lemma_first_steps(
    challenge: Seq<u8>,
    target: nat,
    pools: Seq<Seq<Worker>>,
    tids: Seq<int>,
    states: Seq<Search>,
    requests: Seq<bool>,
    events: Seq<WorkerEvent>,
    n: int,
)
    requires
        is_search(challenge, target, pools, tids, states, requests, events),
        0 <= n <= events.len(),
    ensures
        is_search(
            challenge,
            target,
            pools.subrange(0, n + 1),
            tids.subrange(0, n),
            states.subrange(0, n + 1),
            requests.subrange(0, n),
            events.subrange(0, n),
        ),
{
    lemma_stretch(states, requests, events, 0, n);
    let part = events.subrange(0, n);
    assert forall|i: int| 0 <= i < part.len() implies pool_runs(
        pools.subrange(0, n + 1)[i],
        challenge,
        target,
        tids.subrange(0, n)[i],
        #[trigger] part[i],
        pools.subrange(0, n + 1)[i + 1],
    ) by {
        assert(part[i] == events[i]);
    }
}

/// A worker goes on along its walk with each run: it has tried as many nonces in
/// vain as its thread reported, and no nonce that it has passed solves the
/// challenge.
pub proof fn law_attempts_are_failures(
    challenge: Seq<u8>,
    target: nat,
    start: nat,
    pools: Seq<Seq<Worker>>,
    tids: Seq<int>,
    states: Seq<Search>,
    requests: Seq<bool>,
    events: Seq<WorkerEvent>,
    tid: int,
)
    requires
        is_search(challenge, target, pools, tids, states, requests, events),
        is_fresh(pools[0], start),
        0 <= tid < pools[0].len(),
    ensures
        pools.last().len() == pools[0].len(),
        pools.last()[tid].stride == pools[0][tid].stride,
        pools.last()[tid].nonce@ == worker_nonce(
            start,
            tid as nat,
            pools[0].len(),
            thread_attempts(tids, events, tid),
        ),
        forall|k: nat|
            k < thread_attempts(tids, events, tid) ==> !proof_valid(
                challenge,
                #[trigger] worker_nonce(start, tid as nat, pools[0].len(), k),
                target,
            ),
        pools.last()[tid].local_attempts == 0 || exists|i: int|
            0 <= i < events.len() && #[trigger] tids[i] == tid && events[i] is Found,
    decreases events.len(),
{
    let threads = pools[0].len();
    let first = pools[0][tid];
    lemma_walk_start(first.nonce, first.stride@);
    if events.len() > 0 {
        let n: int = events.len() - 1;
        let fewer = events.drop_last();
        let fewer_tids = tids.drop_last();
        lemma_first_steps(challenge, target, pools, tids, states, requests, events, n);
        assert(pools.subrange(0, n + 1) =~= pools.drop_last());
        assert(tids.subrange(0, n) =~= fewer_tids);
        assert(states.subrange(0, n + 1) =~= states.drop_last());
        assert(requests.subrange(0, n) =~= requests.drop_last());
        assert(events.subrange(0, n) =~= fewer);
        law_attempts_are_failures(
            challenge,
            target,
            start,
            pools.drop_last(),
            fewer_tids,
            states.drop_last(),
            requests.drop_last(),
            fewer,
            tid,
        );
        let before = pools[n][tid];
        let event = events[n];
        let passed = thread_attempts(fewer_tids, fewer, tid);
        assert(pool_runs(pools[n], challenge, target, tids[n], event, pools[n + 1]));
        if tids[n] == tid {
            if exists|i: int|
                0 <= i < n && #[trigger] fewer_tids[i] == tid && fewer[i] is Found {
                let i = choose|i: int|
                    0 <= i < n && #[trigger] fewer_tids[i] == tid && fewer[i] is Found;
                assert(tids[i] == tids[n]);
                assert(events[i] is Found);
            }
            assert(before.local_attempts == 0);
            assert forall|k: nat| #[trigger]
                before.ahead(k) == worker_nonce(start, tid as nat, threads, passed + k) by {
                law_stretches_join(first.nonce@, threads, passed, k);
            }
            assert(before.ahead(attempts_of(event)) == pools[n + 1][tid].nonce@);
            assert forall|k: nat| k < passed + attempts_of(event) implies !proof_valid(
                challenge,
                #[trigger] worker_nonce(start, tid as nat, threads, k),
                target,
            ) by {
                if k >= passed {
                    assert(!proof_valid(challenge, before.ahead((k - passed) as nat), target));
                }
            }
            if event is Found {
                assert(tids[n] == tid && events[n] is Found);
            }
        } else if before.local_attempts != 0 {
            let i = choose|i: int|
                0 <= i < n && #[trigger] fewer_tids[i] == tid && fewer[i] is Found;
            assert(tids[i] == tid && events[i] is Found);
        }
    }
}

/// Where the first solution among events stands.
proof fn lemma_first_found(events: Seq<WorkerEvent>) -> (n: int)
    requires
        first_solution(events) is Some,
    ensures
        0 <= n < events.len(),
        events[n] is Found,
        first_solution(events) == Some(events[n]->nonce),
    decreases events.len(),
{
    if first_solution(events.drop_last()) is Some {
        lemma_first_found(events.drop_last())
    } else {
        events.len() - 1
    }
}

/// The solution of a search is a valid proof.
pub proof fn law_solution_is_valid(
    challenge: Seq<u8>,
    target: nat,
    pools: Seq<Seq<Worker>>,
    tids: Seq<int>,
    states: Seq<Search>,
    requests: Seq<bool>,
    events: Seq<WorkerEvent>,
)
    requires
        is_search(challenge, target, pools, tids, states, requests, events),
        states[0].solution is None,
    ensures
        states.last().solution is Some ==> proof_valid(
            challenge,
            states.last().solution->0@,
            target,
        ),
{
    law_search_outcome(states, requests, events);
    if first_solution(events) is Some {
        let n = lemma_first_found(events);
        assert(pool_runs(pools[n], challenge, target, tids[n], events[n], pools[n + 1]));
    }
}

/// The solution of a search is a valid proof, and the first on the walk of the
/// thread `r.0` that found it: it is tried after `r.1` nonces that do not solve
/// the challenge.
pub proof fn law_search_finds_a_proof(
    challenge: Seq<u8>,
    target: nat,
    start: nat,
    pools: Seq<Seq<Worker>>,
    tids: Seq<int>,
    states: Seq<Search>,
    requests: Seq<bool>,
    events: Seq<WorkerEvent>,
) -> (r: (int, nat))
    requires
        is_search(challenge, target, pools, tids, states, requests, events),
        is_fresh(pools[0], start),
        states[0].solution is None,
        states.last().solution is Some,
    ensures
        0 <= r.0 < pools[0].len(),
        proof_valid(challenge, states.last().solution->0@, target),
        states.last().solution->0@ == worker_nonce(start, r.0 as nat, pools[0].len(), r.1),
        forall|k: nat|
            k < r.1 ==> !proof_valid(
                challenge,
                #[trigger] worker_nonce(start, r.0 as nat, pools[0].len(), k),
                target,
            ),
        r.1 <= thread_attempts(tids, events, r.0),
{
    law_search_outcome(states, requests, events);
    let n = lemma_first_found(events);
    let tid = tids[n];
    assert(pool_runs(pools[n], challenge, target, tid, events[n], pools[n + 1]));
    let part = events.subrange(0, n + 1);
    let part_tids = tids.subrange(0, n + 1);
    lemma_first_steps(challenge, target, pools, tids, states, requests, events, n + 1);
    lemma_pool_size(challenge, target, pools, tids, states, requests, events, n);
    law_attempts_are_failures(
        challenge,
        target,
        start,
        pools.subrange(0, n + 2),
        part_tids,
        states.subrange(0, n + 2),
        requests.subrange(0, n + 1),
        part,
        tid,
    );
    lemma_attempts_grow(tids, events, tid, n + 1);
    (tid, thread_attempts(part_tids, part, tid))
}

/// The number of workers does not change.
proof fn lemma_pool_size(
    challenge: Seq<u8>,
    target: nat,
    pools: Seq<Seq<Worker>>,
    tids: Seq<int>,
    states: Seq<Search>,
    requests: Seq<bool>,
    events: Seq<WorkerEvent>,
    n: int,
)
    requires
        is_search(challenge, target, pools, tids, states, requests, events),
        0 <= n <= events.len(),
    ensures
        pools[n].len() == pools[0].len(),
    decreases n,
{
    if n > 0 {
        lemma_pool_size(challenge, target, pools, tids, states, requests, events, n - 1);
        assert(pool_runs(
            pools[n - 1],
            challenge,
            target,
            tids[n - 1],
            events[n - 1],
            pools[n - 1 + 1],
        ));
    }
}

/// The attempts of a thread do not fall.
proof fn lemma_attempts_grow(tids: Seq<int>, events: Seq<WorkerEvent>, tid: int, n: int)
    requires
        tids.len() == events.len(),
        0 <= n <= events.len(),
    ensures
        thread_attempts(tids.subrange(0, n), events.subrange(0, n), tid) <= thread_attempts(
            tids,
            events,
            tid,
        ),
    decreases events.len(),
{
    if n == events.len() {
        assert(tids.subrange(0, n) =~= tids);
        assert(events.subrange(0, n) =~= events);
    } else {
        lemma_attempts_grow(tids.drop_last(), events.drop_last(), tid, n);
        assert(tids.drop_last().subrange(0, n) =~= tids.subrange(0, n));
        assert(events.drop_last().subrange(0, n) =~= events.subrange(0, n));
    }
}

/// The attempts that the first `threads` threads reported.
pub open spec fn pool_attempts(tids: Seq<int>, events: Seq<WorkerEvent>, threads: nat) -> nat
    decreases threads,
{
    if threads == 0 {
        0
    } else {
        pool_attempts(tids, events, (threads - 1) as nat) + thread_attempts(
            tids,
            events,
            threads - 1,
        )
    }
}

/// One more event adds its attempts to those of its thread.
proof fn lemma_pool_attempts_step(tids: Seq<int>, events: Seq<WorkerEvent>, threads: nat)
    requires
        tids.len() == events.len(),
        events.len() > 0,
        0 <= tids.last(),
    ensures
        pool_attempts(tids, events, threads) == pool_attempts(
            tids.drop_last(),
            events.drop_last(),
            threads,
        ) + (if tids.last() < threads {
            attempts_of(events.last())
        } else {
            0
        }),
    decreases threads,
{
    if threads > 0 {
        lemma_pool_attempts_step(tids, events, (threads - 1) as nat);
    }
}

/// Without events there are no attempts.
proof fn lemma_pool_attempts_none(tids: Seq<int>, events: Seq<WorkerEvent>, threads: nat)
    requires
        events.len() == 0,
    ensures
        pool_attempts(tids, events, threads) == 0,
    decreases threads,
{
    if threads > 0 {
        lemma_pool_attempts_none(tids, events, (threads - 1) as nat);
    }
}

/// The count of attempts grows by the attempts of all threads together, modulo
/// 2^64.
pub proof fn law_count_is_sum_of_threads(
    challenge: Seq<u8>,
    target: nat,
    pools: Seq<Seq<Worker>>,
    tids: Seq<int>,
    states: Seq<Search>,
    requests: Seq<bool>,
    events: Seq<WorkerEvent>,
)
    requires
        is_search(challenge, target, pools, tids, states, requests, events),
    ensures
        states.last().attempts == (states[0].attempts + pool_attempts(
            tids,
            events,
            pools[0].len(),
        )) % 0x1_0000_0000_0000_0000,
{
    law_search_outcome(states, requests, events);
    assert forall|i: int| 0 <= i < tids.len() implies 0 <= #[trigger] tids[i] < pools[0].len() by {
        lemma_pool_size(challenge, target, pools, tids, states, requests, events, i);
        assert(pool_runs(pools[i], challenge, target, tids[i], events[i], pools[i + 1]));
    }
    lemma_pool_attempts_total(tids, events, pools[0].len());
}

/// The attempts of all threads are all attempts.
proof fn lemma_pool_attempts_total(tids: Seq<int>, events: Seq<WorkerEvent>, threads: nat)
    requires
        tids.len() == events.len(),
        forall|i: int| 0 <= i < tids.len() ==> 0 <= #[trigger] tids[i] < threads,
    ensures
        pool_attempts(tids, events, threads) == total_attempts(events),
    decreases events.len(),
{
    if events.len() > 0 {
        assert(0 <= tids[events.len() - 1] < threads);
        lemma_pool_attempts_step(tids, events, threads);
        lemma_pool_attempts_total(tids.drop_last(), events.drop_last(), threads);
    } else {
        lemma_pool_attempts_none(tids, events, threads);
    }
}

/// With one thread the solution is the first nonce at or after the start that
/// solves the challenge, and the count of attempts grows by the number of
/// nonces before it, modulo 2^64.
pub proof fn law_one_thread_finds_the_first(
    challenge: Seq<u8>,
    target: nat,
    start: nat,
    pools: Seq<Seq<Worker>>,
    tids: Seq<int>,
    states: Seq<Search>,
    requests: Seq<bool>,
    events: Seq<WorkerEvent>,
) -> (failures: nat)
    requires
        is_search(challenge, target, pools, tids, states, requests, events),
        is_fresh(pools[0], start),
        pools[0].len() == 1,
        states[0].solution is None,
        states.last().solution is Some,
    ensures
        failures < modulus(),
        states.last().solution->0@ == (start + failures) % modulus(),
        proof_valid(challenge, (start + failures) % modulus(), target),
        forall|k: nat|
            #![trigger (start + k) % modulus()]
            k < failures ==> !proof_valid(challenge, (start + k) % modulus(), target),
        states.last().attempts == (states[0].attempts + failures) % 0x1_0000_0000_0000_0000,
{
    law_search_outcome(states, requests, events);
    let n = lemma_first_found(events);
    lemma_one_thread(challenge, target, pools, tids, states, requests, events);
    if n + 1 < events.len() {
        assert(tids[n] == tids[n + 1]);
    }
    law_attempts_are_failures(
        challenge,
        target,
        start,
        pools,
        tids,
        states,
        requests,
        events,
        0,
    );
    law_count_is_sum_of_threads(challenge, target, pools, tids, states, requests, events);
    let failures = thread_attempts(tids, events, 0);
    assert(pool_attempts(tids, events, 1) == failures) by {
        reveal_with_fuel(pool_attempts, 2);
    }
    assert(pool_runs(pools[n], challenge, target, tids[n], events[n], pools[n + 1]));
    lemma_worker_nonce(start, 0, 1, failures);
    assert forall|k: nat|
        #![trigger (start + k) % modulus()]
        k < failures implies !proof_valid(challenge, (start + k) % modulus(), target) by {
        lemma_worker_nonce(start, 0, 1, k);
        assert(!proof_valid(challenge, worker_nonce(start, 0, 1, k), target));
    }
    if failures >= modulus() {
        lemma_pow2_pos(256);
        let k = (failures - modulus()) as nat;
        lemma_mod_add_multiples_vanish((start + k) as int, modulus() as int);
        assert(!proof_valid(challenge, (start + k) % modulus(), target));
    }
    failures
}

/// In a pool of one, all events are of thread 0.
proof fn lemma_one_thread(
    challenge: Seq<u8>,
    target: nat,
    pools: Seq<Seq<Worker>>,
    tids: Seq<int>,
    states: Seq<Search>,
    requests: Seq<bool>,
    events: Seq<WorkerEvent>,
)
    requires
        is_search(challenge, target, pools, tids, states, requests, events),
        pools[0].len() == 1,
    ensures
        forall|i: int| 0 <= i < tids.len() ==> #[trigger] tids[i] == 0,
{
    assert forall|i: int| 0 <= i < tids.len() implies #[trigger] tids[i] == 0 by {
        lemma_pool_size(challenge, target, pools, tids, states, requests, events, i);
        assert(pool_runs(pools[i], challenge, target, tids[i], events[i], pools[i + 1]));
    }
}

/// A search that is given up without a solution has counted one interval of
/// attempts for each report, modulo 2^64, and nothing but reports came.
pub proof fn law_given_up_search_counts_reports(
    challenge: Seq<u8>,
    target: nat,
    pools: Seq<Seq<Worker>>,
    tids: Seq<int>,
    states: Seq<Search>,
    requests: Seq<bool>,
    events: Seq<WorkerEvent>,
)
    requires
        is_search(challenge, target, pools, tids, states, requests, events),
        states.last().solution is None,
    ensures
        forall|i: int|
            0 <= i < events.len() ==> #[trigger] events[i] == (WorkerEvent::Report {
                attempts: REPORT_INTERVAL,
            }),
        states.last().attempts == (states[0].attempts + REPORT_INTERVAL * events.len())
            % 0x1_0000_0000_0000_0000,
{
    law_search_outcome(states, requests, events);
    law_solution_was_found(events);
    assert forall|i: int| 0 <= i < events.len() implies #[trigger] events[i] == (
    WorkerEvent::Report { attempts: REPORT_INTERVAL }) by {
        assert(pool_runs(pools[i], challenge, target, tids[i], events[i], pools[i + 1]));
    }
    lemma_reports_add_up(events);
}

/// The attempts of events that are all reports.
proof fn lemma_reports_add_up(events: Seq<WorkerEvent>)
    requires
        forall|i: int|
            0 <= i < events.len() ==> #[trigger] events[i] == (WorkerEvent::Report {
                attempts: REPORT_INTERVAL,
            }),
    ensures
        total_attempts(events) == REPORT_INTERVAL * events.len(),
    decreases events.len(),
{
    if events.len() > 0 {
        assert(attempts_of(events[events.len() - 1]) == REPORT_INTERVAL);
        lemma_reports_add_up(events.drop_last());
    }
}

} // verus!
