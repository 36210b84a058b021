//! The search of one mining thread, and how the threads share the nonces.
//!
//! Thread `tid` of `n` tries the nonces `start + tid`, `start + tid + n`,
//! `start + tid + 2 * n` and so on, modulo 2^256. It reports its attempts, and
//! looks whether it is to stop, once in every 16384 attempts.
use crate::bindings::random_u64;
use crate::bindings::wrapping_sum;
use crate::proof_of_work::check_proof;
use crate::proof_of_work::proof_valid;
use crate::u256::law_limbs_in_base_2_64;
use crate::u256::law_modulus_digits;
use crate::u256::lemma_below_modulus;
use crate::u256::modulus;
use crate::u256::U256;
use vstd::arithmetic::div_mod::lemma_add_mod_noop;
use vstd::arithmetic::div_mod::lemma_fundamental_div_mod;
use vstd::arithmetic::div_mod::lemma_fundamental_div_mod_converse;
use vstd::arithmetic::div_mod::lemma_mod_twice;
use vstd::arithmetic::div_mod::lemma_mod_bound;
use vstd::arithmetic::div_mod::lemma_small_mod;
use vstd::arithmetic::power2::lemma_pow2_pos;
use vstd::prelude::*;

verus! {

/// The number of attempts between two reports of a worker.
pub const REPORT_INTERVAL: u64 = 0x4000;

/// The nonce that is reached from `start` after a number of strides.
pub open spec fn walk(start: nat, stride: nat, steps: nat) -> nat {
    (start + steps * stride) % modulus()
}

/// The nonce that worker `tid` of `threads` tries after a number of strides.
pub open spec fn worker_nonce(start: nat, tid: nat, threads: nat, steps: nat) -> nat {
    walk((start + tid) % modulus(), threads, steps)
}

/// The state of one mining thread.
#[derive(Clone, Copy, Debug, PartialEq, Eq)]
pub struct Worker {
    /// The nonce that is tried next.
    pub nonce: U256,
    /// The distance between two nonces that this worker tries.
    pub stride: U256,
    /// The failed attempts since the last report.
    pub local_attempts: u64,
}

/// What a worker has to tell after an attempt.
#[derive(Clone, Copy, Debug, PartialEq, Eq)]
pub enum WorkerEvent {
    /// The nonce solves the challenge, after so many unreported attempts.
    Found { nonce: U256, attempts: u64 },
    /// So many attempts are to be reported.
    Report { attempts: u64 },
    /// Nothing: the search goes on.
    Continue,
}

impl Worker {
    /// Fewer attempts are unreported than make a report.
    pub open spec fn wf(self) -> bool {
        self.local_attempts < REPORT_INTERVAL
    }

    /// The nonce that this worker tries after so many more failures.
    pub open spec fn ahead(self, steps: nat) -> nat {
        walk(self.nonce@, self.stride@, steps)
    }

    /// The worker `tid` among `num_threads`, before its first attempt.
    pub fn new(start_nonce: U256, tid: usize, num_threads: usize) -> (r: Worker)
        ensures
            r.wf(),
            r.nonce@ == (start_nonce@ + tid as nat) % modulus(),
            r.stride@ == num_threads,
            r.local_attempts == 0,
    {
        Worker {
            nonce: wrapping_sum(start_nonce, U256::from_usize(tid)),
            stride: U256::from_usize(num_threads),
            local_attempts: 0,
        }
    }

    /// Takes the outcome of the attempt at the current nonce.
    pub fn on_result(&mut self, hit: bool) -> (event: WorkerEvent)
        requires
            old(self).wf(),
        ensures
            final(self).wf(),
            final(self).stride == old(self).stride,
            hit ==> *final(self) == *old(self) && event == (WorkerEvent::Found {
                nonce: old(self).nonce,
                attempts: old(self).local_attempts,
            }),
            !hit ==> final(self).nonce@ == (old(self).nonce@ + old(self).stride@) % modulus(),
            !hit && old(self).local_attempts + 1 == REPORT_INTERVAL ==> final(self).local_attempts
                == 0 && event == (WorkerEvent::Report { attempts: REPORT_INTERVAL }),
            !hit && old(self).local_attempts + 1 < REPORT_INTERVAL ==> final(self).local_attempts
                == old(self).local_attempts + 1 && event == WorkerEvent::Continue,
    {
        if hit {
            return WorkerEvent::Found { nonce: self.nonce, attempts: self.local_attempts };
        }
        self.nonce = wrapping_sum(self.nonce, self.stride);
        self.local_attempts = self.local_attempts + 1;
        let attempts: u64 = self.local_attempts;
        assert(attempts & 0x3FFF == attempts % 0x4000) by (bit_vector);
        if attempts & 0x3FFF == 0 {
            self.local_attempts = 0;
            WorkerEvent::Report { attempts }
        } else {
            WorkerEvent::Continue
        }
    }

    /// Tries nonces until one solves the challenge or a report is due.
    ///
    /// The nonce found is the first on the way that solves the challenge. A
    /// report comes only if no nonce on the way does. At the largest target the
    /// first nonce is found at once.
    pub fn run(&mut self, challenge: &[u8; 32], target: U256) -> (event: WorkerEvent)
        requires
            old(self).wf(),
        ensures
            runs(*old(self), challenge@, target@, event, *final(self)),
    {
        proof {
            lemma_walk_start(self.nonce, self.stride@);
        }
        loop
            invariant
                self.wf(),
                old(self).wf(),
                self.stride == old(self).stride,
                old(self).local_attempts <= self.local_attempts,
                target@ == modulus() - 1 ==> *self == *old(self),
                self.nonce@ == old(self).ahead(
                    (self.local_attempts - old(self).local_attempts) as nat,
                ),
                forall|k: nat|
                    k < self.local_attempts - old(self).local_attempts ==> !proof_valid(
                        challenge@,
                        #[trigger] old(self).ahead(k),
                        target@,
                    ),
            decreases REPORT_INTERVAL - self.local_attempts,
        {
            let ghost steps = (self.local_attempts - old(self).local_attempts) as nat;
            let hit = check_proof(challenge, self.nonce, target);
            let event = self.on_result(hit);
            proof {
                lemma_walk_step(old(self).nonce@, old(self).stride@, steps);
            }
            match event {
                WorkerEvent::Continue => {},
                _ => {
                    return event;
                },
            }
        }
    }
}

/// What a worker does until it finds a nonce or has to report, and how it is
/// left.
pub open spec fn runs(
    pre: Worker,
    challenge: Seq<u8>,
    target: nat,
    event: WorkerEvent,
    post: Worker,
) -> bool {
    &&& post.wf()
    &&& post.stride == pre.stride
    &&& target == modulus() - 1 ==> event == (WorkerEvent::Found {
        nonce: pre.nonce,
        attempts: pre.local_attempts,
    })
    &&& match event {
        WorkerEvent::Found { nonce, attempts } => {
            &&& pre.local_attempts <= attempts < REPORT_INTERVAL
            &&& post.nonce == nonce
            &&& post.local_attempts == attempts
            &&& nonce@ == pre.ahead((attempts - pre.local_attempts) as nat)
            &&& proof_valid(challenge, nonce@, target)
            &&& forall|k: nat|
                k < attempts - pre.local_attempts ==> !proof_valid(
                    challenge,
                    #[trigger] pre.ahead(k),
                    target,
                )
        },
        WorkerEvent::Report { attempts } => {
            &&& attempts == REPORT_INTERVAL
            &&& post.local_attempts == 0
            &&& post.nonce@ == pre.ahead((REPORT_INTERVAL - pre.local_attempts) as nat)
            &&& forall|k: nat|
                k < REPORT_INTERVAL - pre.local_attempts ==> !proof_valid(
                    challenge,
                    #[trigger] pre.ahead(k),
                    target,
                )
        },
        WorkerEvent::Continue => false,
    }
}

/// A random nonce to start a round from, among the 64-bit ones.
pub fn draw_start_nonce() -> (r: U256)
    ensures
        r@ <= u64::MAX,
{
    U256::from_u64(random_u64())
}

/// A walk starts where it starts.
pub proof fn lemma_walk_start(start: U256, stride: nat)
    ensures
        walk(start@, stride, 0) == start@,
{
    lemma_below_modulus(start);
    lemma_small_mod(start@, modulus());
}

/// One more stride of a walk.
proof fn lemma_walk_step(start: nat, stride: nat, steps: nat)
    ensures
        walk(start, stride, steps + 1) == (walk(start, stride, steps) + stride) % modulus(),
{
    lemma_pow2_pos(256);
    let m = modulus() as int;
    let s = (start + steps * stride) as int;
    assert((steps + 1) * stride == steps * stride + stride) by (nonlinear_arith);
    lemma_add_mod_noop(s, stride as int, m);
    lemma_add_mod_noop(s % m, stride as int, m);
    lemma_mod_twice(s, m);
}

/// The nonce of a worker, as one remainder.
pub proof fn lemma_worker_nonce(start: nat, tid: nat, threads: nat, steps: nat)
    ensures
        worker_nonce(start, tid, threads, steps) == (start + tid + steps * threads) % modulus(),
{
    lemma_pow2_pos(256);
    let m = modulus() as int;
    let a = (start + tid) as int;
    let b = (steps * threads) as int;
    lemma_add_mod_noop(a, b, m);
    lemma_add_mod_noop(a % m, b, m);
    lemma_mod_twice(a, m);
}

/// Where one stretch of a walk ends, the next goes on: the stretches between
/// reports leave no nonce of a worker out.
pub proof fn law_stretches_join(start: nat, stride: nat, first: nat, second: nat)
    ensures
        walk(walk(start, stride, first), stride, second) == walk(start, stride, first + second),
{
    lemma_pow2_pos(256);
    let m = modulus() as int;
    let a = (start + first * stride) as int;
    let b = (second * stride) as int;
    assert((first + second) * stride == first * stride + second * stride) by (nonlinear_arith);
    lemma_add_mod_noop(a, b, m);
    lemma_add_mod_noop(a % m, b, m);
    lemma_mod_twice(a, m);
}

/// No nonce is tried twice, by one worker or by two, before the workers have
/// together gone once round all 2^256 nonces.
pub proof fn law_workers_disjoint(
    start: nat,
    threads: nat,
    tid1: nat,
    steps1: nat,
    tid2: nat,
    steps2: nat,
)
    requires
        tid1 < threads,
        tid2 < threads,
        tid1 + steps1 * threads < modulus(),
        tid2 + steps2 * threads < modulus(),
        worker_nonce(start, tid1, threads, steps1) == worker_nonce(start, tid2, threads, steps2),
    ensures
        tid1 == tid2,
        steps1 == steps2,
{
    lemma_worker_nonce(start, tid1, threads, steps1);
    lemma_worker_nonce(start, tid2, threads, steps2);
    let m = modulus() as int;
    let d1 = (tid1 + steps1 * threads) as int;
    let d2 = (tid2 + steps2 * threads) as int;
    lemma_same_remainder(start as int, d1, d2, m);
    lemma_fundamental_div_mod_converse(d1, threads as int, steps1 as int, tid1 as int);
    lemma_fundamental_div_mod_converse(d2, threads as int, steps2 as int, tid2 as int);
}

/// Offsets below the modulus that lead to the same remainder are equal.
proof fn lemma_same_remainder(start: int, d1: int, d2: int, m: int)
    requires
        0 <= d1 < m,
        0 <= d2 < m,
        (start + d1) % m == (start + d2) % m,
    ensures
        d1 == d2,
{
    lemma_fundamental_div_mod(start + d1, m);
    lemma_fundamental_div_mod(start + d2, m);
    let q1 = (start + d1) / m;
    let q2 = (start + d2) / m;
    assert(d1 - d2 == m * (q1 - q2)) by (nonlinear_arith)
        requires
            start + d1 == m * q1 + (start + d1) % m,
            start + d2 == m * q2 + (start + d2) % m,
            (start + d1) % m == (start + d2) % m,
    ;
    assert(q1 == q2) by (nonlinear_arith)
        requires
            d1 - d2 == m * (q1 - q2),
            0 <= d1 < m,
            0 <= d2 < m,
    ;
    assert(m * (q1 - q2) == 0);
}

/// Every nonce is tried by some worker, within the first round.
pub proof fn law_workers_cover(start: nat, threads: nat, nonce: nat) -> (r: (nat, nat))
    requires
        threads > 0,
        nonce < modulus(),
    ensures
        r.0 < threads,
        r.0 + r.1 * threads < modulus(),
        worker_nonce(start, r.0, threads, r.1) == nonce,
{
    lemma_pow2_pos(256);
    let m = modulus() as int;
    let d = (nonce - start) % m;
    lemma_mod_bound(nonce - start, m);
    let tid = d % threads as int;
    let steps = d / threads as int;
    lemma_fundamental_div_mod(d, threads as int);
    lemma_mod_bound(d, threads as int);
    assert(steps >= 0) by (nonlinear_arith)
        requires
            steps == d / threads as int,
            d >= 0,
            threads > 0,
    ;
    assert(steps * threads == threads * steps) by (nonlinear_arith);
    lemma_worker_nonce(start, tid as nat, threads, steps as nat);
    lemma_add_mod_noop(start as int, nonce - start, m);
    lemma_add_mod_noop(start as int, d, m);
    lemma_mod_twice(nonce - start, m);
    lemma_small_mod(nonce, modulus());
    (tid as nat, steps as nat)
}

/// A run tries the nonces from its start on, one stride apart and modulo 2^256,
/// passes none that solves the challenge, and ends with the first that does or
/// after the last of the 16384 attempts that make a report. Of the nonce after
/// `k` strides it says what the run found there.
pub proof fn law_run_tries_in_order(
    pre: Worker,
    challenge: Seq<u8>,
    target: nat,
    event: WorkerEvent,
    post: Worker,
    k: nat,
)
    requires
        pre.local_attempts < 0x4000,
        runs(pre, challenge, target, event, post),
    ensures
        ({
            let left = 0x4000 - pre.local_attempts;
            let nonce = (pre.nonce@ + k * pre.stride@) % modulus();
            let solves = proof_valid(challenge, nonce, target);
            &&& event is Found || event is Report
            &&& post.stride == pre.stride
            &&& event is Found ==> {
                &&& event->nonce == post.nonce
                &&& event->Found_attempts == post.local_attempts
                &&& pre.local_attempts <= event->Found_attempts < 0x4000
                &&& k < event->Found_attempts - pre.local_attempts ==> !solves
                &&& k == event->Found_attempts - pre.local_attempts ==> solves && event->nonce@
                    == nonce
            }
            &&& event is Report ==> {
                &&& event->Report_attempts == 0x4000
                &&& post.local_attempts == 0
                &&& k < left ==> !solves
                &&& k == left ==> post.nonce@ == nonce
            }
        }),
{
    assert(pre.ahead(k) == (pre.nonce@ + k * pre.stride@) % modulus());
}

/// A run finds a nonce exactly if one of those before its next report solves the
/// challenge: one that does is never passed over.
pub proof fn law_run_misses_nothing(
    pre: Worker,
    challenge: Seq<u8>,
    target: nat,
    event: WorkerEvent,
    post: Worker,
    k: nat,
)
    requires
        pre.local_attempts < 0x4000,
        runs(pre, challenge, target, event, post),
        k < 0x4000 - pre.local_attempts,
        proof_valid(challenge, (pre.nonce@ + k * pre.stride@) % modulus(), target),
    ensures
        event is Found,
        event->Found_attempts - pre.local_attempts <= k,
{
    law_run_tries_in_order(pre, challenge, target, event, post, k);
}

/// At the largest target every nonce solves the challenge, so the nonce that is
/// tried first is found at once.
pub proof fn law_largest_target_takes_the_first(
    pre: Worker,
    challenge: Seq<u8>,
    target: U256,
    event: WorkerEvent,
    post: Worker,
)
    requires
        target.limbs@ == seq![u64::MAX, u64::MAX, u64::MAX, u64::MAX],
        runs(pre, challenge, target@, event, post),
    ensures
        event == (WorkerEvent::Found { nonce: pre.nonce, attempts: pre.local_attempts }),
{
    law_limbs_in_base_2_64(target);
    law_modulus_digits();
    assert(target.limbs[0] == target.limbs@[0]);
    assert(target.limbs[1] == target.limbs@[1]);
    assert(target.limbs[2] == target.limbs@[2]);
    assert(target.limbs[3] == target.limbs@[3]);
}

/// Worker `tid` of `threads` tries the nonces from `start + tid` on, `threads`
/// apart and modulo 2^256.
pub proof fn law_worker_nonces(start: nat, tid: nat, threads: nat, steps: nat)
    ensures
        worker_nonce(start, tid, threads, steps) == (start + tid + steps * threads) % modulus(),
{
    lemma_worker_nonce(start, tid, threads, steps);
}

} // verus!
