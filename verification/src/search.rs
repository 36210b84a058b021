//! What the threads of one search share: the solution, the wish to stop and the
//! number of attempts.
use crate::u256::U256;
use crate::worker::WorkerEvent;
use vstd::arithmetic::div_mod::lemma_add_mod_noop;
use vstd::arithmetic::div_mod::lemma_mod_twice;
use vstd::arithmetic::div_mod::lemma_small_mod;
use vstd::prelude::*;

verus! {

/// The shared state of a search.
#[derive(Clone, Copy, Debug, PartialEq, Eq)]
pub struct Search {
    /// The solution that was found first.
    pub solution: Option<U256>,
    /// Whether the threads are to stop.
    pub stop: bool,
    /// The attempts that were reported, modulo 2^64.
    pub attempts: u64,
}

/// The attempts that an event reports.
pub open spec fn attempts_of(event: WorkerEvent) -> nat {
    match event {
        WorkerEvent::Found { nonce: _, attempts } => attempts as nat,
        WorkerEvent::Report { attempts } => attempts as nat,
        WorkerEvent::Continue => 0,
    }
}

/// The solution that an event brings.
pub open spec fn solution_of(event: WorkerEvent) -> Option<U256> {
    match event {
        WorkerEvent::Found { nonce, attempts: _ } => Some(nonce),
        _ => None,
    }
}

/// What an event of some worker does to the search.
pub open spec fn absorbs(pre: Search, event: WorkerEvent, post: Search) -> bool {
    &&& post.solution == (if pre.solution is Some {
        pre.solution
    } else {
        solution_of(event)
    })
    &&& post.stop == (pre.stop || event is Found)
    &&& post.attempts == (pre.attempts + attempts_of(event)) % 0x1_0000_0000_0000_0000
}

/// Whether an event ends the thread that brings it: a solution does, and a
/// report does when the threads are to stop.
pub open spec fn ends_thread(search: Search, event: WorkerEvent) -> bool {
    event is Found || (event is Report && search.stop)
}

impl Search {
    /// A search that has its solution is to stop.
    pub open spec fn wf(self) -> bool {
        self.solution is Some ==> self.stop
    }

    /// A search before its first attempt.
    pub fn new() -> (r: Search)
        ensures
            r.wf(),
            r.solution is None,
            !r.stop,
            r.attempts == 0,
    {
        Search { solution: None, stop: false, attempts: 0 }
    }

    /// Wishes the threads to stop.
    pub fn request_stop(&mut self)
        ensures
            final(self).wf(),
            final(self).stop,
            final(self).solution == old(self).solution,
            final(self).attempts == old(self).attempts,
    {
        self.stop = true;
    }

    /// Takes an event of some worker, and tells whether its thread ends.
    pub fn absorb(&mut self, event: WorkerEvent) -> (exit: bool)
        requires
            old(self).wf(),
        ensures
            final(self).wf(),
            absorbs(*old(self), event, *final(self)),
            exit == ends_thread(*old(self), event),
            match event {
                WorkerEvent::Found { nonce, attempts } => {
                    &&& exit
                    &&& final(self).stop
                    &&& old(self).solution is Some ==> final(self).solution == old(self).solution
                    &&& old(self).solution is None ==> final(self).solution == Some(nonce)
                    &&& final(self).attempts == (old(self).attempts + attempts)
                        % 0x1_0000_0000_0000_0000
                },
                WorkerEvent::Report { attempts } => {
                    &&& exit == old(self).stop
                    &&& final(self).stop == old(self).stop
                    &&& final(self).solution == old(self).solution
                    &&& final(self).attempts == (old(self).attempts + attempts)
                        % 0x1_0000_0000_0000_0000
                },
                WorkerEvent::Continue => !exit && *final(self) == *old(self),
            },
    {
        match event {
            WorkerEvent::Found { nonce, attempts } => {
                if self.solution.is_none() {
                    self.solution = Some(nonce);
                }
                self.stop = true;
                self.attempts = self.attempts.wrapping_add(attempts);
                true
            },
            WorkerEvent::Report { attempts } => {
                self.attempts = self.attempts.wrapping_add(attempts);
                self.stop
            },
            WorkerEvent::Continue => false,
        }
    }
}

/// The search, after its threads were told to stop if that was requested.
pub open spec fn with_request(search: Search, requested: bool) -> Search {
    Search { stop: search.stop || requested, ..search }
}

/// The history of a search: its threads are told to stop if `requests[i]` holds,
/// then `states[i]` takes `events[i]` of some worker and becomes
/// `states[i + 1]`, in the order in which the threads came to it.
pub open spec fn is_history(
    states: Seq<Search>,
    requests: Seq<bool>,
    events: Seq<WorkerEvent>,
) -> bool {
    &&& states.len() == events.len() + 1
    &&& requests.len() == events.len()
    &&& forall|i: int|
        0 <= i < events.len() ==> absorbs(
            with_request(states[i], requests[i]),
            #[trigger] events[i],
            states[i + 1],
        )
}

/// Whether the threads were ever told to stop.
pub open spec fn any_request(requests: Seq<bool>) -> bool {
    exists|i: int| 0 <= i < requests.len() && #[trigger] requests[i]
}

/// The attempts that events report, in total.
pub open spec fn total_attempts(events: Seq<WorkerEvent>) -> nat
    decreases events.len(),
{
    if events.len() == 0 {
        0
    } else {
        total_attempts(events.drop_last()) + attempts_of(events.last())
    }
}

/// The first solution among events.
pub open spec fn first_solution(events: Seq<WorkerEvent>) -> Option<U256>
    decreases events.len(),
{
    if events.len() == 0 {
        None
    } else if first_solution(events.drop_last()) is Some {
        first_solution(events.drop_last())
    } else {
        solution_of(events.last())
    }
}

/// However the threads come to a search, it ends with the first solution that
/// any of them found, and with all the attempts that they reported, modulo
/// 2^64. Its threads are to stop exactly if they were told so or a solution was
/// found.
pub proof fn law_search_outcome(
    states: Seq<Search>,
    requests: Seq<bool>,
    events: Seq<WorkerEvent>,
)
    requires
        is_history(states, requests, events),
    ensures
        states.last().solution == (if states[0].solution is Some {
            states[0].solution
        } else {
            first_solution(events)
        }),
        states.last().attempts == (states[0].attempts + total_attempts(events))
            % 0x1_0000_0000_0000_0000,
        states.last().stop == (states[0].stop || any_request(requests) || first_solution(
            events,
        ) is Some),
    decreases events.len(),
{
    if events.len() > 0 {
        let n: int = events.len() - 1;
        let fewer = events.drop_last();
        lemma_stretch(states, requests, events, 0, n);
        assert(states.subrange(0, n + 1) =~= states.drop_last());
        assert(requests.subrange(0, n) =~= requests.drop_last());
        assert(events.subrange(0, n) =~= fewer);
        law_search_outcome(states.drop_last(), requests.drop_last(), fewer);
        assert(absorbs(with_request(states[n], requests[n]), events[n], states[n + 1]));
        let before: int = states[0].attempts + total_attempts(fewer);
        let more: int = attempts_of(events[n]) as int;
        let m: int = 0x1_0000_0000_0000_0000;
        lemma_add_mod_noop(before, more, m);
        lemma_add_mod_noop(before % m, more, m);
        lemma_mod_twice(before, m);
        assert(any_request(requests) == (any_request(requests.drop_last()) || requests[n])) by {
            if any_request(requests.drop_last()) {
                let i = choose|i: int| 0 <= i < n && #[trigger] requests.drop_last()[i];
                assert(requests[i]);
            }
            if any_request(requests) && !requests[n] {
                let i = choose|i: int| 0 <= i < requests.len() && #[trigger] requests[i];
                assert(requests.drop_last()[i]);
            }
        }
    } else {
        lemma_small_mod(states[0].attempts as nat, 0x1_0000_0000_0000_0000);
    }
}

/// A stretch of a history is a history.
pub proof fn lemma_stretch(
    states: Seq<Search>,
    requests: Seq<bool>,
    events: Seq<WorkerEvent>,
    from: int,
    to: int,
)
    requires
        is_history(states, requests, events),
        0 <= from <= to <= events.len(),
    ensures
        is_history(
            states.subrange(from, to + 1),
            requests.subrange(from, to),
            events.subrange(from, to),
        ),
{
    let part = events.subrange(from, to);
    assert forall|i: int| 0 <= i < part.len() implies absorbs(
        with_request(states.subrange(from, to + 1)[i], requests.subrange(from, to)[i]),
        #[trigger] part[i],
        states.subrange(from, to + 1)[i + 1],
    ) by {
        assert(part[i] == events[from + i]);
    }
}

/// No thread ends a search in vain: where one ends, the search is left with a
/// solution, unless the threads were told to stop.
pub proof fn law_search_ends_for_a_reason(
    states: Seq<Search>,
    requests: Seq<bool>,
    events: Seq<WorkerEvent>,
    i: int,
)
    requires
        is_history(states, requests, events),
        !states[0].stop,
        0 <= i < events.len(),
        ends_thread(with_request(states[i], requests[i]), events[i]),
    ensures
        states.last().solution is Some || any_request(requests),
{
    law_search_outcome(states, requests, events);
    law_solution_was_found(events);
    if !(events[i] is Found) && !requests[i] {
        let part = events.subrange(0, i);
        lemma_stretch(states, requests, events, 0, i);
        law_search_outcome(states.subrange(0, i + 1), requests.subrange(0, i), part);
        law_solution_was_found(part);
        if any_request(requests.subrange(0, i)) {
            let k = choose|k: int| 0 <= k < i && #[trigger] requests.subrange(0, i)[k];
            assert(requests[k]);
        } else {
            let k = choose|k: int| 0 <= k < part.len() && #[trigger] part[k] is Found;
            assert(events[k] is Found);
        }
    }
}

/// The threads that are to stop do: from then on each ends with the next report
/// or solution that it brings.
pub proof fn law_stop_is_heeded(
    states: Seq<Search>,
    requests: Seq<bool>,
    events: Seq<WorkerEvent>,
    i: int,
    j: int,
)
    requires
        is_history(states, requests, events),
        0 <= i <= j < events.len(),
        states[i].stop || requests[i],
        !(events[j] is Continue),
    ensures
        ends_thread(with_request(states[j], requests[j]), events[j]),
{
    if i < j {
        lemma_stretch(states, requests, events, i, j);
        law_search_outcome(
            states.subrange(i, j + 1),
            requests.subrange(i, j),
            events.subrange(i, j),
        );
        assert(requests.subrange(i, j)[0] == requests[i]);
    }
}

/// A search whose threads nobody tells to stop ends only with a solution: its
/// threads are to stop exactly if they were from the start or there is one, and
/// where a thread ends in a search that began without the wish to stop, there
/// is one.
pub proof fn law_undisturbed_search(states: Seq<Search>, events: Seq<WorkerEvent>)
    requires
        states.len() == events.len() + 1,
        states[0].wf(),
        forall|i: int|
            0 <= i < events.len() ==> absorbs(states[i], #[trigger] events[i], states[i + 1]),
    ensures
        states.last().stop == (states[0].stop || states.last().solution is Some),
        !states[0].stop ==> forall|i: int|
            0 <= i < events.len() && ends_thread(states[i], #[trigger] events[i])
                ==> states.last().solution is Some,
{
    let requests = Seq::new(events.len(), |i: int| false);
    law_search_outcome(states, requests, events);
    if !states[0].stop {
        assert forall|i: int|
            0 <= i < events.len() && ends_thread(
                states[i],
                #[trigger] events[i],
            ) implies states.last().solution is Some by {
            law_search_ends_for_a_reason(states, requests, events, i);
        }
    }
}

/// A search has a solution exactly if some worker found one, and the solution
/// is one that a worker found.
pub proof fn law_solution_was_found(events: Seq<WorkerEvent>)
    ensures
        first_solution(events) is Some <==> exists|i: int|
            0 <= i < events.len() && #[trigger] events[i] is Found,
        first_solution(events) is Some ==> exists|i: int|
            0 <= i < events.len() && solution_of(#[trigger] events[i]) == first_solution(events),
    decreases events.len(),
{
    if events.len() > 0 {
        let fewer = events.drop_last();
        law_solution_was_found(fewer);
        assert(forall|i: int| 0 <= i < fewer.len() ==> fewer[i] == #[trigger] events[i]);
        assert(events.last() == events[events.len() - 1]);
        if first_solution(fewer) is Some {
            let i = choose|i: int|
                0 <= i < fewer.len() && solution_of(#[trigger] fewer[i]) == first_solution(fewer);
            assert(events[i] == fewer[i]);
            assert(events[i] is Found);
        } else if exists|i: int| 0 <= i < events.len() && #[trigger] events[i] is Found {
            let i = choose|i: int| 0 <= i < events.len() && #[trigger] events[i] is Found;
            if i < fewer.len() {
                assert(fewer[i] is Found);
            }
        }
    }
}

/// A nonce that is found ends its thread, stops the others, counts its attempts
/// and becomes the solution unless there is one.
pub proof fn law_found_nonce_is_kept(pre: Search, nonce: U256, attempts: u64, post: Search)
    requires
        absorbs(pre, WorkerEvent::Found { nonce, attempts }, post),
    ensures
        post.stop,
        post.solution is Some,
        pre.solution is None ==> post.solution == Some(nonce),
        pre.solution is Some ==> post.solution == pre.solution,
        post.attempts == (pre.attempts + attempts) % 0x1_0000_0000_0000_0000,
        ends_thread(pre, WorkerEvent::Found { nonce, attempts }),
{
}

/// A report counts its attempts and changes nothing else, and ends its thread
/// exactly if the threads are to stop.
pub proof fn law_report_only_counts(pre: Search, attempts: u64, post: Search)
    requires
        absorbs(pre, WorkerEvent::Report { attempts }, post),
    ensures
        post.stop == pre.stop,
        post.solution == pre.solution,
        post.attempts == (pre.attempts + attempts) % 0x1_0000_0000_0000_0000,
        ends_thread(pre, WorkerEvent::Report { attempts }) == pre.stop,
{
}

/// In which order two threads come to a search matters only for whose nonce is
/// kept: the count, the wish to stop and whether there is a solution are the
/// same.
pub proof fn law_order_of_threads_is_free(
    start: Search,
    e1: WorkerEvent,
    e2: WorkerEvent,
    a: Search,
    ab: Search,
    b: Search,
    ba: Search,
)
    requires
        absorbs(start, e1, a),
        absorbs(a, e2, ab),
        absorbs(start, e2, b),
        absorbs(b, e1, ba),
    ensures
        ab.attempts == ba.attempts,
        ab.stop == ba.stop,
        ab.solution is Some == ba.solution is Some,
        !(e1 is Found && e2 is Found) ==> ab == ba,
{
    let m: int = 0x1_0000_0000_0000_0000;
    let n1: int = attempts_of(e1) as int;
    let n2: int = attempts_of(e2) as int;
    lemma_add_mod_noop(start.attempts + n1, n2, m);
    lemma_add_mod_noop((start.attempts + n1) % m, n2, m);
    lemma_mod_twice(start.attempts + n1, m);
    lemma_add_mod_noop(start.attempts + n2, n1, m);
    lemma_add_mod_noop((start.attempts + n2) % m, n1, m);
    lemma_mod_twice(start.attempts + n2, m);
}

} // verus!
