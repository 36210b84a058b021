//! The rounds of a mining session, as a state machine.
//!
//! The program performs an action, reports what came of it as an event, and
//! gets the next action. A round reads the contract, mines a nonce, has the
//! contract check it, submits it and waits for the outcome.
use crate::bindings::wrapping_sum;
use crate::proof_of_work::difficulty_value;
use crate::proof_of_work::law_difficulty_is_next;
use crate::proof_of_work::target_to_difficulty;
use crate::proof_of_work::target_value;
use crate::status::wallet_cap;
use crate::status::Status;
use crate::status::Verdict;
use crate::u256::law_view_injective;
use crate::u256::lemma_below_modulus;
use crate::u256::modulus;
use crate::u256::U256;
use vstd::arithmetic::div_mod::lemma_add_mod_noop;
use vstd::arithmetic::div_mod::lemma_mod_twice;
use vstd::arithmetic::div_mod::lemma_small_mod;
use vstd::arithmetic::power2::lemma_pow2_pos;
use vstd::arithmetic::power2::pow2;
use vstd::prelude::*;

verus! {

/// Seconds to wait before the contract is read again after a failure.
pub const STATUS_RETRY_SECS: u64 = 15;

/// Seconds to wait after the challenge could not be read.
pub const CHALLENGE_RETRY_SECS: u64 = 5;

/// What the session waits for.
#[derive(Clone, Copy, Debug, PartialEq, Eq)]
pub enum Phase {
    /// The start of a round.
    Idle,
    /// The state of the contract.
    AwaitingStatus,
    /// The challenge of the round.
    AwaitingChallenge { status: Status },
    /// The end of the search.
    Mining { status: Status },
    /// What the contract says of the nonce.
    Checking { status: Status, nonce: U256 },
    /// The outcome of the transaction.
    Submitting { status: Status, nonce: U256 },
    /// That the round is summed up.
    Summarizing,
    /// Nothing more.
    Stopped,
}

/// What became of a transaction.
#[derive(Clone, Copy, Debug, PartialEq, Eq, Structural)]
pub enum Settlement {
    /// It was mined and did what it should.
    Confirmed,
    /// It was mined and was undone.
    Reverted,
    /// No receipt could be had.
    ReceiptFailed,
    /// No receipt came in time.
    TimedOut,
    /// It could not be sent.
    SendFailed,
}

/// What came of an action.
#[derive(Clone, Copy, Debug, PartialEq, Eq)]
pub enum Event {
    /// A round may start; `shutdown` tells whether the user wants to stop.
    RoundDue { shutdown: bool },
    StatusRead { status: Status },
    StatusFailed,
    ChallengeRead { challenge: [u8; 32] },
    ChallengeFailed,
    /// The search ended after so many attempts.
    SearchEnded { solution: Option<U256>, attempts: u64 },
    /// The contract's answer on the nonce.
    NonceChecked { valid: bool },
    CheckFailed,
    Settled { settlement: Settlement },
    /// The round is summed up; `shutdown` as above.
    Summarized { shutdown: bool },
}

/// Why a session ends.
#[derive(Clone, Copy, Debug, PartialEq, Eq, Structural)]
pub enum StopReason {
    Shutdown,
    MaxSupplyReached,
    WalletCapReached,
}

/// What to do next.
#[derive(Clone, Copy, Debug, PartialEq, Eq)]
pub enum Action {
    ReadStatus,
    ReadChallenge,
    /// Search a nonce whose hash is at most the target. The difficulty is the
    /// exclusive bound for a kernel that compares with it.
    Mine { challenge: [u8; 32], target: U256, difficulty: U256 },
    CheckNonce { nonce: U256 },
    Submit { nonce: U256 },
    Summarize,
    /// Let so many seconds pass, then start the next round.
    Pause { seconds: u64 },
    /// Start the next round.
    NextRound,
    Stop { reason: StopReason },
}

/// A mining session.
#[derive(Clone, Copy, Debug, PartialEq, Eq)]
pub struct Session {
    pub phase: Phase,
    /// Rounds that were started.
    pub rounds: u64,
    /// Attempts in all searches.
    pub attempts: u64,
    /// Transactions that were confirmed.
    pub mints: u64,
    /// The base units that the confirmed transactions were expected to give.
    pub earned: U256,
    /// Seconds between two rounds.
    pub pause_secs: u64,
}

impl Phase {
    /// Whether a round has started and can still be confirmed.
    pub open spec fn in_round(self) -> bool {
        self is AwaitingStatus || self is AwaitingChallenge || self is Mining || self is Checking
            || self is Submitting
    }

    /// The status of the round, in the phases that have one.
    pub open spec fn status(self) -> Option<Status> {
        match self {
            Phase::AwaitingChallenge { status } => Some(status),
            Phase::Mining { status } => Some(status),
            Phase::Checking { status, nonce: _ } => Some(status),
            Phase::Submitting { status, nonce: _ } => Some(status),
            _ => None,
        }
    }

    /// Whether an event can come in this phase.
    pub open spec fn expects(self, event: Event) -> bool {
        match event {
            Event::RoundDue { .. } => self is Idle,
            Event::StatusRead { status } => self is AwaitingStatus && status.wf(),
            Event::StatusFailed => self is AwaitingStatus,
            Event::ChallengeRead { .. } | Event::ChallengeFailed => self is AwaitingChallenge,
            Event::SearchEnded { .. } => self is Mining,
            Event::NonceChecked { .. } | Event::CheckFailed => self is Checking,
            Event::Settled { .. } => self is Submitting,
            Event::Summarized { .. } => self is Summarizing,
        }
    }
}

/// The rounds that an event starts.
pub open spec fn rounds_of(event: Event) -> nat {
    if event == (Event::RoundDue { shutdown: false }) {
        1
    } else {
        0
    }
}

/// The attempts that an event reports.
pub open spec fn attempts_of(event: Event) -> nat {
    match event {
        Event::SearchEnded { solution: _, attempts } => attempts as nat,
        _ => 0,
    }
}

/// The confirmed transactions that an event reports.
pub open spec fn mints_of(event: Event) -> nat {
    if event == (Event::Settled { settlement: Settlement::Confirmed }) {
        1
    } else {
        0
    }
}

/// The base units that an event is expected to bring in a phase.
pub open spec fn earned_of(phase: Phase, event: Event) -> nat {
    match phase {
        Phase::Submitting { status, nonce: _ } if mints_of(event) == 1 => status.next_mint@,
        _ => 0,
    }
}

/// The phase and the action that follow an event.
pub open spec fn follows(pre: Session, event: Event, phase: Phase, action: Action) -> bool {
    match event {
        Event::RoundDue { shutdown } => if shutdown {
            phase is Stopped && action == (Action::Stop { reason: StopReason::Shutdown })
        } else {
            phase is AwaitingStatus && action is ReadStatus
        },
        Event::StatusRead { status } => if status.total_minted@ >= status.max_supply@ {
            phase is Stopped && action == (Action::Stop { reason: StopReason::MaxSupplyReached })
        } else if status.wallet_minted@ >= wallet_cap() {
            phase is Stopped && action == (Action::Stop { reason: StopReason::WalletCapReached })
        } else {
            phase == (Phase::AwaitingChallenge { status }) && action is ReadChallenge
        },
        Event::StatusFailed => phase is Idle && action == (Action::Pause {
            seconds: STATUS_RETRY_SECS,
        }),
        Event::ChallengeRead { challenge } => match pre.phase {
            Phase::AwaitingChallenge { status } => {
                &&& phase == (Phase::Mining { status })
                &&& action matches Action::Mine { challenge: c, target: t, difficulty: d }
                &&& c == challenge
                &&& t == status.target
                &&& d@ == difficulty_value(status.target@)
            },
            _ => false,
        },
        Event::ChallengeFailed => phase is Idle && action == (Action::Pause {
            seconds: CHALLENGE_RETRY_SECS,
        }),
        Event::SearchEnded { solution, attempts: _ } => match (pre.phase, solution) {
            (Phase::Mining { status }, Some(nonce)) => phase == (Phase::Checking { status, nonce })
                && action == (Action::CheckNonce { nonce }),
            (_, None) => phase is Idle && action is NextRound,
            _ => false,
        },
        Event::NonceChecked { valid: false } => phase is Idle && action is NextRound,
        Event::NonceChecked { valid: true } | Event::CheckFailed => match pre.phase {
            Phase::Checking { status, nonce } => phase == (Phase::Submitting { status, nonce })
                && action == (Action::Submit { nonce }),
            _ => false,
        },
        Event::Settled { .. } => phase is Summarizing && action is Summarize,
        Event::Summarized { shutdown } => phase is Idle && action == (if !shutdown
            && pre.pause_secs > 0 {
            Action::Pause { seconds: pre.pause_secs }
        } else {
            Action::NextRound
        }),
    }
}

/// The whole step of a session: what follows the event, and what the event adds
/// to the totals.
pub open spec fn steps(pre: Session, event: Event, post: Session, action: Action) -> bool {
    &&& follows(pre, event, post.phase, action)
    &&& post.rounds == pre.rounds + rounds_of(event)
    &&& post.attempts == pre.attempts + attempts_of(event)
    &&& post.mints == pre.mints + mints_of(event)
    &&& post.earned@ == (pre.earned@ + earned_of(pre.phase, event)) % modulus()
    &&& post.pause_secs == pre.pause_secs
}

impl Session {
    /// A status in the phase leaves something to mine and has its own target,
    /// and every confirmed transaction belongs to a round of its own.
    pub open spec fn wf(self) -> bool {
        &&& self.phase.status() matches Some(status) ==> status.wf() && status.mineable()
        &&& self.mints + (if self.phase.in_round() {
            1int
        } else {
            0
        }) <= self.rounds
    }

    /// Whether an event can come now, with totals that stay within their types.
    pub open spec fn accepts(self, event: Event) -> bool {
        &&& self.phase.expects(event)
        &&& self.rounds + rounds_of(event) <= u64::MAX
        &&& self.attempts + attempts_of(event) <= u64::MAX
        &&& self.mints + mints_of(event) <= u64::MAX
    }

    /// A session before its first round.
    pub fn new(pause_secs: u64) -> (r: Session)
        ensures
            r.wf(),
            r.phase == Phase::Idle,
            r.rounds == 0,
            r.attempts == 0,
            r.mints == 0,
            r.earned@ == 0,
            r.pause_secs == pause_secs,
    {
        Session {
            phase: Phase::Idle,
            rounds: 0,
            attempts: 0,
            mints: 0,
            earned: U256::zero(),
            pause_secs,
        }
    }

    /// Whether an event can come now.
    pub fn can_take(&self, event: &Event) -> (r: bool)
        ensures
            r == self.accepts(*event),
    {
        match *event {
            Event::RoundDue { shutdown } => matches!(self.phase, Phase::Idle) && (shutdown
                || self.rounds < u64::MAX),
            Event::StatusRead { status } => matches!(self.phase, Phase::AwaitingStatus)
                && status.is_wf(),
            Event::StatusFailed => matches!(self.phase, Phase::AwaitingStatus),
            Event::ChallengeRead { .. } | Event::ChallengeFailed => matches!(
                self.phase,
                Phase::AwaitingChallenge { .. }
            ),
            Event::SearchEnded { solution: _, attempts } => matches!(
                self.phase,
                Phase::Mining { .. }
            ) && attempts <= u64::MAX - self.attempts,
            Event::NonceChecked { .. } | Event::CheckFailed => matches!(
                self.phase,
                Phase::Checking { .. }
            ),
            Event::Settled { settlement } => matches!(self.phase, Phase::Submitting { .. }) && (
            settlement != Settlement::Confirmed || self.mints < u64::MAX),
            Event::Summarized { .. } => matches!(self.phase, Phase::Summarizing),
        }
    }

    /// Takes an event and tells what to do next.
    pub fn step(&mut self, event: Event) -> (action: Action)
        requires
            old(self).wf(),
            old(self).accepts(event),
        ensures
            final(self).wf(),
            steps(*old(self), event, *final(self), action),
    {
        proof {
            lemma_below_modulus(self.earned);
            lemma_small_mod(self.earned@, modulus());
        }
        match event {
            Event::RoundDue { shutdown } => {
                if shutdown {
                    self.phase = Phase::Stopped;
                    Action::Stop { reason: StopReason::Shutdown }
                } else {
                    self.rounds = self.rounds + 1;
                    self.phase = Phase::AwaitingStatus;
                    Action::ReadStatus
                }
            },
            Event::StatusRead { status } => match status.assess() {
                Verdict::MaxSupplyReached => {
                    self.phase = Phase::Stopped;
                    Action::Stop { reason: StopReason::MaxSupplyReached }
                },
                Verdict::WalletCapReached => {
                    self.phase = Phase::Stopped;
                    Action::Stop { reason: StopReason::WalletCapReached }
                },
                Verdict::Mine => {
                    self.phase = Phase::AwaitingChallenge { status };
                    Action::ReadChallenge
                },
            },
            Event::StatusFailed => {
                self.phase = Phase::Idle;
                Action::Pause { seconds: STATUS_RETRY_SECS }
            },
            Event::ChallengeRead { challenge } => match self.phase {
                Phase::AwaitingChallenge { status } => {
                    self.phase = Phase::Mining { status };
                    Action::Mine {
                        challenge,
                        target: status.target,
                        difficulty: target_to_difficulty(status.target),
                    }
                },
                _ => Action::NextRound,
            },
            Event::ChallengeFailed => {
                self.phase = Phase::Idle;
                Action::Pause { seconds: CHALLENGE_RETRY_SECS }
            },
            Event::SearchEnded { solution, attempts } => {
                self.attempts = self.attempts + attempts;
                match (self.phase, solution) {
                    (Phase::Mining { status }, Some(nonce)) => {
                        self.phase = Phase::Checking { status, nonce };
                        Action::CheckNonce { nonce }
                    },
                    _ => {
                        self.phase = Phase::Idle;
                        Action::NextRound
                    },
                }
            },
            Event::NonceChecked { valid: false } => {
                self.phase = Phase::Idle;
                Action::NextRound
            },
            Event::NonceChecked { valid: true } | Event::CheckFailed => match self.phase {
                Phase::Checking { status, nonce } => {
                    self.phase = Phase::Submitting { status, nonce };
                    Action::Submit { nonce }
                },
                _ => Action::NextRound,
            },
            Event::Settled { settlement } => {
                if let Phase::Submitting { status, nonce: _ } = self.phase {
                    if settlement == Settlement::Confirmed {
                        self.mints = self.mints + 1;
                        self.earned = wrapping_sum(self.earned, status.next_mint);
                    }
                }
                self.phase = Phase::Summarizing;
                Action::Summarize
            },
            Event::Summarized { shutdown } => {
                self.phase = Phase::Idle;
                if !shutdown && self.pause_secs > 0 {
                    Action::Pause { seconds: self.pause_secs }
                } else {
                    Action::NextRound
                }
            },
        }
    }
}

/// Every step keeps the invariant of a session.
pub proof fn law_step_keeps_invariant(pre: Session, event: Event, post: Session, action: Action)
    requires
        pre.wf(),
        pre.accepts(event),
        steps(pre, event, post, action),
    ensures
        post.wf(),
{
}

/// A stopped session takes no more events.
pub proof fn law_stopped_is_final(session: Session, event: Event)
    requires
        session.phase is Stopped,
    ensures
        !session.accepts(event),
{
}

/// A session stops exactly when the user wants it at the start of a round, when
/// all tokens are minted, or when the wallet has reached its limit.
pub proof fn law_stop_reasons(pre: Session, event: Event, post: Session, action: Action)
    requires
        pre.accepts(event),
        steps(pre, event, post, action),
    ensures
        post.phase is Stopped <==> action is Stop,
        action == (Action::Stop { reason: StopReason::Shutdown }) <==> event == (Event::RoundDue {
            shutdown: true,
        }),
        action == (Action::Stop { reason: StopReason::MaxSupplyReached }) <==> event is StatusRead
            && event->status.total_minted@ >= event->status.max_supply@,
        action == (Action::Stop { reason: StopReason::WalletCapReached }) <==> event is StatusRead
            && event->status.total_minted@ < event->status.max_supply@
            && event->status.wallet_minted@ >= wallet_cap(),
{
}

/// The history of a session: `states[i]` takes `events[i]`, does `actions[i]`
/// and becomes `states[i + 1]`.
pub open spec fn is_history(
    states: Seq<Session>,
    events: Seq<Event>,
    actions: Seq<Action>,
) -> bool {
    &&& states.len() == events.len() + 1
    &&& actions.len() == events.len()
    &&& states[0].phase is Idle
    &&& states[0].rounds == 0
    &&& states[0].attempts == 0
    &&& states[0].mints == 0
    &&& states[0].earned@ == 0
    &&& forall|i: int| #![trigger events[i]]
        0 <= i < events.len() ==> states[i].accepts(events[i]) && steps(
            states[i],
            events[i],
            states[i + 1],
            actions[i],
        )
}

/// The rounds that events start, in total.
pub open spec fn total_rounds(events: Seq<Event>) -> nat
    decreases events.len(),
{
    if events.len() == 0 {
        0
    } else {
        total_rounds(events.drop_last()) + rounds_of(events.last())
    }
}

/// The attempts that events report, in total.
pub open spec fn total_attempts(events: Seq<Event>) -> nat
    decreases events.len(),
{
    if events.len() == 0 {
        0
    } else {
        total_attempts(events.drop_last()) + attempts_of(events.last())
    }
}

/// The confirmed transactions that events report, in total.
pub open spec fn total_mints(events: Seq<Event>) -> nat
    decreases events.len(),
{
    if events.len() == 0 {
        0
    } else {
        total_mints(events.drop_last()) + mints_of(events.last())
    }
}

/// The base units that events are expected to bring, in total.
pub open spec fn total_earned(states: Seq<Session>, events: Seq<Event>) -> nat
    decreases events.len(),
{
    if events.len() == 0 {
        0
    } else {
        total_earned(states.drop_last(), events.drop_last()) + earned_of(
            states[events.len() - 1].phase,
            events.last(),
        )
    }
}

/// A history without its last step is a history.
proof fn lemma_shorter_history(states: Seq<Session>, events: Seq<Event>, actions: Seq<Action>)
    requires
        is_history(states, events, actions),
        events.len() > 0,
    ensures
        is_history(states.drop_last(), events.drop_last(), actions.drop_last()),
{
    let fewer = events.drop_last();
    assert forall|i: int| #![trigger fewer[i]] 0 <= i < fewer.len() implies states.drop_last()[i].accepts(
        fewer[i],
    ) && steps(
        states.drop_last()[i],
        fewer[i],
        states.drop_last()[i + 1],
        actions.drop_last()[i],
    ) by {
        assert(fewer[i] == events[i]);
    }
}

/// The totals of a session are the sums over its events: rounds started,
/// attempts made, transactions confirmed, and, modulo 2^256, what the confirmed
/// ones were expected to give. No two confirmations fall into one round.
pub proof fn law_totals_are_sums(
    states: Seq<Session>,
    events: Seq<Event>,
    actions: Seq<Action>,
)
    requires
        is_history(states, events, actions),
    ensures
        states.last().rounds == total_rounds(events),
        states.last().attempts == total_attempts(events),
        states.last().mints == total_mints(events),
        states.last().earned@ == total_earned(states, events) % modulus(),
        states.last().wf(),
        total_mints(events) <= total_rounds(events),
    decreases events.len(),
{
    lemma_pow2_pos(256);
    if events.len() == 0 {
        lemma_small_mod(0, modulus());
    } else {
        let n = events.len() - 1;
        lemma_shorter_history(states, events, actions);
        law_totals_are_sums(states.drop_last(), events.drop_last(), actions.drop_last());
        assert(states.drop_last().last() == states[n]);
        assert(events.last() == events[n]);
        law_step_keeps_invariant(states[n], events[n], states[n + 1], actions[n]);
        let before = total_earned(states.drop_last(), events.drop_last()) as int;
        let gain = earned_of(states[n].phase, events[n]) as int;
        let m = modulus() as int;
        lemma_add_mod_noop(before, gain, m);
        lemma_add_mod_noop(before % m, gain, m);
        lemma_mod_twice(before, m);
    }
}

/// The invariant holds in every state of a history.
proof fn lemma_invariant_in_history(
    states: Seq<Session>,
    events: Seq<Event>,
    actions: Seq<Action>,
    i: int,
)
    requires
        is_history(states, events, actions),
        0 <= i < states.len(),
    ensures
        states[i].wf(),
    decreases i,
{
    if i > 0 {
        lemma_invariant_in_history(states, events, actions, i - 1);
        let event = events[i - 1];
        law_step_keeps_invariant(states[i - 1], event, states[i], actions[i - 1]);
    }
}

/// A nonce is submitted only in a round that read a status with something left
/// to mine, searched at the target of that status, ended the search with this
/// nonce, and was not told by the contract that the nonce is invalid.
pub proof fn law_submission_is_earned(
    states: Seq<Session>,
    events: Seq<Event>,
    actions: Seq<Action>,
    i: int,
)
    requires
        is_history(states, events, actions),
        0 <= i < events.len(),
        actions[i] is Submit,
    ensures
        i >= 4,
        events[i - 4] == (Event::RoundDue { shutdown: false }),
        events[i - 3] is StatusRead,
        events[i - 3]->status.wf(),
        events[i - 3]->status.mineable(),
        actions[i - 2] is Mine,
        actions[i - 2]->target == events[i - 3]->status.target,
        events[i - 2] == (Event::ChallengeRead { challenge: actions[i - 2]->challenge }),
        events[i - 1] is SearchEnded,
        events[i - 1]->solution == Some(actions[i]->Submit_nonce),
        events[i] != (Event::NonceChecked { valid: false }),
{
    let e4 = events[i];
    lemma_invariant_in_history(states, events, actions, i);
    assert(states[i].phase is Checking);
    let e3 = events[i - 1];
    assert(states[i - 1].phase is Mining);
    let e2 = events[i - 2];
    assert(states[i - 2].phase is AwaitingChallenge);
    let e1 = events[i - 3];
    assert(states[i - 3].phase is AwaitingStatus);
    let e0 = events[i - 4];
    assert(states[i - 4].phase is Idle);
}

/// Mining starts only when there is something left to mine, at the target that
/// belongs to the contract's number of hexadecimal zeros.
pub proof fn law_mining_is_allowed(pre: Session, event: Event, post: Session, action: Action)
    requires
        pre.wf(),
        pre.accepts(event),
        steps(pre, event, post, action),
        action is Mine,
    ensures
        post.phase is Mining,
        post.phase->Mining_status.mineable(),
        action->target@ == target_value(post.phase->Mining_status.hex_zeros@),
        action->difficulty@ == difficulty_value(action->target@),
{
}

/// A session takes an event exactly when it waits for it, whatever the event
/// says: each phase takes each answer to the action that led to it, as long as
/// the totals stay below 2^64 and a status has the target of its number of
/// hexadecimal zeros.
pub proof fn law_awaited_event_is_taken(session: Session, event: Event)
    ensures
        session.accepts(event) <==> match event {
            Event::RoundDue { shutdown } => session.phase is Idle && (shutdown || session.rounds
                < 0xFFFF_FFFF_FFFF_FFFF),
            Event::StatusRead { status } => session.phase is AwaitingStatus && status.target@ == (
            modulus() - 1) as nat / pow2(4 * status.hex_zeros@),
            Event::StatusFailed => session.phase is AwaitingStatus,
            Event::ChallengeRead { challenge: _ } => session.phase is AwaitingChallenge,
            Event::ChallengeFailed => session.phase is AwaitingChallenge,
            Event::SearchEnded { solution: _, attempts } => session.phase is Mining
                && session.attempts + attempts <= 0xFFFF_FFFF_FFFF_FFFF,
            Event::NonceChecked { valid: _ } => session.phase is Checking,
            Event::CheckFailed => session.phase is Checking,
            Event::Settled { settlement } => session.phase is Submitting && (settlement
                != Settlement::Confirmed || session.mints < 0xFFFF_FFFF_FFFF_FFFF),
            Event::Summarized { shutdown: _ } => session.phase is Summarizing,
        },
{
}

/// A round that the user does not call off reads the state of the contract.
pub proof fn law_round_reads_status(pre: Session, post: Session, action: Action)
    requires
        steps(pre, Event::RoundDue { shutdown: false }, post, action),
    ensures
        action is ReadStatus,
        post.phase is AwaitingStatus,
        post.rounds == pre.rounds + 1,
{
}

/// As long as tokens are left and the wallet has minted fewer than ten thousand,
/// a round goes on to the challenge, whatever the other figures are.
pub proof fn law_mineable_status_is_mined(
    pre: Session,
    status: Status,
    post: Session,
    action: Action,
)
    requires
        steps(pre, Event::StatusRead { status }, post, action),
        status.total_minted@ < status.max_supply@,
        status.wallet_minted@ < 10_000_000_000_000_000_000_000,
    ensures
        action is ReadChallenge,
        post.phase == (Phase::AwaitingChallenge { status }),
{
}

/// A status that leaves nothing to mine ends the session: all tokens minted, or
/// ten thousand by the wallet, told in this order.
pub proof fn law_nothing_to_mine_stops(
    pre: Session,
    status: Status,
    post: Session,
    action: Action,
)
    requires
        steps(pre, Event::StatusRead { status }, post, action),
        status.total_minted@ >= status.max_supply@ || status.wallet_minted@
            >= 10_000_000_000_000_000_000_000,
    ensures
        post.phase is Stopped,
        action is Stop,
        status.total_minted@ >= status.max_supply@ <==> action == (Action::Stop {
            reason: StopReason::MaxSupplyReached,
        }),
        status.total_minted@ < status.max_supply@ <==> action == (Action::Stop {
            reason: StopReason::WalletCapReached,
        }),
{
}

/// What could not be read is read again in a new round: the state of the
/// contract after fifteen seconds, the challenge after five.
pub proof fn law_failed_reading_is_retried(
    pre: Session,
    event: Event,
    post: Session,
    action: Action,
)
    requires
        steps(pre, event, post, action),
        event is StatusFailed || event is ChallengeFailed,
    ensures
        post.phase is Idle,
        action is Pause,
        event is StatusFailed ==> action->seconds == 15,
        event is ChallengeFailed ==> action->seconds == 5,
{
}

/// The challenge that was read is mined, with the target of the status of the
/// round and with the difficulty that goes with it.
pub proof fn law_challenge_is_mined(
    pre: Session,
    status: Status,
    challenge: [u8; 32],
    post: Session,
    action: Action,
)
    requires
        pre.phase == (Phase::AwaitingChallenge { status }),
        steps(pre, Event::ChallengeRead { challenge }, post, action),
    ensures
        action is Mine,
        action->Mine_challenge == challenge,
        action->target == status.target,
        status.target@ < modulus() - 1 ==> action->difficulty@ == status.target@ + 1,
        status.target@ == modulus() - 1 ==> action->difficulty@ == status.target@,
        post.phase == (Phase::Mining { status }),
{
    lemma_below_modulus(status.target);
    law_difficulty_is_next(status.target@);
}

/// The nonce that a search ends with is handed to the contract for a check, and
/// a search without one leads to the next round.
pub proof fn law_found_nonce_is_checked(
    pre: Session,
    status: Status,
    solution: Option<U256>,
    attempts: u64,
    post: Session,
    action: Action,
)
    requires
        pre.phase == (Phase::Mining { status }),
        steps(pre, Event::SearchEnded { solution, attempts }, post, action),
    ensures
        solution matches Some(nonce) ==> action == (Action::CheckNonce { nonce }) && post.phase
            == (Phase::Checking { status, nonce }),
        solution is None ==> action is NextRound && post.phase is Idle,
        post.attempts == pre.attempts + attempts,
{
}

/// The nonce that was checked is submitted, unless the contract refuses it; where
/// the contract gives no answer, it is submitted.
pub proof fn law_checked_nonce_is_submitted(
    pre: Session,
    status: Status,
    nonce: U256,
    event: Event,
    post: Session,
    action: Action,
)
    requires
        pre.phase == (Phase::Checking { status, nonce }),
        event is NonceChecked || event is CheckFailed,
        steps(pre, event, post, action),
    ensures
        event == (Event::NonceChecked { valid: false }) ==> action is NextRound && post.phase is
            Idle,
        event != (Event::NonceChecked { valid: false }) ==> action == (Action::Submit { nonce })
            && post.phase == (Phase::Submitting { status, nonce }),
{
}

/// Whatever became of a transaction, the round is summed up. Then the session
/// pauses for the time that is set, or goes on at once if none is set or the
/// user wants to stop.
pub proof fn law_settled_round_is_summed_up(
    pre: Session,
    event: Event,
    post: Session,
    action: Action,
)
    requires
        steps(pre, event, post, action),
    ensures
        event is Settled ==> action is Summarize && post.phase is Summarizing,
        event is Summarized ==> post.phase is Idle,
        event == (Event::Summarized { shutdown: false }) && pre.pause_secs > 0 ==> action == (
        Action::Pause { seconds: pre.pause_secs }),
        event is Summarized && (pre.pause_secs == 0 || event == (Event::Summarized {
            shutdown: true,
        })) ==> action is NextRound,
        post.pause_secs == pre.pause_secs,
{
}

/// What an event does to the totals: a started round counts one round, a search
/// its attempts, a confirmed transaction one mint and the tokens that the
/// contract announced in the status of the round. Nothing else changes them.
pub proof fn law_totals_change_by_events(
    pre: Session,
    event: Event,
    post: Session,
    action: Action,
)
    requires
        pre.accepts(event),
        steps(pre, event, post, action),
    ensures
        event == (Event::RoundDue { shutdown: false }) ==> post.rounds == pre.rounds + 1,
        event != (Event::RoundDue { shutdown: false }) ==> post.rounds == pre.rounds,
        event is SearchEnded ==> post.attempts == pre.attempts + event->attempts,
        !(event is SearchEnded) ==> post.attempts == pre.attempts,
        event == (Event::Settled { settlement: Settlement::Confirmed }) ==> {
            &&& post.mints == pre.mints + 1
            &&& pre.phase is Submitting
            &&& post.earned@ == (pre.earned@ + pre.phase->Submitting_status.next_mint@)
                % modulus()
        },
        event != (Event::Settled { settlement: Settlement::Confirmed }) ==> post.mints
            == pre.mints && post.earned == pre.earned,
{
    if event != (Event::Settled { settlement: Settlement::Confirmed }) {
        lemma_below_modulus(pre.earned);
        lemma_small_mod(pre.earned@, modulus());
        law_view_injective(post.earned, pre.earned);
    }
}

/// A confirmed transaction earns exactly what the contract announced as the next
/// mint when the state was read in the same round, four events before. No other
/// event changes what is earned, or the number of mints.
pub proof fn law_confirmed_mint_earns_the_announced(
    states: Seq<Session>,
    events: Seq<Event>,
    actions: Seq<Action>,
    i: int,
)
    requires
        is_history(states, events, actions),
        0 <= i < events.len(),
    ensures
        events[i] == (Event::Settled { settlement: Settlement::Confirmed }) ==> {
            &&& i >= 5
            &&& events[i - 4] is StatusRead
            &&& actions[i - 1] is Submit
            &&& states[i + 1].mints == states[i].mints + 1
            &&& states[i + 1].earned@ == (states[i].earned@ + events[i - 4]->status.next_mint@)
                % modulus()
        },
        events[i] != (Event::Settled { settlement: Settlement::Confirmed }) ==> {
            &&& states[i + 1].mints == states[i].mints
            &&& states[i + 1].earned == states[i].earned
        },
{
    let event = events[i];
    law_totals_change_by_events(states[i], event, states[i + 1], actions[i]);
    if event == (Event::Settled { settlement: Settlement::Confirmed }) {
        assert(states[i].phase is Submitting);
        let e4 = events[i - 1];
        assert(actions[i - 1] is Submit);
        law_submission_is_earned(states, events, actions, i - 1);
        assert(states[i - 1].phase is Checking);
        let e3 = events[i - 2];
        assert(states[i - 2].phase is Mining);
        let e2 = events[i - 3];
        assert(states[i - 3].phase is AwaitingChallenge);
        let e1 = events[i - 4];
        assert(states[i - 3].phase == (Phase::AwaitingChallenge { status: e1->status }));
        assert(states[i - 2].phase == (Phase::Mining { status: e1->status }));
        assert(states[i - 1].phase->Checking_status == e1->status);
        assert(states[i].phase->Submitting_status == e1->status);
    }
}

/// A round in which everything goes well: a status that leaves something to mine
/// leads to the challenge, the challenge to the search at the target of the
/// status, the nonce found to its check and to its submission, and the
/// confirmation to one more mint and to the announced tokens.
pub proof fn law_winning_round_goes_through(
    states: Seq<Session>,
    events: Seq<Event>,
    actions: Seq<Action>,
    i: int,
    status: Status,
    challenge: [u8; 32],
    nonce: U256,
    attempts: u64,
)
    requires
        is_history(states, events, actions),
        0 <= i,
        i + 6 <= events.len(),
        events[i] == (Event::RoundDue { shutdown: false }),
        events[i + 1] == (Event::StatusRead { status }),
        status.total_minted@ < status.max_supply@,
        status.wallet_minted@ < 10_000_000_000_000_000_000_000,
        events[i + 2] == (Event::ChallengeRead { challenge }),
        events[i + 3] == (Event::SearchEnded { solution: Some(nonce), attempts }),
        events[i + 4] == (Event::NonceChecked { valid: true }),
        events[i + 5] == (Event::Settled { settlement: Settlement::Confirmed }),
    ensures
        actions[i] is ReadStatus,
        actions[i + 1] is ReadChallenge,
        actions[i + 2] is Mine,
        actions[i + 2]->Mine_challenge == challenge,
        actions[i + 2]->target == status.target,
        actions[i + 3] == (Action::CheckNonce { nonce }),
        actions[i + 4] == (Action::Submit { nonce }),
        actions[i + 5] is Summarize,
        states[i + 6].rounds == states[i].rounds + 1,
        states[i + 6].attempts == states[i].attempts + attempts,
        states[i + 6].mints == states[i].mints + 1,
        states[i + 6].earned@ == (states[i].earned@ + status.next_mint@) % modulus(),
{
    law_confirmed_mint_earns_the_announced(states, events, actions, i);
    law_confirmed_mint_earns_the_announced(states, events, actions, i + 1);
    law_confirmed_mint_earns_the_announced(states, events, actions, i + 2);
    law_confirmed_mint_earns_the_announced(states, events, actions, i + 3);
    law_confirmed_mint_earns_the_announced(states, events, actions, i + 4);
    law_confirmed_mint_earns_the_announced(states, events, actions, i + 5);
    law_mineable_status_is_mined(states[i + 1], status, states[i + 2], actions[i + 1]);
    law_challenge_is_mined(states[i + 2], status, challenge, states[i + 3], actions[i + 2]);
}

} // verus!
