//! The worker that carries events to the fault manager: which failed events are sent
//! again, when, and how often.
//!
//! Points in time are nanoseconds on a monotonic clock, durations are nanoseconds.

use std::collections::VecDeque;
use vstd::arithmetic::power2::{lemma2_to64, lemma_pow2_pos, lemma_pow2_unfold, pow2};
use vstd::prelude::*;

use super::event_publisher::{lemma_sends_nothing, lemma_sends_push, sends, EventPublisher};
use super::fault_manager_sink::WorkerMsg;
use crate::common::enabling_condition::EnablingConditionNotification;
use crate::common::sink_error::SinkError;
use crate::common::types::DiagnosticEvent;

verus! {

/// How long the worker waits for a message before it looks after the retries.
pub const RECV_TIMEOUT_NANOS: u128 = 50_000_000;

/// How failed events are sent again.
#[derive(Clone, Copy, Debug)]
pub struct RetryConfig {
    /// Most retries per event; with none of them an event that could not be sent is dropped.
    pub max_retries: u32,
    /// Most events that wait for another attempt; with none of them nothing waits.
    pub cache_capacity: usize,
    /// Delay before the first retry; it doubles with each attempt.
    pub retry_interval: u128,
    /// Longest delay.
    pub max_retry_interval: u128,
}

impl Default for RetryConfig {
    /// Ten attempts, 512 events, delays from a tenth of a second up to five seconds.
    fn default() -> (r: Self)
        ensures
            r == (RetryConfig {
                max_retries: 10,
                cache_capacity: 512,
                retry_interval: 100_000_000,
                max_retry_interval: 5_000_000_000,
            }),
    {
        RetryConfig {
            max_retries: 10,
            cache_capacity: 512,
            retry_interval: 100_000_000,
            max_retry_interval: 5_000_000_000,
        }
    }
}

/// An event that waits for another attempt.
#[derive(Clone, Copy, Debug)]
pub struct CachedFault {
    /// The event.
    pub event: DiagnosticEvent,
    /// Attempts so far.
    pub attempts: u32,
    /// When the next attempt is due.
    pub next_retry: u128,
}

/// The delay before the next attempt: it doubles with each attempt, up to a limit.
pub open spec fn backoff(attempts: u32, config: RetryConfig) -> u128 {
    let grown = config.retry_interval * pow2(attempts as nat);
    if grown < config.max_retry_interval {
        grown as u128
    } else {
        config.max_retry_interval
    }
}

/// A point in time some nanoseconds later, as far as it can be told.
pub open spec fn later(t: u128, delay: u128) -> u128 {
    if t + delay <= u128::MAX {
        (t + delay) as u128
    } else {
        u128::MAX
    }
}

/// An attempt is made at a waiting event: its time has come, and it has attempts left.
pub open spec fn is_tried(c: CachedFault, now: u128, config: RetryConfig) -> bool {
    c.next_retry <= now && c.attempts < config.max_retries
}

/// What becomes of a waiting event when it is looked at: nothing before its time; when
/// its time has come it is gone if it has no attempts left, was sent, or has used up its
/// attempts with this one, and waits longer otherwise.
pub open spec fn after_attempt(
    c: CachedFault,
    outcome: Result<(), SinkError>,
    now: u128,
    config: RetryConfig,
) -> Option<CachedFault> {
    if c.next_retry > now {
        Some(c)
    } else if outcome is Err && c.attempts + 1 < config.max_retries {
        let attempts = (c.attempts + 1) as u32;
        Some(
            CachedFault {
                event: c.event,
                attempts,
                next_retry: later(now, backoff(attempts, config)),
            },
        )
    } else {
        None
    }
}

/// The events at which an attempt is made, in the order of the queue.
pub open spec fn tried_events(queue: Seq<CachedFault>, now: u128, config: RetryConfig) -> Seq<
    DiagnosticEvent,
> {
    waiting_events(queue.filter(|c: CachedFault| is_tried(c, now, config)))
}

/// The events of a queue, in its order.
pub open spec fn waiting_events(queue: Seq<CachedFault>) -> Seq<DiagnosticEvent> {
    queue.map_values(|c: CachedFault| c.event)
}

/// What becomes of a queue of waiting events, given what the attempts gave that are made.
/// Those that still wait keep their order.
pub open spec fn after_attempts(
    queue: Seq<CachedFault>,
    outcomes: Seq<Result<(), SinkError>>,
    now: u128,
    config: RetryConfig,
) -> Seq<CachedFault>
    decreases queue.len(),
{
    if queue.len() == 0 {
        seq![]
    } else if is_tried(queue.last(), now, config) {
        let before = after_attempts(queue.drop_last(), outcomes.drop_last(), now, config);
        match after_attempt(queue.last(), outcomes.last(), now, config) {
            Some(c) => before.push(c),
            None => before,
        }
    } else {
        let before = after_attempts(queue.drop_last(), outcomes, now, config);
        if queue.last().next_retry > now {
            before.push(queue.last())
        } else {
            before
        }
    }
}

/// The queue after one more event came to wait: if it is full, the oldest one leaves. A
/// queue that may hold nothing stays as it is.
pub open spec fn cached(
    queue: Seq<CachedFault>,
    event: DiagnosticEvent,
    now: u128,
    config: RetryConfig,
) -> Seq<CachedFault> {
    let entry = CachedFault { event, attempts: 0, next_retry: now };
    if config.cache_capacity == 0 {
        queue
    } else if queue.len() >= config.cache_capacity {
        queue.skip(1).push(entry)
    } else {
        queue.push(entry)
    }
}

/// The error may go away by itself.
pub open spec fn transient(error: SinkError) -> bool {
    match error {
        SinkError::TransportDown => true,
        SinkError::Timeout => true,
        SinkError::QueueFull => true,
        SinkError::RateLimited => true,
        _ => false,
    }
}

impl CachedFault {
    /// An event whose first attempt is due at once.
    pub fn new(event: DiagnosticEvent, now: u128) -> (r: Self)
        ensures
            r == (CachedFault { event, attempts: 0, next_retry: now }),
    {
        CachedFault { event, attempts: 0, next_retry: now }
    }

    /// The delay before the next attempt.
    pub fn backoff_delay(&self, config: &RetryConfig) -> (r: u128)
        ensures
            r == backoff(self.attempts, *config),
    {
        let limit: u128 = config.max_retry_interval;
        let mut delay: u128 = config.retry_interval;
        let mut i: u32 = 0;
        proof {
            lemma2_to64();
        }
        while i < self.attempts && 0 < delay && delay < limit
            invariant
                i <= self.attempts,
                limit == config.max_retry_interval,
                delay == config.retry_interval * pow2(i as nat),
            decreases self.attempts - i,
        {
            proof {
                lemma_doubled(config.retry_interval as nat, i as nat);
                lemma_growth(config.retry_interval as nat, (i + 1) as nat, self.attempts as nat);
            }
            match delay.checked_mul(2) {
                Some(doubled) => {
                    delay = doubled;
                },
                None => {
                    return limit;
                },
            }
            i += 1;
        }
        proof {
            lemma_growth(config.retry_interval as nat, i as nat, self.attempts as nat);
            lemma_pow2_pos(i as nat);
            assert(delay == 0 ==> config.retry_interval == 0) by (nonlinear_arith)
                requires
                    delay == config.retry_interval * pow2(i as nat),
                    pow2(i as nat) > 0,
            ;
            assert(0 * pow2(self.attempts as nat) == 0);
        }
        if delay < limit {
            delay
        } else {
            limit
        }
    }
}

/// One more attempt doubles the delay.
proof fn lemma_doubled(interval: nat, attempts: nat)
    ensures
        interval * pow2(attempts + 1) == 2 * (interval * pow2(attempts)),
{
    lemma_pow2_unfold(attempts + 1);
    let p = pow2(attempts);
    assert(interval * (2 * p) == 2 * (interval * p)) by (nonlinear_arith);
}

/// The delay does not shrink with more attempts.
proof fn lemma_growth(interval: nat, a: nat, b: nat)
    requires
        a <= b,
    ensures
        interval * pow2(a) <= interval * pow2(b),
    decreases b,
{
    if a < b {
        lemma_growth(interval, a, (b - 1) as nat);
        lemma_doubled(interval, (b - 1) as nat);
    }
}

/// What the worker gets when it waits for a message.
#[derive(Debug)]
pub enum WorkerInput {
    /// A message.
    Message(WorkerMsg),
    /// No message in time.
    Timeout,
    /// There will be no more messages.
    Disconnected,
}

/// What came of an action of the worker.
#[derive(Debug)]
pub enum WorkerEvent {
    /// The wait for a message is over.
    Received(WorkerInput),
    /// The one who started the worker was told.
    Acknowledged,
    /// An event was sent, or not.
    Published(DiagnosticEvent, Result<(), SinkError>),
    /// The retries that were due were made.
    Retried,
    /// The next notification of a changed enabling condition, if there was one.
    Polled(Result<Option<EnablingConditionNotification>, SinkError>),
    /// The notification was passed on.
    Notified,
}

/// What the worker is to do next.
#[derive(Debug)]
pub enum WorkerAction {
    /// Wait for a message, for a limited time.
    Receive,
    /// Tell the one who started the worker that it is running.
    Acknowledge,
    /// Send the event.
    Publish(DiagnosticEvent),
    /// Make the retries that are due.
    Retry,
    /// Take the next notification of a changed enabling condition, without waiting.
    Poll,
    /// Pass the notification on to the enabling conditions of this process.
    Notify(EnablingConditionNotification),
    /// Flush the retry queue and end.
    Finish,
}

/// How far the worker has come.
#[derive(Clone, Copy, Debug, PartialEq, Eq, Structural)]
pub enum WorkerPhase {
    /// It waits for its first message.
    Waiting,
    /// It tells the one who started it that it is running.
    Starting,
    /// It deals with messages, retries and notifications.
    Running,
}

/// How far the worker has come after a step. The first message starts it.
pub open spec fn phase_after(phase: WorkerPhase, event: WorkerEvent) -> WorkerPhase {
    match (phase, event) {
        (
            WorkerPhase::Waiting,
            WorkerEvent::Received(WorkerInput::Message(WorkerMsg::Start)),
        ) => WorkerPhase::Starting,
        (
            WorkerPhase::Waiting,
            WorkerEvent::Received(WorkerInput::Timeout),
        ) => WorkerPhase::Waiting,
        _ => WorkerPhase::Running,
    }
}

/// What one step of the worker does to the retry queue, and what is to be done next. The
/// first message only starts the worker: if it is no start message it is dropped. After
/// that a message is dealt with, then the retries that are due, then all notifications.
pub open spec fn worker_steps(
    phase: WorkerPhase,
    before: Seq<CachedFault>,
    after: Seq<CachedFault>,
    config: RetryConfig,
    event: WorkerEvent,
    now: u128,
    action: WorkerAction,
) -> bool {
    match event {
        WorkerEvent::Received(input) => {
            &&& after == before
            &&& action == match input {
                WorkerInput::Message(WorkerMsg::Start) => WorkerAction::Acknowledge,
                WorkerInput::Disconnected => WorkerAction::Finish,
                _ => if phase == WorkerPhase::Waiting {
                    WorkerAction::Receive
                } else {
                    match input {
                        WorkerInput::Message(WorkerMsg::Event(e)) => WorkerAction::Publish(e),
                        WorkerInput::Message(WorkerMsg::Exit) => WorkerAction::Finish,
                        _ => WorkerAction::Retry,
                    }
                },
            }
        },
        WorkerEvent::Acknowledged => after == before && action == if phase == WorkerPhase::Starting {
            WorkerAction::Receive
        } else {
            WorkerAction::Retry
        },
        WorkerEvent::Published(e, outcome) => {
            &&& after == after_sending(before, e, outcome, now, config)
            &&& action == WorkerAction::Retry
        },
        WorkerEvent::Retried => after == before && action == WorkerAction::Poll,
        WorkerEvent::Polled(Ok(Some(n))) => after == before && action == WorkerAction::Notify(n),
        WorkerEvent::Polled(_) => after == before && action == WorkerAction::Receive,
        WorkerEvent::Notified => after == before && action == WorkerAction::Poll,
    }
}

/// The queue after sending an event gave `outcome`: only fault reports are sent again,
/// and only if the error may go away.
pub open spec fn after_sending(
    queue: Seq<CachedFault>,
    event: DiagnosticEvent,
    outcome: Result<(), SinkError>,
    now: u128,
    config: RetryConfig,
) -> Seq<CachedFault> {
    if event is Fault && (outcome matches Err(e) && transient(e)) {
        cached(queue, event, now, config)
    } else {
        queue
    }
}

/// The events that wait for another attempt.
#[derive(Debug)]
pub struct IpcWorkerState {
    retry_queue: VecDeque<CachedFault>,
    config: RetryConfig,
}

impl View for IpcWorkerState {
    type V = Seq<CachedFault>;

    closed spec fn view(&self) -> Seq<CachedFault> {
        self.retry_queue@
    }
}

impl IpcWorkerState {
    /// The configuration.
    pub closed spec fn retry_config(self) -> RetryConfig {
        self.config
    }

    /// No more events wait than may.
    #[verifier::type_invariant]
    pub open spec fn wf(self) -> bool {
        self@.len() <= self.retry_config().cache_capacity
    }

    /// No event waits.
    pub fn new(config: RetryConfig) -> (r: Self)
        ensures
            r@ == Seq::<CachedFault>::empty(),
            r.retry_config() == config,
    {
        IpcWorkerState { retry_queue: VecDeque::new(), config }
    }

    /// The error may go away by itself.
    pub fn is_transient(error: &SinkError) -> (r: bool)
        ensures
            r == transient(*error),
    {
        match error {
            SinkError::TransportDown => true,
            SinkError::Timeout => true,
            SinkError::QueueFull => true,
            SinkError::RateLimited => true,
            _ => false,
        }
    }

    /// Number of events that wait.
    pub fn retry_queue_len(&self) -> (r: usize)
        ensures
            r == self@.len(),
            r <= self.retry_config().cache_capacity,
    {
        proof {
            use_type_invariant(self);
        }
        self.retry_queue.len()
    }

    /// The event at a place in the queue.
    pub fn cached_fault(&self, i: usize) -> (r: &CachedFault)
        requires
            i < self@.len(),
        ensures
            *r == self@[i as int],
    {
        &self.retry_queue[i]
    }

    /// Makes an event wait for another attempt, in place of the oldest one if the queue
    /// is full. If nothing may wait the event is dropped.
    pub fn cache_for_retry(&mut self, event: DiagnosticEvent, now: u128)
        ensures
            final(self).wf(),
            final(self).retry_config() == old(self).retry_config(),
            final(self)@ == cached(old(self)@, event, now, old(self).retry_config()),
    {
        proof {
            use_type_invariant(&*self);
        }
        if self.config.cache_capacity == 0 {
            return;
        }
        let mut queue: VecDeque<CachedFault> = VecDeque::new();
        std::mem::swap(&mut queue, &mut self.retry_queue);
        let ghost before = queue@;
        if queue.len() >= self.config.cache_capacity {
            let _ = queue.pop_front();
            assert(queue@ =~= before.skip(1));
        }
        queue.push_back(CachedFault::new(event, now));
        self.retry_queue = queue;
    }

    /// Decides what becomes of an event that could not be sent: it waits for another
    /// attempt if the error may go away, and is dropped otherwise.
    pub fn handle_send_failure(&mut self, event: DiagnosticEvent, error: &SinkError, now: u128)
        ensures
            final(self).retry_config() == old(self).retry_config(),
            final(self)@ == if transient(*error) {
                cached(old(self)@, event, now, old(self).retry_config())
            } else {
                old(self)@
            },
    {
        if Self::is_transient(error) {
            self.cache_for_retry(event, now);
        }
    }

    /// Takes note of what sending an event gave. Only fault reports are sent again; the
    /// other events are of use only at once.
    pub fn after_publish(
        &mut self,
        event: &DiagnosticEvent,
        outcome: &Result<(), SinkError>,
        now: u128,
    )
        ensures
            final(self).retry_config() == old(self).retry_config(),
            final(self)@ == after_sending(
                old(self)@,
                *event,
                *outcome,
                now,
                old(self).retry_config(),
            ),
    {
        match outcome {
            Ok(_) => {},
            Err(e) => match event {
                DiagnosticEvent::Fault(_) => self.handle_send_failure(*event, e, now),
                _ => {},
            },
        }
    }

    /// Attempts to send every event whose time has come and that has attempts left, once
    /// and in order; one that has none left is dropped.
    pub fn process_retries<P: EventPublisher>(&mut self, publisher: &mut P, now: u128)
        ensures
            final(self).retry_config() == old(self).retry_config(),
            exists|outcomes: Seq<Result<(), SinkError>>| #[trigger]
                sends(
                    *old(publisher),
                    *final(publisher),
                    tried_events(old(self)@, now, old(self).retry_config()),
                    outcomes,
                ) && final(self)@
                    == after_attempts(old(self)@, outcomes, now, old(self).retry_config()),
    {
        proof {
            use_type_invariant(&*self);
            lemma_sends_nothing(*publisher);
        }
        let ghost first = *publisher;
        let mut queue: VecDeque<CachedFault> = VecDeque::new();
        std::mem::swap(&mut queue, &mut self.retry_queue);
        let ghost all = queue@;
        let ghost mut outcomes: Seq<Result<(), SinkError>> = seq![];
        let mut still_pending: VecDeque<CachedFault> = VecDeque::new();
        let config = self.config;
        let mut i: usize = 0;
        proof {
            assert(all.take(0) =~= seq![]);
            lemma_none_tried(now, config);
        }
        while i < queue.len()
            invariant
                i <= queue@.len(),
                queue@ == all,
                sends(first, *publisher, tried_events(all.take(i as int), now, config), outcomes),
                still_pending@ == after_attempts(all.take(i as int), outcomes, now, config),
                still_pending@.len() <= i,
            decreases queue@.len() - i,
        {
            let cached: CachedFault = queue[i];
            assert(cached == all[i as int]);
            let ghost next = all.take(i + 1);
            proof {
                assert(next.drop_last() =~= all.take(i as int));
                lemma_last_tried(next, now, config);
            }
            if cached.next_retry > now {
                still_pending.push_back(cached);
            } else if cached.attempts < config.max_retries {
                let ghost before = *publisher;
                let outcome = publisher.publish_event(&cached.event);
                proof {
                    lemma_sends_push(
                        first,
                        before,
                        *publisher,
                        tried_events(all.take(i as int), now, config),
                        outcomes,
                        cached.event,
                        outcome,
                    );
                    assert(outcomes.push(outcome).drop_last() =~= outcomes);
                    outcomes = outcomes.push(outcome);
                }
                let attempts: u32 = cached.attempts + 1;
                if outcome.is_err() && attempts < config.max_retries {
                    let again = CachedFault { attempts, ..cached };
                    let delay: u128 = again.backoff_delay(&config);
                    still_pending.push_back(
                        CachedFault { next_retry: now.saturating_add(delay), ..again },
                    );
                }
            }
            i += 1;
        }
        assert(all.take(i as int) =~= all);
        self.retry_queue = still_pending;
    }

    /// Makes a last attempt at every event that waits, once and in order, whether its
    /// time has come or not. Afterwards none waits. Gives what the attempts gave.
    pub fn final_flush<P: EventPublisher>(&mut self, publisher: &mut P) -> (r: Vec<
        Result<(), SinkError>,
    >)
        ensures
            final(self).retry_config() == old(self).retry_config(),
            final(self)@ == Seq::<CachedFault>::empty(),
            sends(*old(publisher), *final(publisher), waiting_events(old(self)@), r@),
    {
        let ghost first = *publisher;
        let mut queue: VecDeque<CachedFault> = VecDeque::new();
        std::mem::swap(&mut queue, &mut self.retry_queue);
        let ghost all = queue@;
        let mut outcomes: Vec<Result<(), SinkError>> = Vec::new();
        let mut i: usize = 0;
        proof {
            lemma_sends_nothing(*publisher);
            assert(waiting_events(all.take(0)) =~= seq![]);
            assert(outcomes@ =~= seq![]);
        }
        while i < queue.len()
            invariant
                i <= queue@.len(),
                queue@ == all,
                sends(first, *publisher, waiting_events(all.take(i as int)), outcomes@),
            decreases queue@.len() - i,
        {
            let cached: CachedFault = queue[i];
            let ghost before = *publisher;
            let ghost earlier = outcomes@;
            let outcome = publisher.publish_event(&cached.event);
            proof {
                lemma_sends_push(
                    first,
                    before,
                    *publisher,
                    waiting_events(all.take(i as int)),
                    earlier,
                    cached.event,
                    outcome,
                );
                assert(waiting_events(all.take(i + 1)) =~= waiting_events(all.take(i as int)).push(
                    cached.event,
                ));
            }
            outcomes.push(outcome);
            i += 1;
        }
        assert(all.take(i as int) =~= all);
        outcomes
    }
}

/// No attempt is made where nothing waits.
proof fn lemma_none_tried(now: u128, config: RetryConfig)
    ensures
        tried_events(seq![], now, config) == Seq::<DiagnosticEvent>::empty(),
{
    reveal(Seq::filter);
    assert(tried_events(seq![], now, config) =~= seq![]);
}

/// The event that waits last is the last one at which an attempt is made, if one is made
/// at it.
proof fn lemma_last_tried(queue: Seq<CachedFault>, now: u128, config: RetryConfig)
    requires
        queue.len() > 0,
    ensures
        tried_events(queue, now, config) == if is_tried(queue.last(), now, config) {
            tried_events(queue.drop_last(), now, config).push(queue.last().event)
        } else {
            tried_events(queue.drop_last(), now, config)
        },
{
    reveal(Seq::filter);
    let kept = queue.drop_last().filter(|c: CachedFault| is_tried(c, now, config));
    assert(waiting_events(kept.push(queue.last())) =~= waiting_events(kept).push(
        queue.last().event,
    ));
}

/// The worker: its retry queue, and what it does from one step to the next.
#[derive(Debug)]
pub struct IpcWorker {
    /// The events that wait for another attempt.
    pub state: IpcWorkerState,
    /// How far it has come.
    pub phase: WorkerPhase,
}

impl IpcWorker {
    /// A worker with the usual retries.
    pub fn new() -> (r: Self)
        ensures
            r.state@ == Seq::<CachedFault>::empty(),
            r.phase == WorkerPhase::Waiting,
            r.state.retry_config() == (RetryConfig {
                max_retries: 10,
                cache_capacity: 512,
                retry_interval: 100_000_000,
                max_retry_interval: 5_000_000_000,
            }),
    {
        Self::with_retry_config(RetryConfig::default())
    }

    /// A worker with the given retries.
    pub fn with_retry_config(config: RetryConfig) -> (r: Self)
        ensures
            r.state@ == Seq::<CachedFault>::empty(),
            r.phase == WorkerPhase::Waiting,
            r.state.retry_config() == config,
    {
        IpcWorker { state: IpcWorkerState::new(config), phase: WorkerPhase::Waiting }
    }

    /// Decides what to do next, given what came of the last action. The worker begins
    /// with [`WorkerAction::Receive`].
    pub fn step(&mut self, event: &WorkerEvent, now: u128) -> (action: WorkerAction)
        ensures
            final(self).state.retry_config() == old(self).state.retry_config(),
            final(self).phase == phase_after(old(self).phase, *event),
            worker_steps(
                old(self).phase,
                old(self).state@,
                final(self).state@,
                old(self).state.retry_config(),
                *event,
                now,
                action,
            ),
    {
        let phase: WorkerPhase = self.phase;
        self.phase = match (phase, event) {
            (
                WorkerPhase::Waiting,
                WorkerEvent::Received(WorkerInput::Message(WorkerMsg::Start)),
            ) => WorkerPhase::Starting,
            (
                WorkerPhase::Waiting,
                WorkerEvent::Received(WorkerInput::Timeout),
            ) => WorkerPhase::Waiting,
            _ => WorkerPhase::Running,
        };
        match event {
            WorkerEvent::Received(input) => match input {
                WorkerInput::Message(WorkerMsg::Start) => WorkerAction::Acknowledge,
                WorkerInput::Disconnected => WorkerAction::Finish,
                _ => if phase == WorkerPhase::Waiting {
                    WorkerAction::Receive
                } else {
                    match input {
                        WorkerInput::Message(WorkerMsg::Event(e)) => WorkerAction::Publish(*e),
                        WorkerInput::Message(WorkerMsg::Exit) => WorkerAction::Finish,
                        _ => WorkerAction::Retry,
                    }
                },
            },
            WorkerEvent::Acknowledged => if phase == WorkerPhase::Starting {
                WorkerAction::Receive
            } else {
                WorkerAction::Retry
            },
            WorkerEvent::Published(e, outcome) => {
                self.state.after_publish(e, outcome, now);
                WorkerAction::Retry
            },
            WorkerEvent::Retried => WorkerAction::Poll,
            WorkerEvent::Polled(polled) => match polled {
                Ok(Some(n)) => WorkerAction::Notify(*n),
                _ => WorkerAction::Receive,
            },
            WorkerEvent::Notified => WorkerAction::Poll,
        }
    }
}

/// A running worker ends when it is asked to or when nobody can send to it any more, and
/// only then; one that waits for its first message ends only in the second case. A
/// running worker waits for a message only after it looked after notifications.
pub proof fn law_worker_ends_on_demand(
    phase: WorkerPhase,
    before: Seq<CachedFault>,
    after: Seq<CachedFault>,
    config: RetryConfig,
    event: WorkerEvent,
    now: u128,
    action: WorkerAction,
)
    requires
        worker_steps(phase, before, after, config, event, now, action),
    ensures
        action is Finish <==> event == WorkerEvent::Received(WorkerInput::Disconnected) || (event
            == WorkerEvent::Received(WorkerInput::Message(WorkerMsg::Exit)) && phase
            != WorkerPhase::Waiting),
        phase == WorkerPhase::Running && action is Receive ==> event is Polled,
        action is Poll ==> event is Retried || event is Notified,
{
}

/// The first message starts the worker and does nothing else: unless it is a start
/// message, nothing is sent, nobody is told and nothing comes to wait.
pub proof fn law_first_message_only_starts(
    before: Seq<CachedFault>,
    after: Seq<CachedFault>,
    config: RetryConfig,
    msg: WorkerMsg,
    now: u128,
    action: WorkerAction,
)
    requires
        worker_steps(
            WorkerPhase::Waiting,
            before,
            after,
            config,
            WorkerEvent::Received(WorkerInput::Message(msg)),
            now,
            action,
        ),
    ensures
        after == before,
        msg is Start ==> action is Acknowledge,
        msg !is Start ==> action is Receive && phase_after(
            WorkerPhase::Waiting,
            WorkerEvent::Received(WorkerInput::Message(msg)),
        ) == WorkerPhase::Running,
{
}

/// The queue never holds more events than it may; if it may hold none it stays empty.
pub proof fn law_retry_queue_is_bounded(
    queue: Seq<CachedFault>,
    event: DiagnosticEvent,
    now: u128,
    config: RetryConfig,
)
    requires
        queue.len() <= config.cache_capacity,
    ensures
        cached(queue, event, now, config).len() <= config.cache_capacity,
{
}

/// Attempts add nothing to the queue.
pub proof fn law_retry_queue_shrinks(
    queue: Seq<CachedFault>,
    outcomes: Seq<Result<(), SinkError>>,
    now: u128,
    config: RetryConfig,
)
    ensures
        after_attempts(queue, outcomes, now, config).len() <= queue.len(),
    decreases queue.len(),
{
    if queue.len() > 0 {
        if is_tried(queue.last(), now, config) {
            law_retry_queue_shrinks(queue.drop_last(), outcomes.drop_last(), now, config);
        } else {
            law_retry_queue_shrinks(queue.drop_last(), outcomes, now, config);
        }
    }
}

/// Before its time has come an event is neither sent nor changed.
pub proof fn law_nothing_is_sent_early(
    queue: Seq<CachedFault>,
    outcomes: Seq<Result<(), SinkError>>,
    now: u128,
    config: RetryConfig,
)
    requires
        forall|i: int| 0 <= i < queue.len() ==> (#[trigger] queue[i]).next_retry > now,
    ensures
        tried_events(queue, now, config) == Seq::<DiagnosticEvent>::empty(),
        after_attempts(queue, outcomes, now, config) == queue,
    decreases queue.len(),
{
    lemma_none_tried(now, config);
    if queue.len() > 0 {
        let rest = queue.drop_last();
        assert forall|i: int| 0 <= i < rest.len() implies (#[trigger] rest[i]).next_retry
            > now by {
            assert(rest[i] == queue[i]);
        }
        law_nothing_is_sent_early(rest, outcomes, now, config);
        lemma_last_tried(queue, now, config);
        assert(rest.push(queue.last()) =~= queue);
    } else {
        assert(queue =~= seq![]);
    }
}

/// An event that waits alone and whose time has come is sent once. If that fails it
/// waits again, with one attempt more, until its attempts are used up; then it is gone.
pub proof fn law_failed_event_is_sent_once_per_round(
    c: CachedFault,
    error: SinkError,
    now: u128,
    config: RetryConfig,
)
    requires
        is_tried(c, now, config),
    ensures
        tried_events(seq![c], now, config) == seq![c.event],
        after_attempts(seq![c], seq![Ok(())], now, config) == Seq::<CachedFault>::empty(),
        after_attempts(seq![c], seq![Err(error)], now, config) == if c.attempts + 1
            < config.max_retries {
            seq![
                CachedFault {
                    event: c.event,
                    attempts: (c.attempts + 1) as u32,
                    next_retry: later(now, backoff((c.attempts + 1) as u32, config)),
                },
            ]
        } else {
            seq![]
        },
{
    let queue = seq![c];
    assert(queue.drop_last() =~= seq![]);
    lemma_none_tried(now, config);
    lemma_last_tried(queue, now, config);
    assert(Seq::<DiagnosticEvent>::empty().push(c.event) =~= seq![c.event]);
    reveal_with_fuel(after_attempts, 2);
    assert(queue.last() == c);
    let sent: Result<(), SinkError> = Ok(());
    let failed: Result<(), SinkError> = Err(error);
    assert(seq![sent].last() == sent && seq![failed].last() == failed);
    assert(after_attempts(queue, seq![sent], now, config) =~= seq![]);
}

/// The newest event is never the one that has to leave: it stands last and no attempt
/// was made at it. The oldest one leaves a full queue, nothing else leaves, and the
/// others keep their order. This holds of every queue that may hold something.
pub proof fn law_oldest_event_leaves(
    queue: Seq<CachedFault>,
    event: DiagnosticEvent,
    now: u128,
    config: RetryConfig,
)
    requires
        config.cache_capacity > 0,
    ensures
        cached(queue, event, now, config).last() == (CachedFault {
            event,
            attempts: 0,
            next_retry: now,
        }),
        queue.len() < config.cache_capacity ==> cached(queue, event, now, config).drop_last()
            == queue,
        queue.len() >= config.cache_capacity ==> cached(queue, event, now, config).drop_last()
            == queue.skip(1),
{
    let c = cached(queue, event, now, config);
    if queue.len() >= config.cache_capacity {
        assert(c.drop_last() =~= queue.skip(1));
    } else {
        assert(c.drop_last() =~= queue);
    }
}

/// The delay doubles with each attempt until it reaches its limit, which it never
/// exceeds and where it stays.
pub proof fn law_backoff_doubles(attempts: u32, config: RetryConfig)
    requires
        attempts < u32::MAX,
    ensures
        backoff(attempts, config) <= config.max_retry_interval,
        backoff(0, config) == config.retry_interval || backoff(0, config)
            == config.max_retry_interval,
        2 * backoff(attempts, config) < config.max_retry_interval ==> backoff(
            (attempts + 1) as u32,
            config,
        ) == 2 * backoff(attempts, config),
        2 * backoff(attempts, config) >= config.max_retry_interval ==> backoff(
            (attempts + 1) as u32,
            config,
        ) == config.max_retry_interval,
{
    lemma2_to64();
    lemma_doubled(config.retry_interval as nat, attempts as nat);
}

/// An event is attempted at most as often as it may be: no attempt is made at one whose
/// attempts are used up, and none at all if none may be made; one that fails each time
/// is gone once its attempts are used up.
pub proof fn law_attempts_are_limited(
    c: CachedFault,
    outcome: Result<(), SinkError>,
    now: u128,
    config: RetryConfig,
)
    requires
        c.next_retry <= now,
    ensures
        is_tried(c, now, config) <==> c.attempts < config.max_retries,
        config.max_retries == 0 ==> !is_tried(c, now, config),
        after_attempt(c, outcome, now, config) matches Some(d) ==> d.attempts == c.attempts + 1
            && d.attempts < config.max_retries && d.event == c.event,
        c.attempts + 1 >= config.max_retries ==> after_attempt(c, outcome, now, config) is None,
        outcome is Ok ==> after_attempt(c, outcome, now, config) is None,
{
}

/// An error may go away by itself if the transport is down, the answer took too long, the
/// queue is full or too much was sent; any other one stays.
pub proof fn law_which_errors_go_away(error: SinkError)
    ensures
        transient(error) <==> error is TransportDown || error is Timeout || error is QueueFull
            || error is RateLimited,
{
}

/// Only a fault report that failed for a reason that may go away comes to wait; a sent
/// event, an event of another kind and a report that failed for good leave the queue as it
/// is.
pub proof fn law_which_events_wait(
    queue: Seq<CachedFault>,
    event: DiagnosticEvent,
    outcome: Result<(), SinkError>,
    now: u128,
    config: RetryConfig,
)
    ensures
        outcome is Ok || !(event is Fault) ==> after_sending(queue, event, outcome, now, config)
            == queue,
        outcome matches Err(e) ==> (e is PermissionDenied || e is BadDescriptor || e is Other
            || e is InvalidServiceName ==> after_sending(queue, event, outcome, now, config)
            == queue),
        event is Fault && config.cache_capacity > 0 && (outcome matches Err(e) && (
        e is TransportDown || e is Timeout || e is QueueFull || e is RateLimited)) ==> ({
            let after = after_sending(queue, event, outcome, now, config);
            &&& after.len() > 0
            &&& after.last().event == event
            &&& after.last().attempts == 0
            &&& after.last().next_retry == now
            &&& queue.len() < config.cache_capacity ==> after.drop_last() == queue
        }),
{
    if config.cache_capacity > 0 {
        law_oldest_event_leaves(queue, event, now, config);
    }
}

/// The first delay is the configured one, unless the longest one is shorter; each further
/// attempt doubles it, up to the longest one.
pub proof fn law_backoff_formula(attempts: u32, config: RetryConfig)
    ensures
        backoff(0, config) == if config.retry_interval < config.max_retry_interval {
            config.retry_interval
        } else {
            config.max_retry_interval
        },
        attempts < u32::MAX ==> backoff((attempts + 1) as u32, config) == if 2 * backoff(
            attempts,
            config,
        ) < config.max_retry_interval {
            2 * backoff(attempts, config)
        } else {
            config.max_retry_interval as int
        },
{
    lemma2_to64();
    if attempts < u32::MAX {
        law_backoff_doubles(attempts, config);
    }
}

/// A point in time is later by the delay, or the last one that can be told.
pub proof fn law_later_adds_the_delay(t: u128, delay: u128)
    ensures
        t + delay <= u128::MAX ==> later(t, delay) == t + delay,
        t + delay > u128::MAX ==> later(t, delay) == u128::MAX,
{
}

/// Of an event whose time has come, with attempts left: if it was sent it is gone. If not,
/// it waits with one attempt more for the delay of that number of attempts, unless its
/// attempts are used up with this one. Before its time an event stays as it is.
pub proof fn law_fate_of_a_waiting_event(
    c: CachedFault,
    outcome: Result<(), SinkError>,
    now: u128,
    config: RetryConfig,
)
    ensures
        c.next_retry > now ==> after_attempt(c, outcome, now, config) == Some(c),
        c.next_retry <= now && outcome is Ok ==> after_attempt(c, outcome, now, config) is None,
        c.next_retry <= now && c.attempts + 1 >= config.max_retries ==> after_attempt(
            c,
            outcome,
            now,
            config,
        ) is None,
        c.next_retry <= now && outcome is Err && c.attempts + 1 < config.max_retries ==> (
        after_attempt(c, outcome, now, config) matches Some(d) && d.event == c.event && d.attempts
            == c.attempts + 1 && d.next_retry == later(
            now,
            backoff((c.attempts + 1) as u32, config),
        )),
{
}

/// A round of attempts deals with each event by itself: the rounds over two parts of a
/// queue, with the outcomes of each, make up the round over the whole.
pub proof fn law_events_are_dealt_with_one_by_one(
    queue: Seq<CachedFault>,
    c: CachedFault,
    outcomes: Seq<Result<(), SinkError>>,
    outcome: Result<(), SinkError>,
    now: u128,
    config: RetryConfig,
)
    ensures
        is_tried(c, now, config) ==> tried_events(queue.push(c), now, config) == tried_events(
            queue,
            now,
            config,
        ).push(c.event) && after_attempts(queue.push(c), outcomes.push(outcome), now, config)
            == match after_attempt(c, outcome, now, config) {
            Some(d) => after_attempts(queue, outcomes, now, config).push(d),
            None => after_attempts(queue, outcomes, now, config),
        },
        c.next_retry > now ==> tried_events(queue.push(c), now, config) == tried_events(
            queue,
            now,
            config,
        ) && after_attempts(queue.push(c), outcomes, now, config) == after_attempts(
            queue,
            outcomes,
            now,
            config,
        ).push(c),
        c.next_retry <= now && c.attempts >= config.max_retries ==> tried_events(
            queue.push(c),
            now,
            config,
        ) == tried_events(queue, now, config) && after_attempts(
            queue.push(c),
            outcomes,
            now,
            config,
        ) == after_attempts(queue, outcomes, now, config),
{
    let all = queue.push(c);
    assert(all.drop_last() =~= queue);
    assert(all.last() == c);
    assert(outcomes.push(outcome).drop_last() =~= outcomes);
    lemma_last_tried(all, now, config);
}

/// What the worker does next depends on what came last: a message is sent, acknowledged or
/// ends the worker; whatever came of a message, the retries come next, then the
/// notifications, all of them, and then the next message.
pub proof fn law_worker_order(
    before: Seq<CachedFault>,
    after: Seq<CachedFault>,
    config: RetryConfig,
    event: WorkerEvent,
    now: u128,
    action: WorkerAction,
    e: DiagnosticEvent,
    n: EnablingConditionNotification,
)
    requires
        worker_steps(WorkerPhase::Running, before, after, config, event, now, action),
    ensures
        event == WorkerEvent::Received(WorkerInput::Message(WorkerMsg::Event(e))) ==> action
            == WorkerAction::Publish(e),
        event == WorkerEvent::Received(WorkerInput::Message(WorkerMsg::Start))
            ==> action is Acknowledge,
        event == WorkerEvent::Received(WorkerInput::Timeout) ==> action is Retry,
        event is Acknowledged ==> action is Retry,
        event is Published ==> action is Retry,
        event is Retried ==> action is Poll,
        event == WorkerEvent::Polled(Ok(Some(n))) ==> action == WorkerAction::Notify(n),
        event is Notified ==> action is Poll,
        event matches WorkerEvent::Polled(p) ==> (p is Err || p->Ok_0 is None
            ==> action is Receive),
        !(event is Published) ==> after == before,
        event matches WorkerEvent::Published(x, o) ==> after == after_sending(
            before,
            x,
            o,
            now,
            config,
        ),
{
}

/// A new worker waits for its first message, has no event to send again, and retries as it
/// is told: unless it is told otherwise ten times, from a tenth of a second up to five
/// seconds apart, with up to 512 events waiting.
pub proof fn law_new_worker(config: RetryConfig, usual: IpcWorker, told: IpcWorker)
    requires
        call_ensures(IpcWorker::new, (), usual),
        call_ensures(IpcWorker::with_retry_config, (config,), told),
    ensures
        usual.state@.len() == 0,
        told.state@.len() == 0,
        usual.phase is Waiting,
        told.phase is Waiting,
        told.state.retry_config() == config,
        usual.state.retry_config().max_retries == 10,
        usual.state.retry_config().cache_capacity == 512,
        usual.state.retry_config().retry_interval == 100_000_000,
        usual.state.retry_config().max_retry_interval == 5_000_000_000,
{
}

/// A worker waits until its first message: a start message makes it acknowledge and then
/// run, any other message makes it run at once, and nothing else leaves the waiting.
pub proof fn law_worker_phases(phase: WorkerPhase, event: WorkerEvent)
    ensures
        phase is Waiting && event == WorkerEvent::Received(WorkerInput::Timeout) ==> phase_after(
            phase,
            event,
        ) is Waiting,
        phase is Waiting && event == WorkerEvent::Received(WorkerInput::Message(WorkerMsg::Start))
            ==> phase_after(phase, event) is Starting,
        phase is Waiting && event != WorkerEvent::Received(WorkerInput::Timeout) && event
            != WorkerEvent::Received(WorkerInput::Message(WorkerMsg::Start)) ==> phase_after(
            phase,
            event,
        ) is Running,
        phase is Starting || phase is Running ==> phase_after(phase, event) is Running,
{
}

/// The events of a queue are the events of its entries, in their order.
pub proof fn law_waiting_events_are_in_order(queue: Seq<CachedFault>, i: int)
    ensures
        waiting_events(queue).len() == queue.len(),
        0 <= i < queue.len() ==> waiting_events(queue)[i] == queue[i].event,
{
}

} // verus!
