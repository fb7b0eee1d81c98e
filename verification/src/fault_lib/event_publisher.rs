//! Handing events to the transport.

use std::collections::VecDeque;
use vstd::prelude::*;

use crate::common::sink_error::SinkError;
use crate::common::types::DiagnosticEvent;

verus! {

/// Hands events to the transport, one at a time.
pub trait EventPublisher: Sized {
    /// Handing over an event may give `r` and turn this publisher into `after`. Unless a
    /// publisher says more, anything may come of it.
    open spec fn published(
        &self,
        event: DiagnosticEvent,
        r: Result<(), SinkError>,
        after: &Self,
    ) -> bool {
        true
    }

    /// Hands over an event.
    fn publish_event(&mut self, event: &DiagnosticEvent) -> (r: Result<(), SinkError>)
        ensures
            old(self).published(*event, r, final(self)),
    ;
}

/// The events are handed over in order, each of them once. `states` holds the publisher
/// before the first of them, between any two and after the last; `outcomes` holds what
/// came of each.
pub open spec fn handed_over<P: EventPublisher>(
    states: Seq<P>,
    events: Seq<DiagnosticEvent>,
    outcomes: Seq<Result<(), SinkError>>,
) -> bool {
    &&& states.len() == events.len() + 1
    &&& outcomes.len() == events.len()
    &&& forall|i: int|
        0 <= i < events.len() ==> states[i].published(
            events[i],
            #[trigger] outcomes[i],
            &states[i + 1],
        )
}

/// A publisher is handed the events in order, each of them once, and nothing else;
/// `outcomes` holds what came of each.
pub open spec fn sends<P: EventPublisher>(
    before: P,
    after: P,
    events: Seq<DiagnosticEvent>,
    outcomes: Seq<Result<(), SinkError>>,
) -> bool {
    exists|states: Seq<P>| #[trigger]
        handed_over(states, events, outcomes) && states.first() == before && states.last() == after
}

/// Where nothing is handed over the publisher stays as it is.
pub proof fn lemma_sends_nothing<P: EventPublisher>(publisher: P)
    ensures
        sends(publisher, publisher, seq![], seq![]),
{
    assert(handed_over(seq![publisher], seq![], seq![]));
}

/// One more event is handed over.
pub proof fn lemma_sends_push<P: EventPublisher>(
    first: P,
    before: P,
    after: P,
    events: Seq<DiagnosticEvent>,
    outcomes: Seq<Result<(), SinkError>>,
    event: DiagnosticEvent,
    outcome: Result<(), SinkError>,
)
    requires
        sends(first, before, events, outcomes),
        before.published(event, outcome, &after),
    ensures
        sends(first, after, events.push(event), outcomes.push(outcome)),
{
    let states = choose|states: Seq<P>| #[trigger]
        handed_over(states, events, outcomes) && states.first() == first && states.last()
            == before;
    assert(handed_over(states.push(after), events.push(event), outcomes.push(outcome)));
}

/// A publisher that keeps the events and gives answers that were laid down beforehand.
#[derive(Debug)]
pub struct ScriptedPublisher {
    /// The events, in the order in which they came.
    pub sent: Vec<DiagnosticEvent>,
    /// The answers that are left; once none is left every event is taken.
    pub answers: VecDeque<Result<(), SinkError>>,
}

impl ScriptedPublisher {
    /// A publisher that has seen no event and gives the answers in turn.
    pub fn new(answers: VecDeque<Result<(), SinkError>>) -> (r: Self)
        ensures
            r.sent@ == Seq::<DiagnosticEvent>::empty(),
            r.answers == answers,
    {
        ScriptedPublisher { sent: Vec::new(), answers }
    }
}

impl EventPublisher for ScriptedPublisher {
    open spec fn published(
        &self,
        event: DiagnosticEvent,
        r: Result<(), SinkError>,
        after: &Self,
    ) -> bool {
        &&& after.sent@ == self.sent@.push(event)
        &&& r == answer(self.answers@, 0)
        &&& after.answers@ == unused(self.answers@, 1)
    }

    fn publish_event(&mut self, event: &DiagnosticEvent) -> (r: Result<(), SinkError>) {
        let ghost answers = self.answers@;
        self.sent.push(*event);
        let next = self.answers.pop_front();
        assert(self.answers@ =~= unused(answers, 1));
        match next {
            Some(r) => r,
            None => Ok(()),
        }
    }
}

/// The answer to the event at a place: the one that was laid down for it, if any.
pub open spec fn answer(answers: Seq<Result<(), SinkError>>, i: int) -> Result<(), SinkError> {
    if i < answers.len() {
        answers[i]
    } else {
        Ok(())
    }
}

/// The answers that are left after some events.
pub open spec fn unused(answers: Seq<Result<(), SinkError>>, n: nat) -> Seq<
    Result<(), SinkError>,
> {
    if n < answers.len() {
        answers.skip(n as int)
    } else {
        seq![]
    }
}

/// A publisher that is handed events keeps these events after those it had, each of them
/// once and in order, and nothing else; the answers are given in turn.
pub proof fn law_events_are_kept_once(
    before: ScriptedPublisher,
    after: ScriptedPublisher,
    events: Seq<DiagnosticEvent>,
    outcomes: Seq<Result<(), SinkError>>,
)
    requires
        sends(before, after, events, outcomes),
    ensures
        after.sent@ == before.sent@ + events,
        after.answers@ == unused(before.answers@, events.len()),
        outcomes == Seq::new(events.len(), |i: int| answer(before.answers@, i)),
{
    let states = choose|states: Seq<ScriptedPublisher>| #[trigger]
        handed_over(states, events, outcomes) && states.first() == before && states.last()
            == after;
    lemma_kept_so_far(states, events, outcomes, events.len());
    assert(events.take(events.len() as int) =~= events);
    assert forall|i: int| 0 <= i < events.len() implies #[trigger] outcomes[i] == answer(
        before.answers@,
        i,
    ) by {
        lemma_kept_so_far(states, events, outcomes, i as nat);
    }
    assert(outcomes =~= Seq::new(events.len(), |i: int| answer(before.answers@, i)));
}

/// What the publisher holds after the first `n` events.
proof fn lemma_kept_so_far(
    states: Seq<ScriptedPublisher>,
    events: Seq<DiagnosticEvent>,
    outcomes: Seq<Result<(), SinkError>>,
    n: nat,
)
    requires
        handed_over(states, events, outcomes),
        n <= events.len(),
    ensures
        states[n as int].sent@ == states[0].sent@ + events.take(n as int),
        states[n as int].answers@ == unused(states[0].answers@, n),
    decreases n,
{
    if n == 0 {
        assert(events.take(0) =~= seq![]);
        assert(states[0].sent@ + events.take(0) =~= states[0].sent@);
        assert(unused(states[0].answers@, 0) =~= states[0].answers@);
    } else {
        let m = (n - 1) as nat;
        lemma_kept_so_far(states, events, outcomes, m);
        let r = outcomes[m as int];
        assert(states[m as int].published(events[m as int], r, &states[n as int]));
        assert(events.take(n as int) =~= events.take(m as int).push(events[m as int]));
        assert(states[0].sent@ + events.take(n as int) =~= (states[0].sent@ + events.take(
            m as int,
        )).push(events[m as int]));
        assert(unused(unused(states[0].answers@, m), 1) =~= unused(states[0].answers@, n));
    }
}

/// A publisher with answers gives the first of them and keeps the rest; without any it
/// takes every event.
pub proof fn law_answers_are_given_in_turn(
    before: ScriptedPublisher,
    event: DiagnosticEvent,
    r: Result<(), SinkError>,
    after: ScriptedPublisher,
)
    requires
        before.published(event, r, &after),
    ensures
        after.sent@ == before.sent@.push(event),
        before.answers@.len() == 0 ==> r is Ok && after.answers@.len() == 0,
        before.answers@.len() > 0 ==> r == before.answers@[0] && after.answers@
            == before.answers@.skip(1),
{
    if before.answers@.len() == 1 {
        assert(before.answers@.skip(1) =~= seq![]);
    }
}

} // verus!
