//! Filters that keep noisy fault sources from being reported too eagerly.
//!
//! Points in time are nanoseconds on a monotonic clock, durations are
//! nanoseconds.

use std::collections::VecDeque;
use vstd::prelude::*;

verus! {

/// Nanoseconds per second.
pub const NANOS_PER_SEC: u128 = 1_000_000_000;

/// The longest duration, in nanoseconds.
pub const MAX_DURATION_NANOS: u128 = 18_446_744_073_709_551_615_999_999_999;

/// A duration as seconds and nanoseconds, with a fixed memory layout.
#[derive(Clone, Copy, Debug, PartialEq, Eq, Structural)]
pub struct IpcDuration {
    /// Whole seconds.
    pub secs: u64,
    /// Nanoseconds within the second.
    pub nanos: u32,
}

impl IpcDuration {
    /// Largest number of nanoseconds within a second.
    pub const MAX_NANOS: u32 = 999_999_999;

    /// The duration in nanoseconds.
    pub open spec fn total_nanos(self) -> nat {
        (self.secs * 1_000_000_000 + self.nanos) as nat
    }

    /// Checks that the nanoseconds stay below a second.
    pub fn validate(&self) -> (r: Result<(), &'static str>)
        ensures
            r is Ok <==> self.nanos <= 999_999_999,
            r matches Err(m) ==> m@
                == "IpcDuration nanoseconds out of range (max: 999_999_999)"@,
    {
        if self.nanos > Self::MAX_NANOS {
            return Err("IpcDuration nanoseconds out of range (max: 999_999_999)");
        }
        Ok(())
    }

    /// The duration in nanoseconds; nanoseconds beyond a second count as seconds.
    pub fn as_nanos(&self) -> (r: u128)
        ensures
            r == self.total_nanos(),
    {
        (self.secs as u128) * NANOS_PER_SEC + self.nanos as u128
    }

    /// The duration of the given number of nanoseconds.
    pub fn from_nanos(n: u128) -> (r: Self)
        requires
            n <= MAX_DURATION_NANOS,
        ensures
            r.total_nanos() == n,
            r.nanos <= 999_999_999,
    {
        let secs: u128 = n / NANOS_PER_SEC;
        IpcDuration { secs: secs as u64, nanos: (n % NANOS_PER_SEC) as u32 }
    }
}

/// Splitting the nanoseconds of a valid duration gives the duration back.
pub proof fn law_ipc_duration_round_trip(d: IpcDuration, back: IpcDuration)
    requires
        d.nanos <= 999_999_999,
        back.nanos <= 999_999_999,
        back.total_nanos() == d.total_nanos(),
    ensures
        back == d,
{
}

/// How a noisy fault source is filtered.
#[derive(Clone, Copy, Debug, PartialEq, Eq, Structural)]
pub enum DebounceMode {
    /// Report once enough events fall within a window.
    CountWithinWindow {
        /// Number of events that are needed.
        min_count: u32,
        /// Length of the window.
        window: IpcDuration,
    },
    /// Report once the condition has lasted long enough.
    HoldTime {
        /// Time that it must last.
        duration: IpcDuration,
    },
    /// Report the first event, then nothing for a while.
    EdgeWithCooldown {
        /// Time between reports.
        cooldown: IpcDuration,
    },
}

/// A filter with an optional limit on how often it is logged.
#[derive(Clone, Copy, Debug, PartialEq, Eq, Structural)]
pub struct DebouncePolicy {
    /// The filter.
    pub mode: DebounceMode,
    /// Time within which repeats are not logged.
    pub log_throttle: Option<IpcDuration>,
}

/// Time from `then` to `now`; zero if `then` is later.
pub open spec fn elapsed(now: u128, then: u128) -> nat {
    if now >= then {
        (now - then) as nat
    } else {
        0
    }
}

fn elapsed_since(now: u128, then: u128) -> (r: u128)
    ensures
        r == elapsed(now, then),
{
    if now >= then {
        now - then
    } else {
        0
    }
}

/// What is left once the leading events older than the window are dropped.
pub open spec fn drop_stale(s: Seq<u128>, now: u128, window: nat) -> Seq<u128>
    decreases s.len(),
{
    if s.len() > 0 && elapsed(now, s[0]) > window {
        drop_stale(s.skip(1), now, window)
    } else {
        s
    }
}

/// The last `n` items, or all of them if there are fewer.
pub open spec fn keep_last(s: Seq<u128>, n: nat) -> Seq<u128> {
    if s.len() > n {
        s.skip(s.len() - n)
    } else {
        s
    }
}

/// State of a filter.
pub enum DebounceModel {
    /// Events that may still count.
    Count {
        /// Number of events that are needed.
        min_count: nat,
        /// Length of the window.
        window: nat,
        /// Events in order of arrival.
        occurrences: Seq<u128>,
    },
    /// Time at which the condition began.
    Hold {
        /// Time that it must last.
        duration: nat,
        /// Begin of the condition.
        start: Option<u128>,
    },
    /// Time of the last report or reset.
    Edge {
        /// Time between reports.
        cooldown: nat,
        /// Begin of the cooldown.
        last: Option<u128>,
    },
}

impl DebounceModel {
    /// The state of a new filter.
    pub open spec fn initial(mode: DebounceMode) -> Self {
        match mode {
            DebounceMode::CountWithinWindow { min_count, window } => DebounceModel::Count {
                min_count: min_count as nat,
                window: window.total_nanos(),
                occurrences: seq![],
            },
            DebounceMode::HoldTime { duration } => DebounceModel::Hold {
                duration: duration.total_nanos(),
                start: None,
            },
            DebounceMode::EdgeWithCooldown { cooldown } => DebounceModel::Edge {
                cooldown: cooldown.total_nanos(),
                last: None,
            },
        }
    }

    /// The state after an event.
    pub open spec fn after_event(self, now: u128) -> Self {
        match self {
            DebounceModel::Count { min_count, window, occurrences } => DebounceModel::Count {
                min_count,
                window,
                occurrences: keep_last(drop_stale(occurrences, now, window).push(now), min_count),
            },
            DebounceModel::Hold { duration, start } => DebounceModel::Hold {
                duration,
                start: if start is None {
                    Some(now)
                } else {
                    start
                },
            },
            DebounceModel::Edge { cooldown, last } => DebounceModel::Edge {
                cooldown,
                last: if self.passes(now) {
                    Some(now)
                } else {
                    last
                },
            },
        }
    }

    /// Whether an event is reported.
    pub open spec fn passes(self, now: u128) -> bool {
        match self {
            DebounceModel::Count { min_count, window, occurrences } => drop_stale(
                occurrences,
                now,
                window,
            ).len() + 1 >= min_count,
            DebounceModel::Hold { duration, start } => match start {
                Some(s) => elapsed(now, s) >= duration,
                None => false,
            },
            DebounceModel::Edge { cooldown, last } => match last {
                Some(l) => elapsed(now, l) >= cooldown,
                None => true,
            },
        }
    }

    /// The state after a reset.
    pub open spec fn after_reset(self, now: u128) -> Self {
        match self {
            DebounceModel::Count { min_count, window, occurrences } => DebounceModel::Count {
                min_count,
                window,
                occurrences: seq![],
            },
            DebounceModel::Hold { duration, start } => DebounceModel::Hold {
                duration,
                start: None,
            },
            DebounceModel::Edge { cooldown, last } => DebounceModel::Edge {
                cooldown,
                last: Some(now),
            },
        }
    }
}

/// A filter for fault events.
pub trait Debounce {
    /// The state of the filter.
    spec fn model(&self) -> DebounceModel;

    /// Takes note of an event and says whether it is to be reported.
    fn on_event(&mut self, now: u128) -> (r: bool)
        ensures
            r == old(self).model().passes(now),
            final(self).model() == old(self).model().after_event(now),
    ;

    /// Starts over, for instance after the fault cleared.
    fn reset(&mut self, now: u128)
        ensures
            final(self).model() == old(self).model().after_reset(now),
    ;
}

/// Reports once `min_count` events fall within a sliding window.
#[derive(Debug)]
pub struct CountWithinWindow {
    min_count: u32,
    window: u128,
    occurrences: VecDeque<u128>,
}

impl CountWithinWindow {
    /// A filter that has seen no event.
    pub fn new(min_count: u32, window: u128) -> (r: Self)
        ensures
            r.model() == (DebounceModel::Count {
                min_count: min_count as nat,
                window: window as nat,
                occurrences: seq![],
            }),
    {
        let r = CountWithinWindow { min_count, window, occurrences: VecDeque::new() };
        assert(r.occurrences@ =~= seq![]);
        r
    }

    /// Number of events that may still count.
    pub fn occurrence_count(&self) -> (r: usize)
        ensures
            self.model() matches DebounceModel::Count { occurrences, .. } && r
                == occurrences.len(),
    {
        self.occurrences.len()
    }
}

impl Debounce for CountWithinWindow {
    closed spec fn model(&self) -> DebounceModel {
        DebounceModel::Count {
            min_count: self.min_count as nat,
            window: self.window as nat,
            occurrences: self.occurrences@,
        }
    }

    fn on_event(&mut self, now: u128) -> (r: bool) {
        let ghost fresh = drop_stale(self.occurrences@, now, self.window as nat);
        while self.occurrences.len() > 0 && elapsed_since(now, self.occurrences[0]) > self.window
            invariant
                self.min_count == old(self).min_count,
                self.window == old(self).window,
                drop_stale(self.occurrences@, now, self.window as nat) == fresh,
            decreases self.occurrences@.len(),
        {
            let ghost before = self.occurrences@;
            let _ = self.occurrences.pop_front();
            assert(self.occurrences@ =~= before.skip(1));
        }
        assert(self.occurrences@ == fresh);
        self.occurrences.push_back(now);
        let ghost pushed = self.occurrences@;
        while self.occurrences.len() > self.min_count as usize
            invariant
                self.min_count == old(self).min_count,
                self.window == old(self).window,
                self.occurrences@.len() <= pushed.len(),
                self.occurrences@ == pushed.skip(pushed.len() - self.occurrences@.len()),
                pushed.len() >= self.min_count ==> self.occurrences@.len() >= self.min_count,
                pushed.len() < self.min_count ==> self.occurrences@.len() == pushed.len(),
            decreases self.occurrences@.len(),
        {
            let ghost before = self.occurrences@;
            let _ = self.occurrences.pop_front();
            assert(self.occurrences@ =~= before.skip(1));
            assert(self.occurrences@ =~= pushed.skip(pushed.len() - self.occurrences@.len()));
        }
        assert(self.occurrences@ =~= keep_last(pushed, self.min_count as nat));
        self.occurrences.len() >= self.min_count as usize
    }

    fn reset(&mut self, now: u128) {
        self.occurrences.clear();
        assert(self.occurrences@ =~= seq![]);
    }
}

/// Reports once the condition has lasted for the given time. The first event only
/// starts the clock.
#[derive(Debug)]
pub struct HoldTime {
    duration: u128,
    start_time: Option<u128>,
}

impl HoldTime {
    /// A filter that has seen no event.
    pub fn new(duration: u128) -> (r: Self)
        ensures
            r.model() == (DebounceModel::Hold { duration: duration as nat, start: None }),
    {
        HoldTime { duration, start_time: None }
    }
}

impl Debounce for HoldTime {
    closed spec fn model(&self) -> DebounceModel {
        DebounceModel::Hold { duration: self.duration as nat, start: self.start_time }
    }

    fn on_event(&mut self, now: u128) -> (r: bool) {
        match self.start_time {
            None => {
                self.start_time = Some(now);
                false
            },
            Some(start) => elapsed_since(now, start) >= self.duration,
        }
    }

    fn reset(&mut self, now: u128) {
        self.start_time = None;
    }
}

/// Reports the first event, then nothing until the cooldown is over. A reset
/// begins a new cooldown.
#[derive(Debug)]
pub struct EdgeWithCooldown {
    cooldown: u128,
    last_report: Option<u128>,
}

impl EdgeWithCooldown {
    /// A filter that has seen no event.
    pub fn new(cooldown: u128) -> (r: Self)
        ensures
            r.model() == (DebounceModel::Edge { cooldown: cooldown as nat, last: None }),
    {
        EdgeWithCooldown { cooldown, last_report: None }
    }
}

impl Debounce for EdgeWithCooldown {
    closed spec fn model(&self) -> DebounceModel {
        DebounceModel::Edge { cooldown: self.cooldown as nat, last: self.last_report }
    }

    fn on_event(&mut self, now: u128) -> (r: bool) {
        if let Some(last) = self.last_report {
            if elapsed_since(now, last) < self.cooldown {
                return false;
            }
        }
        self.last_report = Some(now);
        true
    }

    fn reset(&mut self, now: u128) {
        self.last_report = Some(now);
    }
}

/// Any of the filters.
#[derive(Debug)]
pub enum Debouncer {
    /// Counting.
    Count(CountWithinWindow),
    /// Holding.
    Hold(HoldTime),
    /// Cooling down.
    Edge(EdgeWithCooldown),
}

impl Debounce for Debouncer {
    open spec fn model(&self) -> DebounceModel {
        match self {
            Debouncer::Count(d) => d.model(),
            Debouncer::Hold(d) => d.model(),
            Debouncer::Edge(d) => d.model(),
        }
    }

    fn on_event(&mut self, now: u128) -> (r: bool) {
        match self {
            Debouncer::Count(d) => d.on_event(now),
            Debouncer::Hold(d) => d.on_event(now),
            Debouncer::Edge(d) => d.on_event(now),
        }
    }

    fn reset(&mut self, now: u128) {
        match self {
            Debouncer::Count(d) => d.reset(now),
            Debouncer::Hold(d) => d.reset(now),
            Debouncer::Edge(d) => d.reset(now),
        }
    }
}

impl DebounceMode {
    /// A new filter of this kind.
    pub fn into_debouncer(self) -> (r: Debouncer)
        ensures
            r.model() == DebounceModel::initial(self),
    {
        match self {
            DebounceMode::CountWithinWindow { min_count, window } => Debouncer::Count(
                CountWithinWindow::new(min_count, window.as_nanos()),
            ),
            DebounceMode::HoldTime { duration } => Debouncer::Hold(
                HoldTime::new(duration.as_nanos()),
            ),
            DebounceMode::EdgeWithCooldown { cooldown } => Debouncer::Edge(
                EdgeWithCooldown::new(cooldown.as_nanos()),
            ),
        }
    }
}

/// The state after a series of events.
pub open spec fn after_events(m: DebounceModel, ts: Seq<u128>) -> DebounceModel
    decreases ts.len(),
{
    if ts.len() == 0 {
        m
    } else {
        after_events(m, ts.drop_last()).after_event(ts.last())
    }
}

/// The clock never goes back.
pub open spec fn in_order(ts: Seq<u128>) -> bool {
    forall|i: int, j: int| 0 <= i <= j < ts.len() ==> ts[i] <= ts[j]
}

/// Number of leading events older than the window.
spec fn stale_count(s: Seq<u128>, now: u128, window: nat) -> nat
    decreases s.len(),
{
    if s.len() > 0 && elapsed(now, s[0]) > window {
        1 + stale_count(s.skip(1), now, window)
    } else {
        0
    }
}

proof fn lemma_stale_count(s: Seq<u128>, now: u128, window: nat)
    requires
        in_order(s),
    ensures
        stale_count(s, now, window) <= s.len(),
        drop_stale(s, now, window) == s.skip(stale_count(s, now, window) as int),
        forall|i: int|
            0 <= i < s.len() ==> (i < stale_count(s, now, window) <==> elapsed(
                now,
                #[trigger] s[i],
            ) > window),
    decreases s.len(),
{
    if s.len() > 0 && elapsed(now, s[0]) > window {
        let t = s.skip(1);
        assert forall|i: int, j: int| 0 <= i <= j < t.len() implies t[i] <= t[j] by {
            assert(s[i + 1] <= s[j + 1]);
        }
        lemma_stale_count(t, now, window);
        let k = stale_count(t, now, window);
        assert(t.skip(k as int) =~= s.skip(k as int + 1));
        assert forall|i: int| 0 <= i < s.len() implies (i < k + 1 <==> elapsed(
            now,
            #[trigger] s[i],
        ) > window) by {
            if i > 0 {
                assert(t[i - 1] == s[i]);
            }
        }
    } else {
        assert(s.skip(0) =~= s);
        assert forall|i: int| 0 <= i < s.len() implies elapsed(now, #[trigger] s[i])
            <= window by {
            assert(s[0] <= s[i]);
        }
    }
}

proof fn lemma_in_order_skip(s: Seq<u128>, k: int)
    requires
        in_order(s),
        0 <= k <= s.len(),
    ensures
        in_order(s.skip(k)),
{
    assert forall|i: int, j: int| 0 <= i <= j < s.skip(k).len() implies s.skip(k)[i] <= s.skip(
        k,
    )[j] by {
        assert(s[i + k] <= s[j + k]);
    }
}

/// A suffix of a list in order loses exactly the stale events that it still has.
proof fn lemma_stale_suffix(s: Seq<u128>, k: int, now: u128, window: nat)
    requires
        in_order(s),
        0 <= k <= s.len(),
    ensures
        ({
            let c = stale_count(s, now, window) as int;
            drop_stale(s.skip(k), now, window) == s.skip(if c > k { c } else { k })
        }),
{
    let t = s.skip(k);
    lemma_in_order_skip(s, k);
    lemma_stale_count(s, now, window);
    lemma_stale_count(t, now, window);
    let c = stale_count(s, now, window) as int;
    let d = stale_count(t, now, window) as int;
    if d < t.len() {
        assert(t[d] == s[k + d]);
    }
    if d > 0 {
        assert(t[d - 1] == s[k + d - 1]);
    }
    assert(k + d == if c > k { c } else { k });
    assert(t.skip(d) =~= s.skip(k + d));
}

/// After events in order, the filter holds the last of those within the window.
#[verifier::rlimit(30)]
proof fn lemma_count_history(min_count: nat, window: nat, ts: Seq<u128>)
    requires
        in_order(ts),
        ts.len() > 0,
    ensures
        ({
            let start = DebounceModel::Count { min_count, window, occurrences: seq![] };
            after_events(start, ts) == (DebounceModel::Count {
                min_count,
                window,
                occurrences: keep_last(drop_stale(ts, ts.last(), window), min_count),
            })
        }),
    decreases ts.len(),
{
    let start = DebounceModel::Count { min_count, window, occurrences: seq![] };
    let h = ts.drop_last();
    let now = ts.last();
    lemma_stale_count(ts, now, window);
    let c = stale_count(ts, now, window) as int;
    assert(elapsed(now, ts[ts.len() - 1]) == 0);
    assert(c < ts.len());
    if h.len() == 0 {
        assert(drop_stale(seq![], now, window) =~= Seq::<u128>::empty());
        assert(Seq::<u128>::empty().push(now) =~= ts);
        assert(ts.skip(c) =~= ts);
        assert(after_events(start, h) == start);
    } else {
        assert(in_order(h)) by {
            assert forall|i: int, j: int| 0 <= i <= j < h.len() implies h[i] <= h[j] by {
                assert(ts[i] <= ts[j]);
            }
        }
        lemma_count_history(min_count, window, h);
        lemma_stale_count(h, h.last(), window);
        let b = stale_count(h, h.last(), window) as int;
        let fresh = h.skip(b);
        let k: int = if fresh.len() > min_count { h.len() - min_count } else { b };
        assert(keep_last(fresh, min_count) =~= h.skip(k));
        lemma_stale_suffix(h, k, now, window);
        lemma_stale_count(h, now, window);
        let d = stale_count(h, now, window) as int;
        assert(d == c) by {
            if d < h.len() {
                assert(h[d] == ts[d]);
            }
            if d > 0 {
                assert(h[d - 1] == ts[d - 1]);
            }
        }
        if b > 0 {
            assert(h[b - 1] <= h.last() && h.last() == ts[h.len() - 1] && ts[h.len() - 1] <= now);
            assert(elapsed(now, h[b - 1]) > window);
            assert(b <= d);
        }
        let m: int = if d > k { d } else { k };
        assert(h.skip(m).push(now) =~= ts.skip(m));
        assert(keep_last(ts.skip(m), min_count) =~= keep_last(ts.skip(c), min_count));
    }
}

/// The counting filter reports an event exactly when at least `min_count` of the
/// events since the last reset, the new one among them, lie within the window.
pub proof fn law_count_within_window(min_count: nat, window: nat, ts: Seq<u128>)
    requires
        ts.len() > 0,
        in_order(ts),
    ensures
        ({
            let start = DebounceModel::Count { min_count, window, occurrences: seq![] };
            after_events(start, ts.drop_last()).passes(ts.last()) <==> ts.filter(
                |t: u128| elapsed(ts.last(), t) <= window,
            ).len() >= min_count
        }),
{
    let start = DebounceModel::Count { min_count, window, occurrences: seq![] };
    let h = ts.drop_last();
    let now = ts.last();
    let f = |t: u128| elapsed(now, t) <= window;
    lemma_stale_count(ts, now, window);
    let c = stale_count(ts, now, window) as int;
    assert(ts.filter(f) =~= ts.skip(c)) by {
        lemma_filter_suffix(ts, c, f);
    }
    assert(elapsed(now, ts[ts.len() - 1]) == 0);
    if h.len() == 0 {
        assert(drop_stale(seq![], now, window) =~= Seq::<u128>::empty());
        assert(after_events(start, h) == start);
    } else {
        assert(in_order(h)) by {
            assert forall|i: int, j: int| 0 <= i <= j < h.len() implies h[i] <= h[j] by {
                assert(ts[i] <= ts[j]);
            }
        }
        lemma_count_history(min_count, window, h);
        lemma_stale_count(h, h.last(), window);
        let b = stale_count(h, h.last(), window) as int;
        let fresh = h.skip(b);
        let k: int = if fresh.len() > min_count { h.len() - min_count } else { b };
        assert(keep_last(fresh, min_count) =~= h.skip(k));
        lemma_stale_suffix(h, k, now, window);
        lemma_stale_count(h, now, window);
        let d = stale_count(h, now, window) as int;
        assert(d == c) by {
            if d < h.len() {
                assert(h[d] == ts[d]);
            }
            if d > 0 {
                assert(h[d - 1] == ts[d - 1]);
            }
        }
        if b > 0 {
            assert(h[b - 1] <= h.last() && h.last() == ts[h.len() - 1] && ts[h.len() - 1] <= now);
            assert(elapsed(now, h[b - 1]) > window);
            assert(b <= d);
        }
    }
}

/// If a predicate holds exactly from a position on, filtering keeps that suffix.
proof fn lemma_filter_suffix(s: Seq<u128>, c: int, f: spec_fn(u128) -> bool)
    requires
        0 <= c <= s.len(),
        forall|i: int| 0 <= i < s.len() ==> (i >= c <==> f(#[trigger] s[i])),
    ensures
        s.filter(f) == s.skip(c),
    decreases s.len(),
{
    reveal(Seq::filter);
    if s.len() > 0 {
        let t = s.drop_last();
        if c < s.len() {
            assert forall|i: int| 0 <= i < t.len() implies (i >= c <==> f(#[trigger] t[i])) by {
                assert(t[i] == s[i]);
            }
            lemma_filter_suffix(t, c, f);
            assert(f(s[s.len() - 1]));
            assert(t.skip(c).push(s.last()) =~= s.skip(c));
        } else {
            assert forall|i: int| 0 <= i < t.len() implies (i >= c - 1 <==> f(#[trigger] t[i])) by {
                assert(t[i] == s[i]);
            }
            lemma_filter_suffix(t, c - 1, f);
            assert(!f(s[s.len() - 1]));
            assert(t.skip(c - 1) =~= s.skip(c));
        }
    } else {
        assert(s.skip(c) =~= s);
    }
}

/// The counting filter never keeps more than `min_count` events.
pub proof fn law_count_is_bounded(min_count: nat, window: nat, occurrences: Seq<u128>, now: u128)
    ensures
        (DebounceModel::Count { min_count, window, occurrences }).after_event(
            now,
        )->Count_occurrences.len() <= min_count,
{
}

/// Two reports of the cooldown filter are at least the cooldown apart, and the
/// cooldown is the only thing that holds a report back.
pub proof fn law_edge_reports_are_spaced(cooldown: nat, last: Option<u128>, t1: u128, t2: u128)
    requires
        (DebounceModel::Edge { cooldown, last }).passes(t1),
    ensures
        (DebounceModel::Edge { cooldown, last }).after_event(t1).passes(t2) <==> elapsed(t2, t1)
            >= cooldown,
{
}

/// A reset of the cooldown filter holds back what comes before the cooldown is
/// over.
pub proof fn law_edge_reset_starts_cooldown(cooldown: nat, last: Option<u128>, t1: u128, t2: u128)
    ensures
        (DebounceModel::Edge { cooldown, last }).after_reset(t1).passes(t2) <==> elapsed(t2, t1)
            >= cooldown,
{
}

/// The hold filter measures from the first event after a reset, which it never
/// reports itself.
pub proof fn law_hold_measures_from_first(
    duration: nat,
    start: Option<u128>,
    t0: u128,
    t1: u128,
    t2: u128,
)
    ensures
        ({
            let fresh = (DebounceModel::Hold { duration, start }).after_reset(t0);
            &&& !fresh.passes(t1)
            &&& fresh.after_event(t1).passes(t2) <==> elapsed(t2, t1) >= duration
        }),
{
}

/// A duration counts each second as a billion nanoseconds.
pub proof fn law_durations_are_in_nanoseconds(d: IpcDuration)
    ensures
        d.total_nanos() == d.secs * 1_000_000_000 + d.nanos,
        d.secs < u64::MAX ==> (IpcDuration { secs: (d.secs + 1) as u64, nanos: d.nanos }).total_nanos()
            == d.total_nanos() + 1_000_000_000,
{
}

/// The state of a hold filter after events: the time of the first one.
proof fn lemma_hold_history(duration: nat, ts: Seq<u128>)
    requires
        ts.len() > 0,
    ensures
        after_events(DebounceModel::Hold { duration, start: None }, ts) == (DebounceModel::Hold {
            duration,
            start: Some(ts[0]),
        }),
    decreases ts.len(),
{
    if ts.len() > 1 {
        lemma_hold_history(duration, ts.drop_last());
        assert(ts.drop_last()[0] == ts[0]);
    } else {
        assert(after_events(DebounceModel::Hold { duration, start: None }, ts.drop_last())
            == (DebounceModel::Hold { duration, start: None }));
    }
}

/// Of any series of events, a new hold filter reports exactly those that are not the
/// first and that come at least the duration after the first. What was reported before
/// does not matter.
pub proof fn law_hold_reports_from_duration_on(duration: IpcDuration, ts: Seq<u128>, i: int)
    requires
        0 <= i < ts.len(),
    ensures
        after_events(
            DebounceModel::initial(DebounceMode::HoldTime { duration }),
            ts.take(i),
        ).passes(ts[i]) <==> i > 0 && (ts[i] >= ts[0] + duration.secs * 1_000_000_000
            + duration.nanos || (duration.secs == 0 && duration.nanos == 0)),
{
    if i > 0 {
        lemma_hold_history(duration.total_nanos(), ts.take(i));
        assert(ts.take(i)[0] == ts[0]);
    } else {
        assert(after_events(
            DebounceModel::initial(DebounceMode::HoldTime { duration }),
            ts.take(0),
        ) == DebounceModel::initial(DebounceMode::HoldTime { duration }));
    }
}

/// Whether a filter reports the event at a place of a series.
pub open spec fn reported(m: DebounceModel, ts: Seq<u128>, i: int) -> bool {
    after_events(m, ts.take(i)).passes(ts[i])
}

/// Of any series of events, a new cooldown filter reports the first one, and after that
/// exactly those that come at least the cooldown after the last one that it reported.
/// Events that it holds back do not extend the cooldown.
pub proof fn law_edge_reports_after_cooldown(
    cooldown: IpcDuration,
    ts: Seq<u128>,
    last: int,
    i: int,
)
    requires
        0 <= last < i < ts.len(),
        reported(DebounceModel::initial(DebounceMode::EdgeWithCooldown { cooldown }), ts, last),
        forall|j: int|
            last < j < i ==> !#[trigger] reported(
                DebounceModel::initial(DebounceMode::EdgeWithCooldown { cooldown }),
                ts,
                j,
            ),
    ensures
        ({
            let start = DebounceModel::initial(DebounceMode::EdgeWithCooldown { cooldown });
            &&& reported(start, ts, 0)
            &&& reported(start, ts, i) <==> (ts[i] >= ts[last] + cooldown.secs * 1_000_000_000
                + cooldown.nanos || (cooldown.secs == 0 && cooldown.nanos == 0))
        }),
{
    let start = DebounceModel::initial(DebounceMode::EdgeWithCooldown { cooldown });
    assert(after_events(start, ts.take(0)) == start);
    lemma_edge_history(cooldown, ts, last, i);
}

/// The first event is reported at once.
pub proof fn law_edge_reports_first(cooldown: IpcDuration, t: u128)
    ensures
        DebounceModel::initial(DebounceMode::EdgeWithCooldown { cooldown }).passes(t),
{
}

/// The cooldown runs from the last report.
proof fn lemma_edge_history(cooldown: IpcDuration, ts: Seq<u128>, last: int, i: int)
    requires
        0 <= last < i <= ts.len(),
        reported(DebounceModel::initial(DebounceMode::EdgeWithCooldown { cooldown }), ts, last),
        forall|j: int|
            last < j < i ==> !#[trigger] reported(
                DebounceModel::initial(DebounceMode::EdgeWithCooldown { cooldown }),
                ts,
                j,
            ),
    ensures
        after_events(
            DebounceModel::initial(DebounceMode::EdgeWithCooldown { cooldown }),
            ts.take(i),
        ) == (DebounceModel::Edge { cooldown: cooldown.total_nanos(), last: Some(ts[last]) }),
    decreases i,
{
    let start = DebounceModel::initial(DebounceMode::EdgeWithCooldown { cooldown });
    assert(ts.take(i).drop_last() =~= ts.take(i - 1));
    assert(ts.take(i).last() == ts[i - 1]);
    lemma_edge_form(cooldown, ts.take(i - 1));
    if i - 1 > last {
        lemma_edge_history(cooldown, ts, last, i - 1);
        assert(!reported(start, ts, i - 1));
    }
}

/// A cooldown filter stays one with the same cooldown.
proof fn lemma_edge_form(cooldown: IpcDuration, ts: Seq<u128>)
    ensures
        after_events(
            DebounceModel::initial(DebounceMode::EdgeWithCooldown { cooldown }),
            ts,
        ) matches DebounceModel::Edge { cooldown: c, .. } && c == cooldown.total_nanos(),
    decreases ts.len(),
{
    if ts.len() > 0 {
        lemma_edge_form(cooldown, ts.drop_last());
    }
}

/// Of a series of events in order, a new counting filter reports exactly those with which
/// at least `min_count` events lie within the window.
pub proof fn law_count_reports_enough_events(
    min_count: u32,
    window: IpcDuration,
    ts: Seq<u128>,
)
    requires
        ts.len() > 0,
        in_order(ts),
    ensures
        after_events(
            DebounceModel::initial(DebounceMode::CountWithinWindow { min_count, window }),
            ts.drop_last(),
        ).passes(ts.last()) <==> ts.filter(
            |t: u128| ts.last() <= t + window.secs * 1_000_000_000 + window.nanos,
        ).len() >= min_count,
{
    law_count_within_window(min_count as nat, window.total_nanos(), ts);
    let f = |t: u128| elapsed(ts.last(), t) <= window.total_nanos();
    let g = |t: u128| ts.last() <= t + window.secs * 1_000_000_000 + window.nanos;
    assert(f =~= g);
}

/// After a reset a counting or a hold filter is like a new one, whatever it has seen. A
/// cooldown filter is like a new one that has just reported.
pub proof fn law_reset_starts_over(mode: DebounceMode, ts: Seq<u128>, now: u128)
    ensures
        ({
            let start = DebounceModel::initial(mode);
            after_events(start, ts).after_reset(now) == if mode is EdgeWithCooldown {
                start.after_event(now)
            } else {
                start
            }
        }),
    decreases ts.len(),
{
    if ts.len() > 0 {
        law_reset_starts_over(mode, ts.drop_last(), now);
        lemma_same_kind(mode, ts.drop_last());
        lemma_same_kind(mode, ts);
    }
}

/// Events leave the settings of a filter alone.
proof fn lemma_same_kind(mode: DebounceMode, ts: Seq<u128>)
    ensures
        match (mode, after_events(DebounceModel::initial(mode), ts)) {
            (
                DebounceMode::CountWithinWindow { min_count, window },
                DebounceModel::Count { min_count: n, window: w, .. },
            ) => n == min_count && w == window.total_nanos(),
            (
                DebounceMode::HoldTime { duration },
                DebounceModel::Hold { duration: d, .. },
            ) => d == duration.total_nanos(),
            (
                DebounceMode::EdgeWithCooldown { cooldown },
                DebounceModel::Edge { cooldown: c, .. },
            ) => c == cooldown.total_nanos(),
            _ => false,
        },
    decreases ts.len(),
{
    if ts.len() > 0 {
        lemma_same_kind(mode, ts.drop_last());
    }
}

} // verus!
