//! Timing rules of the listeners: the debounce of bursty device events and
//! the periodic wake-ups.
//!
//! Time is a count of milliseconds on a monotonic clock that the caller reads.
//! Nothing here sleeps or reads a clock: the caller sleeps as long as it is
//! told and reports the time at which it woke.

use vstd::prelude::*;

verus! {

/// Delay between the first device event of a burst and the poll it causes.
pub const DEBOUNCE_DELAY_MS: u64 = 1000;

/// Period at which the pending debounce deadline is examined.
pub const DEBOUNCE_TICK_MS: u64 = 100;

/// Period of the unconditional battery poll.
pub const FALLBACK_PERIOD_MS: u64 = 30000;

/// Period at which an interactive subprocess is sent a keepalive input.
pub const KEEPALIVE_PERIOD_MS: u64 = 60000;

/// Delay before a failed connection or a failed readiness wait is retried.
pub const RETRY_DELAY_MS: u64 = 1000;

/// The deadline that is pending after a device event observed at `now`: an
/// already pending deadline stays, otherwise the deadline is one debounce
/// delay after `now`.
pub open spec fn deadline_after_event(deadline: Option<int>, now: int) -> Option<int> {
    match deadline {
        Some(_) => deadline,
        None => Some(now + DEBOUNCE_DELAY_MS),
    }
}

/// Whether a tick at `now` finds a pending deadline that has elapsed.
pub open spec fn tick_polls(deadline: Option<int>, now: int) -> bool {
    deadline matches Some(d) && now >= d
}

/// The deadline that is pending after a tick at `now`.
pub open spec fn deadline_after_tick(deadline: Option<int>, now: int) -> Option<int> {
    if tick_polls(deadline, now) {
        None
    } else {
        deadline
    }
}

/// Coalesces a burst of device events into one delayed poll, timed from the
/// first event of the burst.
pub struct Debouncer {
    pending_since: Option<u64>,
}

impl View for Debouncer {
    type V = Option<int>;

    /// The pending deadline, if any.
    closed spec fn view(&self) -> Option<int> {
        match self.pending_since {
            Some(since) => Some(since + DEBOUNCE_DELAY_MS),
            None => None,
        }
    }
}

impl Debouncer {
    /// A debouncer with no deadline pending.
    pub fn new() -> (d: Debouncer)
        ensures
            d@ is None,
    {
        Debouncer { pending_since: None }
    }

    /// Whether a deadline is pending.
    pub fn is_pending(&self) -> (p: bool)
        ensures
            p == (self@ is Some),
    {
        self.pending_since.is_some()
    }

    /// Records a qualifying device event observed at `now_ms`. The first
    /// event of a burst sets the deadline; later ones do not extend it.
    pub fn on_event(&mut self, now_ms: u64)
        ensures
            final(self)@ == deadline_after_event(old(self)@, now_ms as int),
    {
        if self.pending_since.is_none() {
            self.pending_since = Some(now_ms);
        }
    }

    /// Examines the deadline at `now_ms`. Returns whether a poll is due; if
    /// so the deadline is cleared.
    pub fn on_tick(&mut self, now_ms: u64) -> (poll: bool)
        ensures
            poll == tick_polls(old(self)@, now_ms as int),
            final(self)@ == deadline_after_tick(old(self)@, now_ms as int),
    {
        match self.pending_since {
            Some(since) => {
                if now_ms >= since && now_ms - since >= DEBOUNCE_DELAY_MS {
                    self.pending_since = None;
                    true
                } else {
                    false
                }
            },
            None => false,
        }
    }
}

/// One input of a debouncer: a device event or a tick, with the time at which
/// it was observed.
pub enum DebounceInput {
    Event(int),
    Tick(int),
}

impl DebounceInput {
    /// The time at which the input was observed.
    pub open spec fn time(self) -> int {
        match self {
            DebounceInput::Event(t) => t,
            DebounceInput::Tick(t) => t,
        }
    }
}

/// The deadline that is pending after one input.
pub open spec fn deadline_after(deadline: Option<int>, input: DebounceInput) -> Option<int> {
    match input {
        DebounceInput::Event(t) => deadline_after_event(deadline, t),
        DebounceInput::Tick(t) => deadline_after_tick(deadline, t),
    }
}

/// Whether one input causes a poll.
pub open spec fn input_polls(deadline: Option<int>, input: DebounceInput) -> bool {
    match input {
        DebounceInput::Event(_) => false,
        DebounceInput::Tick(t) => tick_polls(deadline, t),
    }
}

/// The times of the polls that a run of inputs causes, in order.
pub open spec fn poll_times(deadline: Option<int>, inputs: Seq<DebounceInput>) -> Seq<int>
    decreases inputs.len(),
{
    if inputs.len() == 0 {
        Seq::empty()
    } else {
        let rest = poll_times(deadline_after(deadline, inputs[0]), inputs.drop_first());
        if input_polls(deadline, inputs[0]) {
            seq![inputs[0].time()] + rest
        } else {
            rest
        }
    }
}

/// The inputs are in the order of their times.
pub open spec fn in_time_order(inputs: Seq<DebounceInput>) -> bool {
    forall|i: int, j: int| 0 <= i <= j < inputs.len() ==> inputs[i].time() <= inputs[j].time()
}

/// Every device event among the inputs was observed before `limit`.
pub open spec fn events_before(inputs: Seq<DebounceInput>, limit: int) -> bool {
    forall|i: int| 0 <= i < inputs.len() && inputs[i] is Event ==> inputs[i].time() < limit
}

/// Some tick among the inputs was observed at or after `limit`.
pub open spec fn has_tick_from(inputs: Seq<DebounceInput>, limit: int) -> bool {
    exists|i: int| 0 <= i < inputs.len() && inputs[i] is Tick && inputs[i].time() >= limit
}

/// Without device events and without a pending deadline no tick polls.
pub proof fn lemma_no_event_no_poll(inputs: Seq<DebounceInput>)
    requires
        forall|i: int| 0 <= i < inputs.len() ==> inputs[i] is Tick,
    ensures
        poll_times(None, inputs).len() == 0,
    decreases inputs.len(),
{
    if inputs.len() > 0 {
        let rest = inputs.drop_first();
        assert forall|i: int| 0 <= i < rest.len() implies rest[i] is Tick by {
            assert(rest[i] == inputs[i + 1]);
        }
        lemma_no_event_no_poll(rest);
    }
}

/// With a deadline pending, inputs in time order whose device events all
/// precede the deadline cause at most one poll, never before the deadline,
/// and exactly one if a tick is observed at or after it: the poll comes with
/// the earliest such tick.
pub proof fn lemma_pending_polls_once(deadline: int, inputs: Seq<DebounceInput>)
    requires
        in_time_order(inputs),
        events_before(inputs, deadline),
    ensures
        poll_times(Some(deadline), inputs).len() == if has_tick_from(inputs, deadline) {
            1nat
        } else {
            0nat
        },
        forall|k: int|
            0 <= k < poll_times(Some(deadline), inputs).len() ==> poll_times(
                Some(deadline),
                inputs,
            )[k] >= deadline,
        forall|i: int|
            0 <= i < inputs.len() && inputs[i] is Tick && (#[trigger] inputs[i]).time()
                >= deadline ==> poll_times(Some(deadline), inputs)[0] <= inputs[i].time(),
    decreases inputs.len(),
{
    if inputs.len() > 0 {
        let first = inputs[0];
        let rest = inputs.drop_first();
        assert(in_time_order(rest)) by {
            assert forall|i: int, j: int| 0 <= i <= j < rest.len() implies rest[i].time()
                <= rest[j].time() by {
                assert(rest[i] == inputs[i + 1]);
                assert(rest[j] == inputs[j + 1]);
            }
        }
        assert(events_before(rest, deadline)) by {
            assert forall|i: int| 0 <= i < rest.len() && rest[i] is Event implies rest[i].time()
                < deadline by {
                assert(rest[i] == inputs[i + 1]);
            }
        }
        if input_polls(Some(deadline), first) {
            // The tick that polls clears the deadline; everything after it is
            // later than the deadline, so no device event follows.
            assert forall|i: int| 0 <= i < rest.len() implies rest[i] is Tick by {
                assert(rest[i] == inputs[i + 1]);
                assert(inputs[0].time() <= inputs[i + 1].time());
            }
            lemma_no_event_no_poll(rest);
            assert(has_tick_from(inputs, deadline)) by {
                assert(inputs[0] is Tick && inputs[0].time() >= deadline);
            }
            assert(poll_times(Some(deadline), inputs) =~= seq![first.time()]);
        } else {
            lemma_pending_polls_once(deadline, rest);
            assert(poll_times(Some(deadline), inputs) == poll_times(Some(deadline), rest));
            if has_tick_from(rest, deadline) {
                let i = choose|i: int|
                    0 <= i < rest.len() && rest[i] is Tick && rest[i].time() >= deadline;
                assert(inputs[i + 1] is Tick && inputs[i + 1].time() >= deadline);
            }
            if has_tick_from(inputs, deadline) {
                let i = choose|i: int|
                    0 <= i < inputs.len() && inputs[i] is Tick && inputs[i].time() >= deadline;
                assert(rest[i - 1] is Tick && rest[i - 1].time() >= deadline);
            }
            assert forall|i: int|
                0 <= i < inputs.len() && inputs[i] is Tick && (#[trigger] inputs[i]).time()
                    >= deadline implies poll_times(Some(deadline), inputs)[0]
                <= inputs[i].time() by {
                assert(rest[i - 1] == inputs[i]);
            }
        }
    } else {
        assert(!has_tick_from(inputs, deadline));
    }
}

/// A burst of device events that all fall within one debounce delay of the
/// first causes exactly one poll, with the earliest tick that is at least
/// one debounce delay after the first event, and none if no such tick comes.
/// No poll is earlier than one debounce delay after the first event.
pub proof fn lemma_burst_polls_once(first_event: int, later: Seq<DebounceInput>)
    requires
        in_time_order(later),
        events_before(later, first_event + DEBOUNCE_DELAY_MS),
    ensures
        poll_times(None, seq![DebounceInput::Event(first_event)] + later).len()
            == if has_tick_from(later, first_event + DEBOUNCE_DELAY_MS) {
            1nat
        } else {
            0nat
        },
        forall|k: int|
            0 <= k < poll_times(None, seq![DebounceInput::Event(first_event)] + later).len()
                ==> poll_times(None, seq![DebounceInput::Event(first_event)] + later)[k]
                >= first_event + DEBOUNCE_DELAY_MS,
        forall|i: int|
            0 <= i < later.len() && later[i] is Tick && (#[trigger] later[i]).time()
                >= first_event + DEBOUNCE_DELAY_MS ==> poll_times(
                None,
                seq![DebounceInput::Event(first_event)] + later,
            )[0] <= later[i].time(),
{
    let inputs = seq![DebounceInput::Event(first_event)] + later;
    assert(inputs.drop_first() =~= later);
    assert(inputs[0] == DebounceInput::Event(first_event));
    lemma_pending_polls_once(first_event + DEBOUNCE_DELAY_MS, later);
    assert(poll_times(None, inputs) == poll_times(
        Some(first_event + DEBOUNCE_DELAY_MS),
        later,
    ));
}

/// How long to sleep at `now` before a wake-up that is due at `due` and
/// recurs every `period`: the time that is left, never more than one period.
pub open spec fn time_to_wait(due: int, period: int, now: int) -> int {
    if now >= due {
        0
    } else if due - now > period {
        period
    } else {
        due - now
    }
}

/// Whether a wake-up at `now` finds the action due.
pub open spec fn wake_fires(due: int, now: int) -> bool {
    now >= due
}

/// The time at which the action is due after a wake-up at `now`: one period
/// after the wake-up if it fired, unchanged otherwise.
pub open spec fn due_after_wake(due: int, period: int, now: int) -> int {
    if wake_fires(due, now) {
        now + period
    } else {
        due
    }
}

/// The schedule of a periodic action: the action is due one period after the
/// ticker was made or after it last fired.
pub struct Ticker {
    period_ms: u64,
    armed_ms: u64,
}

impl Ticker {
    /// The period of the ticker.
    pub closed spec fn period(&self) -> int {
        self.period_ms as int
    }

    /// The time at which the action is next due.
    pub closed spec fn due(&self) -> int {
        self.armed_ms + self.period_ms
    }

    /// A ticker made at `now_ms`, first due one period later.
    pub fn new(period_ms: u64, now_ms: u64) -> (t: Ticker)
        ensures
            t.period() == period_ms,
            t.due() == now_ms + period_ms,
    {
        Ticker { period_ms, armed_ms: now_ms }
    }

    /// How many milliseconds to sleep at `now_ms` before waking.
    pub fn wait_ms(&self, now_ms: u64) -> (w: u64)
        ensures
            w == time_to_wait(self.due(), self.period(), now_ms as int),
    {
        if now_ms < self.armed_ms {
            self.period_ms
        } else if now_ms - self.armed_ms >= self.period_ms {
            0
        } else {
            self.period_ms - (now_ms - self.armed_ms)
        }
    }

    /// Reports a wake-up at `now_ms`. Returns whether the action is due; if
    /// so it is next due one period after `now_ms`.
    pub fn on_wake(&mut self, now_ms: u64) -> (fire: bool)
        ensures
            fire == wake_fires(old(self).due(), now_ms as int),
            final(self).period() == old(self).period(),
            final(self).due() == due_after_wake(
                old(self).due(),
                old(self).period(),
                now_ms as int,
            ),
    {
        if now_ms >= self.armed_ms && now_ms - self.armed_ms >= self.period_ms {
            self.armed_ms = now_ms;
            true
        } else {
            false
        }
    }
}


/// The time of the `n`-th wake-up of a caller that, starting at `start` with
/// a new ticker, always sleeps exactly as long as `time_to_wait` says, paired
/// with the time at which the action is due after that wake-up.
pub open spec fn punctual_wake(start: int, period: int, n: nat) -> (int, int)
    decreases n,
{
    if n == 0 {
        (start, start + period)
    } else {
        let (woke, due) = punctual_wake(start, period, (n - 1) as nat);
        let now = woke + time_to_wait(due, period, woke);
        (now, due_after_wake(due, period, now))
    }
}

/// A caller that sleeps as long as it is told finds the action due at every
/// wake-up, and its wake-ups are exactly one period apart: the `n`-th is
/// `n` periods after the start, whatever else happens in between.
pub proof fn lemma_punctual_wakes_are_periodic(start: int, period: int, n: nat)
    requires
        period >= 0,
        n >= 1,
    ensures
        punctual_wake(start, period, n).0 == start + n * period,
        wake_fires(
            punctual_wake(start, period, (n - 1) as nat).1,
            punctual_wake(start, period, n).0,
        ),
        punctual_wake(start, period, n).1 == start + (n + 1) * period,
    decreases n,
{
    let before = punctual_wake(start, period, (n - 1) as nat);
    assert(before.0 == start + (n - 1) * period && before.1 == start + n * period) by {
        if n > 1 {
            lemma_punctual_wakes_are_periodic(start, period, (n - 1) as nat);
        } else {
            assert(0 * period == 0 && 1 * period == period) by (nonlinear_arith);
        }
    }
    assert((n - 1) * period + period == n * period) by (nonlinear_arith);
    assert(n * period + period == (n + 1) * period) by (nonlinear_arith);
    assert(before.0 + time_to_wait(before.1, period, before.0) == start + n * period);
}

/// The action never fires twice within one period: after it fired at
/// `fired_at`, a wake-up less than one period later does not fire, and one a
/// period later or more does.
pub proof fn lemma_fires_a_period_apart(due: int, period: int, fired_at: int, now: int)
    requires
        wake_fires(due, fired_at),
    ensures
        wake_fires(due_after_wake(due, period, fired_at), now) == (now >= fired_at + period),
{
}

} // verus!
