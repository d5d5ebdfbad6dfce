//! The battery listener: what a poll of the power-supply node yields and
//! which device events count as a change of the battery.
//!
//! The listener polls two text files of the battery's power-supply node, one
//! with the charge in percent and one with the charging status. A poll is
//! caused by a debounced device event or by the periodic fallback; see
//! `timing` for both and `snapshot` for the suppression of unchanged polls.

use crate::snapshot::{
    ChangeFilter, emission, emissions, last_after, lemma_unchanged_readings_are_silent, Snapshot,
};
use crate::text::{lemma_whole_range, parse_percent, Text, trim};
use crate::timing::{
    deadline_after_event, deadline_after_tick, DebounceInput, Debouncer, FALLBACK_PERIOD_MS,
    lemma_no_event_no_poll, lemma_punctual_wakes_are_periodic, poll_times, punctual_wake,
    RETRY_DELAY_MS, tick_polls,
};
use crate::views::view_of;
use vstd::prelude::*;

verus! {

/// Kernel name of the battery whose state is shown.
pub const BATTERY_NAME: &'static str = "BAT0";

/// Subsystem to which the device-event subscription is scoped.
pub const POWER_SUPPLY_SUBSYSTEM: &'static str = "power_supply";

/// File that holds the charge of the battery in percent.
pub const CAPACITY_PATH: &'static str = "/sys/class/power_supply/BAT0/capacity";

/// File that holds the charging status of the battery.
pub const STATUS_PATH: &'static str = "/sys/class/power_supply/BAT0/status";

/// Charge and charging status of the battery at one moment.
#[derive(Debug)]
pub struct BatteryInfo {
    /// Charge in percent, from 0 to 100.
    pub capacity: u8,
    /// Charging status as the kernel words it, such as `Charging`,
    /// `Discharging`, `Full` or `Unknown`.
    pub status: String,
}

/// The value of a `BatteryInfo`.
pub struct BatteryInfoView {
    pub capacity: u8,
    pub status: Seq<char>,
}

impl View for BatteryInfo {
    type V = BatteryInfoView;

    open spec fn view(&self) -> BatteryInfoView {
        BatteryInfoView { capacity: self.capacity, status: self.status@ }
    }
}

impl BatteryInfoView {
    /// The charge is a percentage.
    pub open spec fn wf(self) -> bool {
        self.capacity <= 100
    }
}

impl Clone for BatteryInfo {
    fn clone(&self) -> (r: Self)
        ensures
            r@ == self@,
    {
        BatteryInfo { capacity: self.capacity, status: self.status.clone() }
    }
}

impl PartialEq for BatteryInfo {
    fn eq(&self, other: &Self) -> (r: bool) {
        self.capacity == other.capacity && self.status == other.status
    }
}

impl vstd::std_specs::cmp::PartialEqSpecImpl for BatteryInfo {
    open spec fn obeys_eq_spec() -> bool {
        true
    }

    open spec fn eq_spec(&self, other: &Self) -> bool {
        self.capacity == other.capacity && self.status@ == other.status@
    }
}

impl Snapshot for BatteryInfo {
    fn same(&self, other: &Self) -> (r: bool) {
        self.capacity == other.capacity && self.status == other.status
    }

    fn duplicate(&self) -> (r: Self) {
        self.clone()
    }
}

/// What a poll yields, given the contents of the charge file and of the
/// status file, each `None` if it could not be read: a snapshot if both were
/// read and the charge file, trimmed, writes a percentage; nothing otherwise.
/// The status is the trimmed content of the status file.
pub open spec fn battery_reading(
    capacity_text: Option<Seq<char>>,
    status_text: Option<Seq<char>>,
) -> Option<BatteryInfoView> {
    match (capacity_text, status_text) {
        (Some(c), Some(s)) => match parse_percent(trim(c)) {
            Some(n) => Some(BatteryInfoView { capacity: n, status: trim(s) }),
            None => None,
        },
        _ => None,
    }
}

/// Builds the snapshot of one poll from the contents of the two files.
pub fn read_battery_info(capacity_text: Option<&str>, status_text: Option<&str>) -> (r: Option<
    BatteryInfo,
>)
    ensures
        view_of(r) == battery_reading(view_of(capacity_text), view_of(status_text)),
        r matches Some(info) ==> info@.wf(),
{
    let capacity_text = match capacity_text {
        Some(t) => t,
        None => { return None; },
    };
    let status_text = match status_text {
        Some(t) => t,
        None => { return None; },
    };
    let capacity_chars = Text::new(capacity_text);
    let (from, to) = capacity_chars.trim_range(0, capacity_chars.len());
    proof {
        lemma_whole_range(capacity_chars@);
    }
    let capacity = match capacity_chars.parse_percent(from, to) {
        Some(n) => n,
        None => { return None; },
    };
    let status_chars = Text::new(status_text);
    let (from, to) = status_chars.trim_range(0, status_chars.len());
    proof {
        lemma_whole_range(status_chars@);
    }
    let status = status_chars.substring(from, to);
    Some(BatteryInfo { capacity, status })
}

/// The kinds of device event that the kernel reports.
#[derive(Debug, Clone, Copy, PartialEq, Eq, Structural)]
pub enum DeviceEventKind {
    Add,
    Change,
    Remove,
    Bind,
    Unbind,
    Unknown,
}

/// Whether a device event is a change of the battery: its kind is `Change`
/// and the device's kernel name is that of the battery.
pub open spec fn is_battery_change(kind: DeviceEventKind, sysname: Seq<char>) -> bool {
    kind == DeviceEventKind::Change && sysname == BATTERY_NAME@
}

/// Whether the device event arms the debounce.
pub fn qualifies(kind: DeviceEventKind, sysname: &str) -> (r: bool)
    ensures
        r == is_battery_change(kind, sysname@),
{
    match kind {
        DeviceEventKind::Change => {
            let name = Text::new(sysname);
            proof {
                lemma_whole_range(name@);
            }
            name.range_is(0, name.len(), BATTERY_NAME)
        },
        _ => false,
    }
}

/// What the event watcher does after a wait for readiness of its
/// subscription.
#[derive(Debug, Clone, Copy, PartialEq, Eq, Structural)]
pub enum WatchAction {
    /// Take the pending device events from the subscription.
    Drain,
    /// Wait for readiness again.
    WaitAgain,
    /// Sleep for the given number of milliseconds, then wait again.
    Backoff(u64),
}

/// What follows a wait for readiness that returned `result`, with
/// `readable` telling whether input was reported: a failed wait, one with a
/// negative result, is followed by the retry delay.
pub open spec fn action_after_wait(result: i32, readable: bool) -> WatchAction {
    if result < 0 {
        WatchAction::Backoff(RETRY_DELAY_MS)
    } else if readable {
        WatchAction::Drain
    } else {
        WatchAction::WaitAgain
    }
}

/// Decides what the event watcher does after a wait for readiness.
pub fn after_readiness_wait(result: i32, readable: bool) -> (r: WatchAction)
    ensures
        r == action_after_wait(result, readable),
{
    if result < 0 {
        WatchAction::Backoff(RETRY_DELAY_MS)
    } else if readable {
        WatchAction::Drain
    } else {
        WatchAction::WaitAgain
    }
}

/// The state that the loops of the battery listener share: the snapshot
/// emitted last and the pending debounce deadline.
pub struct BatteryListener {
    emitted: ChangeFilter<BatteryInfo>,
    debounce: Debouncer,
}

impl BatteryListener {
    /// The value of the snapshot emitted last.
    pub closed spec fn last(&self) -> Option<BatteryInfoView> {
        self.emitted.last()
    }

    /// The pending debounce deadline.
    pub closed spec fn deadline(&self) -> Option<int> {
        self.debounce@
    }

    /// A listener that has emitted nothing and has no deadline pending.
    pub fn new() -> (l: BatteryListener)
        ensures
            l.last() is None,
            l.deadline() is None,
    {
        BatteryListener { emitted: ChangeFilter::new(), debounce: Debouncer::new() }
    }

    /// Takes the contents of the two files as one poll read them. Returns
    /// the snapshot to emit: the one that the poll yields, if it yields one
    /// and it differs from the one emitted last.
    pub fn on_poll(&mut self, capacity_text: Option<&str>, status_text: Option<&str>) -> (out:
        Option<BatteryInfo>)
        ensures
            view_of(out) == emission(
                old(self).last(),
                battery_reading(view_of(capacity_text), view_of(status_text)),
            ),
            final(self).last() == last_after(
                old(self).last(),
                battery_reading(view_of(capacity_text), view_of(status_text)),
            ),
            final(self).deadline() == old(self).deadline(),
    {
        self.emitted.offer(read_battery_info(capacity_text, status_text))
    }

    /// Takes a device event observed at `now_ms`. A change of the battery
    /// sets the debounce deadline unless one is pending; any other event
    /// changes nothing.
    pub fn on_device_event(&mut self, kind: DeviceEventKind, sysname: &str, now_ms: u64)
        ensures
            final(self).deadline() == if is_battery_change(kind, sysname@) {
                deadline_after_event(old(self).deadline(), now_ms as int)
            } else {
                old(self).deadline()
            },
            final(self).last() == old(self).last(),
    {
        if qualifies(kind, sysname) {
            self.debounce.on_event(now_ms);
        }
    }

    /// Takes a debounce tick at `now_ms`. Returns whether to poll now.
    pub fn on_debounce_tick(&mut self, now_ms: u64) -> (poll: bool)
        ensures
            poll == tick_polls(old(self).deadline(), now_ms as int),
            final(self).deadline() == deadline_after_tick(old(self).deadline(), now_ms as int),
            final(self).last() == old(self).last(),
    {
        self.debounce.on_tick(now_ms)
    }
}

/// A battery at rest: while no device event arrives and every poll fails or
/// finds the state `v` that was emitted last, the debounce ticks cause no
/// poll and no poll emits anything. The fallback goes on all the same: a
/// loop that sleeps as long as its ticker says polls at every wake-up, the
/// `n`-th time `n` fallback periods after its start.
pub proof fn lemma_battery_at_rest(
    v: BatteryInfoView,
    ticks: Seq<DebounceInput>,
    readings: Seq<Option<BatteryInfoView>>,
    start: int,
    n: nat,
)
    requires
        forall|i: int| 0 <= i < ticks.len() ==> ticks[i] is Tick,
        forall|i: int| 0 <= i < readings.len() ==> readings[i] is None || readings[i] == Some(v),
        n >= 1,
    ensures
        poll_times(None, ticks).len() == 0,
        emissions(Some(v), readings).len() == 0,
        punctual_wake(start, FALLBACK_PERIOD_MS as int, n).0 == start + n * FALLBACK_PERIOD_MS,
{
    lemma_no_event_no_poll(ticks);
    lemma_unchanged_readings_are_silent(v, readings);
    lemma_punctual_wakes_are_periodic(start, FALLBACK_PERIOD_MS as int, n);
}

} // verus!
