//! Snapshots and the suppression of unchanged ones.
//!
//! A snapshot is an immutable record of one subsystem's state, compared by
//! value. A listener that suppresses duplicates remembers the snapshot it
//! emitted last and emits a new reading only when it differs from that one.

use crate::views::view_of;
use vstd::prelude::*;

verus! {

/// A value-comparable record of one subsystem's state. Its view is the
/// mathematical value that two snapshots are compared by.
pub trait Snapshot: View + Sized {
    /// Whether two snapshots record the same state.
    fn same(&self, other: &Self) -> (r: bool)
        ensures
            r == (self@ == other@),
    ;

    /// A second snapshot of the same state.
    fn duplicate(&self) -> (r: Self)
        ensures
            r@ == self@,
    ;
}

/// What a listener emits for a reading, given what it emitted last: the
/// reading itself if there is one and it differs, otherwise nothing. A failed
/// read (`None`) emits nothing.
pub open spec fn emission<V>(last: Option<V>, reading: Option<V>) -> Option<V> {
    if reading is Some && reading != last {
        reading
    } else {
        None
    }
}

/// What a listener remembers as emitted last after a reading.
pub open spec fn last_after<V>(last: Option<V>, reading: Option<V>) -> Option<V> {
    if reading is Some {
        reading
    } else {
        last
    }
}

/// The snapshots that a run of readings emits, in the order of the readings.
pub open spec fn emissions<V>(last: Option<V>, readings: Seq<Option<V>>) -> Seq<V>
    decreases readings.len(),
{
    if readings.len() == 0 {
        Seq::empty()
    } else {
        let rest = emissions(last_after(last, readings[0]), readings.drop_first());
        match emission(last, readings[0]) {
            Some(v) => seq![v] + rest,
            None => rest,
        }
    }
}

/// The memory of a listener that suppresses unchanged snapshots: the
/// snapshot emitted last, or nothing before the first emission.
pub struct ChangeFilter<T: Snapshot> {
    last: Option<T>,
}

impl<T: Snapshot> ChangeFilter<T> {
    /// The value of the snapshot emitted last.
    pub closed spec fn last(&self) -> Option<T::V> {
        match self.last {
            Some(s) => Some(s@),
            None => None,
        }
    }

    /// A filter that has emitted nothing yet.
    pub fn new() -> (f: Self)
        ensures
            f.last() is None,
    {
        ChangeFilter { last: None }
    }

    /// Takes the outcome of one read. Returns the snapshot to emit, if any,
    /// and remembers it as emitted.
    pub fn offer(&mut self, reading: Option<T>) -> (out: Option<T>)
        ensures
            view_of(out) == emission(old(self).last(), view_of(reading)),
            final(self).last() == last_after(old(self).last(), view_of(reading)),
    {
        match reading {
            Some(info) => {
                let unchanged = match &self.last {
                    Some(previous) => previous.same(&info),
                    None => false,
                };
                if unchanged {
                    None
                } else {
                    let out = info.duplicate();
                    self.last = Some(info);
                    Some(out)
                }
            },
            None => None,
        }
    }
}

/// A reading that repeats the one before it emits nothing: of two
/// consecutive reads of the same state only the first can emit.
pub proof fn lemma_repeated_reading_is_silent<V>(last: Option<V>, reading: Option<V>)
    ensures
        emission(last_after(last, reading), reading) is None,
{
}

/// After a snapshot of state `v` was emitted, reads that fail or find that
/// same state emit nothing, however many there are.
pub proof fn lemma_unchanged_readings_are_silent<V>(v: V, readings: Seq<Option<V>>)
    requires
        forall|i: int| 0 <= i < readings.len() ==> readings[i] is None || readings[i] == Some(v),
    ensures
        emissions(Some(v), readings).len() == 0,
    decreases readings.len(),
{
    if readings.len() > 0 {
        let rest = readings.drop_first();
        assert forall|i: int| 0 <= i < rest.len() implies rest[i] is None || rest[i] == Some(
            v,
        ) by {
            assert(rest[i] == readings[i + 1]);
        }
        lemma_unchanged_readings_are_silent(v, rest);
    }
}

/// A listener that has emitted nothing yet and reads the same state again
/// and again, at least once, emits exactly one snapshot: the first reading.
pub proof fn lemma_stable_readings_emit_once<V>(v: V, readings: Seq<Option<V>>)
    requires
        readings.len() >= 1,
        forall|i: int| 0 <= i < readings.len() ==> readings[i] == Some(v),
    ensures
        emissions(None, readings) == seq![v],
{
    let rest = readings.drop_first();
    assert forall|i: int| 0 <= i < rest.len() implies rest[i] is None || rest[i] == Some(v) by {
        assert(rest[i] == readings[i + 1]);
    }
    lemma_unchanged_readings_are_silent(v, rest);
    assert(emissions(None, readings) =~= seq![v]);
}

/// No state is emitted twice in a row: each emitted snapshot differs from
/// the one emitted before it, the first from the one remembered at the start.
pub proof fn lemma_emissions_never_repeat<V>(last: Option<V>, readings: Seq<Option<V>>)
    ensures
        emissions(last, readings).len() > 0 ==> last != Some(emissions(last, readings)[0]),
        forall|k: int|
            0 <= k < emissions(last, readings).len() - 1 ==> #[trigger] emissions(
                last,
                readings,
            )[k] != emissions(last, readings)[k + 1],
    decreases readings.len(),
{
    if readings.len() > 0 {
        let next = last_after(last, readings[0]);
        let rest = emissions(next, readings.drop_first());
        lemma_emissions_never_repeat(next, readings.drop_first());
        match emission(last, readings[0]) {
            Some(v) => {
                let all = emissions(last, readings);
                assert(all =~= seq![v] + rest);
                assert forall|k: int| 0 <= k < all.len() - 1 implies #[trigger] all[k] != all[k
                    + 1] by {
                    if k > 0 {
                        assert(all[k] == rest[k - 1]);
                        assert(all[k + 1] == rest[k]);
                    } else {
                        assert(all[1] == rest[0]);
                    }
                }
            },
            None => {
                assert(next == last);
            },
        }
    }
}

} // verus!
