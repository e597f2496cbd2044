use vstd::prelude::*;

verus! {

/// Decides when a recurring action is next due and counts how often it fired.
///
/// `next_time` is the bit pattern of an `f64` simulated time.
#[derive(Clone, Copy, Debug, PartialEq, Eq, Structural)]
pub struct RecurringTask {
    pub number: u64,
    pub next_time: u64,
}

/// A tracker that has never fired, due at time zero.
pub open spec fn fresh_task() -> RecurringTask {
    RecurringTask { number: 0, next_time: 0 }
}

/// The tracker after one more firing, with `next_time` as its new due time.
pub open spec fn advanced(t: RecurringTask, next_time: u64) -> RecurringTask {
    RecurringTask { number: (t.number + 1) as u64, next_time }
}

/// The tracker after firing once for each due time of `times`, in order.
pub open spec fn advanced_through(t: RecurringTask, times: Seq<u64>) -> RecurringTask
    decreases times.len(),
{
    if times.len() == 0 {
        t
    } else {
        advanced(advanced_through(t, times.drop_last()), times.last())
    }
}

impl RecurringTask {
    /// A tracker with no firings, due at time `0.0` (whose bit pattern is zero).
    pub fn new() -> (r: Self)
        ensures
            r == fresh_task(),
    {
        RecurringTask { number: 0, next_time: 0 }
    }

    /// Records one firing: the count grows by one and the action is next due
    /// at `next_time`, the previous due time plus the interval.
    pub fn next(&mut self, next_time: u64)
        requires
            old(self).number < u64::MAX,
        ensures
            *final(self) == advanced(*old(self), next_time),
    {
        self.next_time = next_time;
        self.number = self.number + 1;
    }
}

/// Advancing a fresh tracker once per due time leaves its count equal to the
/// number of advancements, and its due time the last one given.
pub proof fn lemma_count_tracks_firings(times: Seq<u64>)
    requires
        times.len() <= u64::MAX,
    ensures
        advanced_through(fresh_task(), times).number == times.len(),
        times.len() == 0 ==> advanced_through(fresh_task(), times).next_time == 0,
        times.len() > 0 ==> advanced_through(fresh_task(), times).next_time == times.last(),
    decreases times.len(),
{
    if times.len() > 0 {
        lemma_count_tracks_firings(times.drop_last());
    }
}

} // verus!
