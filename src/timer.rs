use vstd::prelude::*;

verus! {

/// A point in time of the monotonic clock, carried through opaquely.
#[verifier::external_type_specification]
#[verifier::external_body]
pub struct ExInstant(std::time::Instant);

/// Relies on std's `Instant::now`: reads the monotonic clock; nothing is known
/// of the value.
pub assume_specification[ std::time::Instant::now ]() -> std::time::Instant;

/// Relies on std's `Instant::elapsed` and `Duration::as_nanos`: the time since
/// `start`, in whole nanoseconds; nothing is known of the value.
#[verifier::external_body]
fn elapsed_nanos(start: &std::time::Instant) -> (r: u128) {
    start.elapsed().as_nanos()
}

/// Averages the durations of repeated measurements over windows of at least
/// `chunk_size_for_avg` samples. Durations are whole nanoseconds; the sum and
/// the count saturate instead of overflowing.
pub struct Timer {
    sum_nanos: u128,
    count: u32,
    chunk_size_for_avg: u32,
}

/// A measurement that has started and not yet ended.
pub struct ActiveMeasurement {
    start_time: std::time::Instant,
}

impl Timer {
    /// Sum of the recorded durations since the last average was taken.
    pub closed spec fn sum(&self) -> nat {
        self.sum_nanos as nat
    }

    /// Number of durations recorded since the last average was taken.
    pub closed spec fn count(&self) -> nat {
        self.count as nat
    }

    /// Number of samples that an average needs.
    pub closed spec fn chunk_size(&self) -> nat {
        self.chunk_size_for_avg as nat
    }

    /// A timer with nothing recorded.
    pub fn new(chunk_size_for_avg: u32) -> (r: Timer)
        ensures
            r.sum() == 0,
            r.count() == 0,
            r.chunk_size() == chunk_size_for_avg,
    {
        Timer { sum_nanos: 0, count: 0, chunk_size_for_avg }
    }

    /// Starts a measurement at the current time.
    pub fn start(&self) -> (r: ActiveMeasurement) {
        ActiveMeasurement { start_time: std::time::Instant::now() }
    }

    /// Records one duration of `nanos` nanoseconds.
    pub fn record(&mut self, nanos: u128)
        ensures
            final(self).count() == if old(self).count() < u32::MAX {
                old(self).count() + 1
            } else {
                old(self).count()
            },
            final(self).sum() == if old(self).sum() + nanos <= u128::MAX {
                old(self).sum() + nanos
            } else {
                u128::MAX as int
            },
            final(self).chunk_size() == old(self).chunk_size(),
    {
        self.count = self.count.saturating_add(1);
        self.sum_nanos = self.sum_nanos.saturating_add(nanos);
    }

    /// Once at least `chunk_size` durations, and at least one, have been
    /// recorded: the average duration in whole nanoseconds (rounded down),
    /// and the timer starts over. Before that: `None`, and nothing changes.
    pub fn consume_average_time(&mut self) -> (r: Option<u128>)
        ensures
            old(self).count() != 0 && old(self).count() >= old(self).chunk_size() ==> {
                &&& r == Some((old(self).sum() / old(self).count()) as u128)
                &&& final(self).sum() == 0
                &&& final(self).count() == 0
            },
            !(old(self).count() != 0 && old(self).count() >= old(self).chunk_size()) ==> {
                &&& r.is_none()
                &&& final(self).sum() == old(self).sum()
                &&& final(self).count() == old(self).count()
            },
            final(self).chunk_size() == old(self).chunk_size(),
    {
        if self.count != 0 && self.count >= self.chunk_size_for_avg {
            let avg = self.sum_nanos / (self.count as u128);
            self.count = 0;
            self.sum_nanos = 0;
            Some(avg)
        } else {
            None
        }
    }
}

impl ActiveMeasurement {
    /// Ends the measurement and records the time elapsed since it started.
    pub fn end(self, timer: &mut Timer)
        ensures
            final(timer).count() == if old(timer).count() < u32::MAX {
                old(timer).count() + 1
            } else {
                old(timer).count()
            },
            final(timer).sum() >= old(timer).sum(),
            final(timer).chunk_size() == old(timer).chunk_size(),
    {
        let nanos = elapsed_nanos(&self.start_time);
        timer.record(nanos);
    }
}

} // verus!
