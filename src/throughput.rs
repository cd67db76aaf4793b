//! Fixed-window rate sampler attached to one job.

use vstd::prelude::*;
use crate::util::{THROUGHPUT_HISTORY_SIZE, THROUGHPUT_SAMPLE_INTERVAL_MS};

verus! {

/// Samples the processing rate of one job (bytes per second) at intervals of
/// at least 200 ms, keeping the last 60 samples. Times are milliseconds on a
/// monotonic clock.
pub struct ThroughputTracker {
    /// Rate samples in bytes per second, oldest first.
    pub history: Vec<u64>,
    last_sample_time: u64,
    last_sample_bytes: u64,
}

/// What a tracker holds, as plain values.
pub struct TrackerView {
    pub history: Seq<u64>,
    pub last_time: u64,
    pub last_bytes: u64,
}

impl View for ThroughputTracker {
    type V = TrackerView;

    closed spec fn view(&self) -> TrackerView {
        TrackerView {
            history: self.history@,
            last_time: self.last_sample_time,
            last_bytes: self.last_sample_bytes,
        }
    }
}

/// `a - b`, or 0 when `b > a`.
pub open spec fn sat_sub(a: u64, b: u64) -> nat {
    if a >= b { (a - b) as nat } else { 0 }
}

/// Bytes per second for `bytes` processed over `elapsed_ms`, rounded down
/// and capped at `u64::MAX`.
pub open spec fn rate_of(bytes: nat, elapsed_ms: nat) -> u64 {
    let r = bytes * 1000 / elapsed_ms;
    if r > u64::MAX { u64::MAX } else { r as u64 }
}

/// Drops the oldest sample of `h` once `h` holds more than 60.
pub open spec fn window(h: Seq<u64>) -> Seq<u64> {
    if h.len() > THROUGHPUT_HISTORY_SIZE { h.subrange(1, h.len() as int) } else { h }
}

/// Whether an update at `now` takes a sample.
pub open spec fn sample_due(v: TrackerView, now: u64) -> bool {
    now >= v.last_time + THROUGHPUT_SAMPLE_INTERVAL_MS
}

/// The sample that an update with cumulative `bytes` at `now` records.
pub open spec fn next_sample(v: TrackerView, bytes: u64, now: u64) -> u64 {
    rate_of(sat_sub(bytes, v.last_bytes), (now - v.last_time) as nat)
}

/// The tracker after an update with cumulative `bytes` at time `now`.
pub open spec fn tracker_after(v: TrackerView, bytes: u64, now: u64) -> TrackerView {
    if sample_due(v, now) {
        TrackerView {
            history: window(v.history.push(next_sample(v, bytes, now))),
            last_time: now,
            last_bytes: bytes,
        }
    } else {
        v
    }
}

/// The rate shown: the newest sample, or 0 before the first.
pub open spec fn latest_rate(v: TrackerView) -> u64 {
    if v.history.len() == 0 { 0 } else { v.history.last() }
}

impl ThroughputTracker {
    /// A tracker with no samples whose first interval starts at `now_ms`.
    pub fn new(now_ms: u64) -> (r: Self)
        ensures
            r@ == (TrackerView { history: Seq::empty(), last_time: now_ms, last_bytes: 0 }),
    {
        ThroughputTracker {
            history: Vec::with_capacity(THROUGHPUT_HISTORY_SIZE),
            last_sample_time: now_ms,
            last_sample_bytes: 0,
        }
    }

    /// Records the cumulative byte count `current_bytes` seen at `now_ms`.
    pub fn update(&mut self, current_bytes: u64, now_ms: u64)
        ensures
            final(self)@ == tracker_after(old(self)@, current_bytes, now_ms),
    {
        if now_ms >= self.last_sample_time && now_ms - self.last_sample_time >= THROUGHPUT_SAMPLE_INTERVAL_MS {
            let elapsed = now_ms - self.last_sample_time;
            let bytes_diff = if current_bytes >= self.last_sample_bytes {
                current_bytes - self.last_sample_bytes
            } else {
                0
            };
            let r = (bytes_diff as u128) * 1000 / (elapsed as u128);
            let throughput = if r > u64::MAX as u128 { u64::MAX } else { r as u64 };
            self.history.push(throughput);
            if self.history.len() > THROUGHPUT_HISTORY_SIZE {
                self.history.remove(0);
            }
            self.last_sample_time = now_ms;
            self.last_sample_bytes = current_bytes;
            assert(self.history@ =~= window(old(self).history@.push(throughput)));
        }
    }

    /// The most recent rate sample, or 0 if none was taken yet.
    pub fn current_throughput(&self) -> (r: u64)
        ensures
            r == latest_rate(self@),
    {
        if self.history.len() == 0 {
            0
        } else {
            self.history[self.history.len() - 1]
        }
    }
}

/// With samples taken at least 200 ms apart, the rate shown is the newest
/// sample (bytes gained over milliseconds elapsed), the history keeps at
/// most 60 samples, and once full the oldest sample is the one dropped.
pub proof fn lemma_throughput_latest(v: TrackerView, bytes: u64, now: u64)
    requires
        v.history.len() <= THROUGHPUT_HISTORY_SIZE,
        now >= v.last_time + THROUGHPUT_SAMPLE_INTERVAL_MS,
    ensures
        latest_rate(tracker_after(v, bytes, now)) == rate_of(sat_sub(bytes, v.last_bytes), (now - v.last_time) as nat),
        tracker_after(v, bytes, now).history.len() <= THROUGHPUT_HISTORY_SIZE,
        v.history.len() < THROUGHPUT_HISTORY_SIZE ==> tracker_after(v, bytes, now).history == v.history.push(latest_rate(tracker_after(v, bytes, now))),
        v.history.len() == THROUGHPUT_HISTORY_SIZE ==> tracker_after(v, bytes, now).history == v.history.subrange(1, THROUGHPUT_HISTORY_SIZE as int).push(latest_rate(tracker_after(v, bytes, now))),
{
    let h = v.history.push(next_sample(v, bytes, now));
    if v.history.len() == THROUGHPUT_HISTORY_SIZE {
        assert(window(h) =~= v.history.subrange(1, THROUGHPUT_HISTORY_SIZE as int).push(next_sample(v, bytes, now)));
    }
}

} // verus!
