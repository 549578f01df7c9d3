//! Historical metrics buffering.
//!
//! A bounded history of time-stamped samples, used for tracking system
//! metrics (CPU, memory, etc.) over time.

use crate::clock::Timestamp;
use crate::engine::log_buffer::keep_last;
use std::collections::VecDeque;
use vstd::pervasive::cloned;
use vstd::prelude::*;

verus! {

/// A time-series metric with timestamp.
#[derive(Debug)]
pub struct TimedMetric<T> {
    /// Timestamp when the metric was recorded.
    pub timestamp: Timestamp,
    /// The metric value.
    pub value: T,
}

impl<T: Clone> Clone for TimedMetric<T> {
    fn clone(&self) -> (copy: Self)
        ensures
            copy.timestamp == self.timestamp,
            cloned(self.value, copy.value),
    {
        TimedMetric { timestamp: self.timestamp, value: self.value.clone() }
    }
}

/// The sample that holds `value`, taken at `timestamp`.
pub open spec fn stamped<T>(timestamp: Timestamp, value: T) -> TimedMetric<T> {
    TimedMetric { timestamp, value }
}

/// Whether `copies` holds, item for item, a clone of what `sources` holds:
/// the same timestamps, and values that `Clone` made of the sources.
pub open spec fn clones_of<T: Clone>(
    copies: Seq<TimedMetric<T>>,
    sources: Seq<TimedMetric<T>>,
) -> bool {
    &&& copies.len() == sources.len()
    &&& forall|i: int|
        0 <= i < sources.len() ==> {
            &&& (#[trigger] copies[i]).timestamp == sources[i].timestamp
            &&& cloned(sources[i].value, copies[i].value)
        }
}

/// What a buffer of capacity `max_size` holds after `sample` was pushed onto
/// `history`: the newest samples, as many as the capacity allows and never
/// fewer than one.
pub open spec fn pushed<T>(history: Seq<TimedMetric<T>>, sample: TimedMetric<T>, max_size: nat) -> Seq<
    TimedMetric<T>,
> {
    keep_last(history.push(sample), if max_size == 0 { 1 } else { max_size })
}

/// Whether a sample was taken within the closed range from `start` to `end`.
pub open spec fn in_range<T>(sample: TimedMetric<T>, start: Timestamp, end: Timestamp) -> bool {
    start.at_or_before(sample.timestamp) && sample.timestamp.at_or_before(end)
}

/// Circular buffer for storing time-series metrics.
///
/// Automatically drops oldest data when capacity is reached. A buffer made
/// with capacity zero still keeps the newest sample.
pub struct MetricsBuffer<T> {
    /// The retained samples, oldest first.
    data: VecDeque<TimedMetric<T>>,
    /// Maximum number of data points to retain.
    max_size: usize,
}

impl<T> View for MetricsBuffer<T> {
    type V = Seq<TimedMetric<T>>;

    /// The retained samples in chronological order.
    closed spec fn view(&self) -> Seq<TimedMetric<T>> {
        self.data@
    }
}

impl<T: Clone> MetricsBuffer<T> {
    /// The buffer's invariant: it holds no more samples than its capacity,
    /// or one where the capacity is zero.
    pub closed spec fn wf(self) -> bool {
        self.data@.len() <= self.max_size || self.data@.len() <= 1
    }

    /// The maximum number of samples that the buffer retains.
    pub closed spec fn max_size(self) -> nat {
        self.max_size as nat
    }

    /// A well-formed buffer of capacity at least one holds no more samples
    /// than its capacity.
    pub proof fn lemma_len_within_capacity(self)
        requires
            self.wf(),
        ensures
            self@.len() <= self.max_size() || (self.max_size() == 0 && self@.len() == 1),
    {
    }

    /// Creates a new metrics buffer with specified capacity.
    pub fn new(max_size: usize) -> (buffer: Self)
        ensures
            buffer.wf(),
            buffer@ == Seq::<TimedMetric<T>>::empty(),
            buffer.max_size() == max_size,
    {
        MetricsBuffer { data: VecDeque::new(), max_size }
    }

    /// Pushes a new metric value with current timestamp.
    ///
    /// If buffer is at capacity, oldest value is automatically dropped.
    pub fn push(&mut self, value: T)
        requires
            old(self).wf(),
        ensures
            final(self).wf(),
            final(self).max_size() == old(self).max_size(),
            exists|now: Timestamp|
                final(self)@ == pushed(old(self)@, #[trigger] stamped(now, value), old(self).max_size()),
    {
        let now = Timestamp::now();
        self.push_at(value, now);
        assert(self@ == pushed(old(self)@, stamped(now, value), old(self).max_size()));
    }

    /// Pushes a new metric value taken at `timestamp`.
    ///
    /// If buffer is at capacity, oldest value is automatically dropped.
    pub fn push_at(&mut self, value: T, timestamp: Timestamp)
        requires
            old(self).wf(),
        ensures
            final(self).wf(),
            final(self).max_size() == old(self).max_size(),
            final(self)@ == pushed(old(self)@, stamped(timestamp, value), old(self).max_size()),
    {
        if self.data.len() >= self.max_size {
            self.data.pop_front();
        }
        self.data.push_back(TimedMetric { timestamp, value });
        assert(self@ =~= pushed(old(self)@, stamped(timestamp, value), old(self).max_size()));
    }

    /// Gets the last N metrics (most recent first).
    pub fn get_last_n(&self, n: usize) -> (recent: Vec<TimedMetric<T>>)
        ensures
            clones_of(recent@, keep_last(self@, n as nat).reverse()),
    {
        let len = self.data.len();
        let count: usize = if len <= n {
            len
        } else {
            n
        };
        let ghost wanted = keep_last(self@, n as nat).reverse();
        let mut out: Vec<TimedMetric<T>> = Vec::new();
        let mut i: usize = 0;
        while i < count
            invariant
                i <= count <= len,
                len == self.data@.len(),
                count == wanted.len(),
                wanted == keep_last(self@, n as nat).reverse(),
                count == if len <= n { len } else { n },
                clones_of(out@, wanted.take(i as int)),
            decreases count - i,
        {
            let item = self.data[len - 1 - i].clone();
            assert(wanted[i as int] == self.data@[len - 1 - i]);
            out.push(item);
            assert(clones_of(out@, wanted.take(i + 1))) by {
                assert forall|j: int| 0 <= j < i + 1 implies {
                    &&& (#[trigger] out@[j]).timestamp == wanted.take(i + 1)[j].timestamp
                    &&& cloned(wanted.take(i + 1)[j].value, out@[j].value)
                } by {
                    if j < i {
                        assert(wanted.take(i as int)[j] == wanted.take(i + 1)[j]);
                    }
                }
            }
            i = i + 1;
        }
        assert(wanted.take(count as int) =~= wanted);
        out
    }

    /// Gets all metrics in chronological order (oldest first).
    pub fn get_all(&self) -> (all: Vec<TimedMetric<T>>)
        ensures
            clones_of(all@, self@),
    {
        let mut out: Vec<TimedMetric<T>> = Vec::new();
        let mut i: usize = 0;
        while i < self.data.len()
            invariant
                i <= self.data@.len(),
                clones_of(out@, self.data@.take(i as int)),
            decreases self.data@.len() - i,
        {
            out.push(self.data[i].clone());
            i = i + 1;
        }
        assert(self.data@.take(i as int) =~= self.data@);
        out
    }

    /// Returns the number of metrics currently stored.
    pub fn len(&self) -> (n: usize)
        ensures
            n == self@.len(),
    {
        self.data.len()
    }

    /// Returns true if buffer contains no metrics.
    pub fn is_empty(&self) -> (r: bool)
        ensures
            r == (self@.len() == 0),
    {
        self.data.len() == 0
    }

    /// Returns the maximum capacity of the buffer.
    pub fn capacity(&self) -> (n: usize)
        ensures
            n == self.max_size(),
    {
        self.max_size
    }

    /// Clears all metrics from the buffer.
    pub fn clear(&mut self)
        ensures
            final(self).wf(),
            final(self)@ == Seq::<TimedMetric<T>>::empty(),
            final(self).max_size() == old(self).max_size(),
    {
        self.data.clear();
    }

    /// Gets metrics within a time range, both ends included.
    pub fn get_range(&self, start: Timestamp, end: Timestamp) -> (found: Vec<TimedMetric<T>>)
        ensures
            clones_of(found@, self@.filter(|m: TimedMetric<T>| in_range(m, start, end))),
    {
        let ghost pred = |m: TimedMetric<T>| in_range(m, start, end);
        let mut out: Vec<TimedMetric<T>> = Vec::new();
        let mut i: usize = 0;
        proof {
            reveal(Seq::filter);
        }
        while i < self.data.len()
            invariant
                i <= self.data@.len(),
                pred == |m: TimedMetric<T>| in_range(m, start, end),
                clones_of(out@, self.data@.take(i as int).filter(pred)),
            decreases self.data@.len() - i,
        {
            proof {
                reveal(Seq::filter);
                assert(self.data@.take(i + 1).drop_last() =~= self.data@.take(i as int));
            }
            let sample = &self.data[i];
            if start.le(&sample.timestamp) && sample.timestamp.le(&end) {
                out.push(sample.clone());
            }
            i = i + 1;
        }
        assert(self.data@.take(i as int) =~= self.data@);
        out
    }
}

impl<T: Clone> Default for MetricsBuffer<T> {
    /// Creates a default metrics buffer that holds sixty samples.
    fn default() -> (buffer: Self)
        ensures
            buffer.wf(),
            buffer@ == Seq::<TimedMetric<T>>::empty(),
            buffer.max_size() == 60,
    {
        Self::new(60)
    }
}

} // verus!
