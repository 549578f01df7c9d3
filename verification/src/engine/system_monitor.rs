//! The bookkeeping of the resource sampler.
//!
//! The caller samples the operating system and hands the readings over. The
//! monitor keeps a short history of the CPU and memory samples, and derives
//! the disk I/O rates from the totals of two consecutive samples.

use crate::clock::Timestamp;
use crate::engine::log_buffer::keep_last;
use crate::engine::metrics_buffer::{clones_of, pushed, stamped, MetricsBuffer, TimedMetric};
use crate::models::system::DiskStats;
use vstd::prelude::*;

verus! {

/// The number of samples that each history keeps.
pub const HISTORY_CAPACITY: usize = 60;

/// The number of nanoseconds in a second.
pub const NANOS_PER_SECOND: u64 = 1_000_000_000;

/// A reading of a clock that never runs backwards, in nanoseconds since an
/// origin that the caller picks and keeps.
#[derive(Debug, Clone, Copy, PartialEq, Eq, Structural)]
pub struct MonotonicTime {
    pub nanos: u64,
}

/// The bytes that one process has read from and written to disk since it
/// started.
#[derive(Debug, Clone, Copy, PartialEq, Eq, Structural)]
pub struct ProcessIo {
    pub total_read_bytes: u64,
    pub total_written_bytes: u64,
}

/// The disk totals of one sample: when it was taken, and the bytes read and
/// written by all processes together.
#[derive(Debug, Clone, Copy, PartialEq, Eq, Structural)]
pub struct DiskTotals {
    pub taken_at: MonotonicTime,
    pub total_read: u64,
    pub total_written: u64,
}

/// A count that is too large for a `u64` is held at `u64::MAX`.
pub open spec fn saturated(n: nat) -> u64 {
    if n > u64::MAX {
        u64::MAX
    } else {
        n as u64
    }
}

/// The bytes that the first `upto` processes have read, added up.
pub open spec fn read_sum(ios: Seq<ProcessIo>, upto: int) -> nat
    decreases upto,
{
    if upto <= 0 || upto > ios.len() {
        0
    } else {
        read_sum(ios, upto - 1) + ios[upto - 1].total_read_bytes as nat
    }
}

/// The bytes that the first `upto` processes have written, added up.
pub open spec fn written_sum(ios: Seq<ProcessIo>, upto: int) -> nat
    decreases upto,
{
    if upto <= 0 || upto > ios.len() {
        0
    } else {
        written_sum(ios, upto - 1) + ios[upto - 1].total_written_bytes as nat
    }
}

/// The bytes per second that `delta` bytes in `elapsed_nanos` nanoseconds
/// make, rounded down; zero where no time has passed.
pub open spec fn rate_per_second(delta: u64, elapsed_nanos: u64) -> u64 {
    if elapsed_nanos == 0 {
        0
    } else {
        saturated((delta * NANOS_PER_SECOND / elapsed_nanos as int) as nat)
    }
}

/// How far `now` lies above `before`, and zero where it does not.
pub open spec fn above(now: u64, before: u64) -> u64 {
    if now >= before {
        (now - before) as u64
    } else {
        0
    }
}

/// The read and write rates that the totals of a sample give against the
/// totals of the sample before it: zero for the first sample.
pub open spec fn io_rates(last: Option<DiskTotals>, current: DiskTotals) -> (u64, u64) {
    match last {
        None => (0, 0),
        Some(previous) => {
            let elapsed = above(current.taken_at.nanos, previous.taken_at.nanos);
            (
                rate_per_second(above(current.total_read, previous.total_read), elapsed),
                rate_per_second(above(current.total_written, previous.total_written), elapsed),
            )
        },
    }
}

/// Computes the bytes per second that `delta` bytes in `elapsed_nanos`
/// nanoseconds make.
pub fn compute_rate(delta: u64, elapsed_nanos: u64) -> (rate: u64)
    ensures
        rate == rate_per_second(delta, elapsed_nanos),
{
    if elapsed_nanos == 0 {
        return 0;
    }
    assert(delta * 1_000_000_000 <= 0xffff_ffff_ffff_ffff * 1_000_000_000);
    let scaled: u128 = (delta as u128) * 1_000_000_000u128;
    let per_second: u128 = scaled / (elapsed_nanos as u128);
    if per_second > u64::MAX as u128 {
        u64::MAX
    } else {
        per_second as u64
    }
}

/// Adds up what all processes have read and written, each sum held at
/// `u64::MAX` where it is larger.
pub fn sum_io(ios: &Vec<ProcessIo>) -> (totals: (u64, u64))
    ensures
        totals.0 == saturated(read_sum(ios@, ios@.len() as int)),
        totals.1 == saturated(written_sum(ios@, ios@.len() as int)),
{
    let mut total_read: u64 = 0;
    let mut total_written: u64 = 0;
    let mut i: usize = 0;
    while i < ios.len()
        invariant
            i <= ios.len(),
            total_read == saturated(read_sum(ios@, i as int)),
            total_written == saturated(written_sum(ios@, i as int)),
        decreases ios.len() - i,
    {
        total_read = total_read.saturating_add(ios[i].total_read_bytes);
        total_written = total_written.saturating_add(ios[i].total_written_bytes);
        i = i + 1;
    }
    (total_read, total_written)
}

/// Monitors system resources: the state that the sampler keeps between two
/// samples. `C` is the measure of a CPU sample.
pub struct SystemMonitor<C> {
    /// The disk totals of the last sample.
    last_disk_io: Option<DiskTotals>,
    /// Historical CPU usage.
    cpu_history: MetricsBuffer<C>,
    /// Historical memory usage, in bytes.
    memory_history: MetricsBuffer<u64>,
}

impl<C: Clone> SystemMonitor<C> {
    /// The monitor's invariant: both histories are well formed and have
    /// room for sixty samples.
    pub closed spec fn wf(self) -> bool {
        &&& self.cpu_history.wf()
        &&& self.memory_history.wf()
        &&& self.cpu_history.max_size() == HISTORY_CAPACITY
        &&& self.memory_history.max_size() == HISTORY_CAPACITY
    }

    /// The disk totals of the last sample, if there was one.
    pub closed spec fn last_disk_io(self) -> Option<DiskTotals> {
        self.last_disk_io
    }

    /// The CPU samples that are kept, oldest first.
    pub closed spec fn cpu_samples(self) -> Seq<TimedMetric<C>> {
        self.cpu_history@
    }

    /// The memory samples that are kept, oldest first.
    pub closed spec fn memory_samples(self) -> Seq<TimedMetric<u64>> {
        self.memory_history@
    }

    /// A monitor that has seen no sample yet, with room for sixty samples of
    /// each kind.
    pub fn new() -> (monitor: Self)
        ensures
            monitor.wf(),
            monitor.last_disk_io() is None,
            monitor.cpu_samples() == Seq::<TimedMetric<C>>::empty(),
            monitor.memory_samples() == Seq::<TimedMetric<u64>>::empty(),
    {
        SystemMonitor {
            last_disk_io: None,
            cpu_history: MetricsBuffer::new(HISTORY_CAPACITY),
            memory_history: MetricsBuffer::new(HISTORY_CAPACITY),
        }
    }

    /// Gets disk I/O statistics from a sample taken at `now`: the space of
    /// the disk as it was read, and the bytes per second that all processes
    /// together have read and written since the sample before. The first
    /// sample gives rates of zero.
    pub fn get_disk_stats(
        &mut self,
        now: MonotonicTime,
        total_space: u64,
        available_space: u64,
        ios: &Vec<ProcessIo>,
    ) -> (stats: DiskStats)
        requires
            old(self).wf(),
        ensures
            final(self).wf(),
            final(self).cpu_samples() == old(self).cpu_samples(),
            final(self).memory_samples() == old(self).memory_samples(),
            final(self).last_disk_io() == Some(
                DiskTotals {
                    taken_at: now,
                    total_read: saturated(read_sum(ios@, ios@.len() as int)),
                    total_written: saturated(written_sum(ios@, ios@.len() as int)),
                },
            ),
            stats == (DiskStats {
                read_bytes_per_sec: io_rates(old(self).last_disk_io(), final(self).last_disk_io()->0).0,
                write_bytes_per_sec: io_rates(old(self).last_disk_io(), final(self).last_disk_io()->0).1,
                total_space,
                available_space,
            }),
    {
        let (total_read, total_written) = sum_io(ios);
        let current = DiskTotals { taken_at: now, total_read, total_written };
        let (read_bytes_per_sec, write_bytes_per_sec) = match self.last_disk_io {
            Some(previous) => {
                let elapsed = now.nanos.saturating_sub(previous.taken_at.nanos);
                (
                    compute_rate(total_read.saturating_sub(previous.total_read), elapsed),
                    compute_rate(total_written.saturating_sub(previous.total_written), elapsed),
                )
            },
            None => (0, 0),
        };
        self.last_disk_io = Some(current);
        DiskStats { read_bytes_per_sec, write_bytes_per_sec, total_space, available_space }
    }

    /// Records the CPU and memory readings of a sample taken at `timestamp`
    /// in the histories, each of which drops its oldest sample where it is
    /// full.
    pub fn record_sample_at(&mut self, cpu_overall: C, memory_used: u64, timestamp: Timestamp)
        requires
            old(self).wf(),
        ensures
            final(self).wf(),
            final(self).last_disk_io() == old(self).last_disk_io(),
            final(self).cpu_samples() == pushed(
                old(self).cpu_samples(),
                stamped(timestamp, cpu_overall),
                HISTORY_CAPACITY as nat,
            ),
            final(self).memory_samples() == pushed(
                old(self).memory_samples(),
                stamped(timestamp, memory_used),
                HISTORY_CAPACITY as nat,
            ),
    {
        self.cpu_history.push_at(cpu_overall, timestamp);
        self.memory_history.push_at(memory_used, timestamp);
    }

    /// Gets CPU usage history: up to `seconds` samples, most recent first.
    pub fn get_cpu_history(&self, seconds: usize) -> (recent: Vec<TimedMetric<C>>)
        ensures
            clones_of(recent@, keep_last(self.cpu_samples(), seconds as nat).reverse()),
    {
        self.cpu_history.get_last_n(seconds)
    }

    /// Gets memory usage history: up to `seconds` samples, most recent first.
    pub fn get_memory_history(&self, seconds: usize) -> (recent: Vec<TimedMetric<u64>>)
        ensures
            clones_of(recent@, keep_last(self.memory_samples(), seconds as nat).reverse()),
    {
        self.memory_history.get_last_n(seconds)
    }
}

} // verus!
