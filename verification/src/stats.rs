//! Latency statistics of a benchmark run, and the time arithmetic around
//! them.

use vstd::prelude::*;
use vstd::seq_lib::to_multiset_len;
use std::time::{SystemTime, UNIX_EPOCH};

verus! {

/// A span of time as whole seconds and the nanoseconds of the second begun.
#[derive(Clone, Copy, Debug, PartialEq, Eq, Structural)]
pub struct Elapsed {
    pub secs: u64,
    pub nanos: u32,
}

/// A span in whole microseconds, the started microsecond left off.
pub open spec fn micros_of(d: Elapsed) -> nat {
    (d.secs * 1_000_000 + d.nanos / 1_000) as nat
}

/// A span in whole milliseconds, the started millisecond left off.
pub open spec fn millis_of(d: Elapsed) -> nat {
    (d.secs * 1_000 + d.nanos / 1_000_000) as nat
}

/// The span in whole microseconds.
pub fn duration_to_us(d: Elapsed) -> (us: u128)
    ensures
        us == micros_of(d),
{
    (d.secs as u128) * 1_000_000 + (d.nanos as u128) / 1_000
}

/// The span in whole milliseconds, reduced to the low 64 bits.
pub fn duration_to_millis(d: Elapsed) -> (ms: u64)
    ensures
        ms == millis_of(d) % 0x1_0000_0000_0000_0000,
{
    let wide: u128 = (d.secs as u128) * 1_000 + (d.nanos as u128) / 1_000_000;
    (wide % 0x1_0000_0000_0000_0000) as u64
}

/// `std::time::SystemTime`, opaque to the verifier.
#[verifier::external_type_specification]
#[verifier::external_body]
pub struct ExSystemTime(SystemTime);

/// `SystemTime::now`: what the system clock reads at the call. Nothing is
/// claimed of the reading.
#[verifier::external_body]
fn clock_reading() -> SystemTime {
    SystemTime::now()
}

/// `SystemTime::duration_since`, from `UNIX_EPOCH`: the span from the
/// epoch to the reading, as its whole seconds and the nanoseconds beyond
/// them. `None` stands for the error returned where the reading lies
/// before the epoch. Nothing is claimed of the span.
#[verifier::external_body]
fn span_since_epoch(reading: &SystemTime) -> Option<Elapsed> {
    match reading.duration_since(UNIX_EPOCH) {
        Ok(d) => Some(Elapsed { secs: d.as_secs(), nanos: d.subsec_nanos() }),
        Err(_) => None,
    }
}

/// The milliseconds that a clock reading stands for: those of its span
/// since the epoch, zero where the clock reads a time before the epoch.
pub fn millis_since_epoch(span: Option<Elapsed>) -> (ms: u64)
    ensures
        ms == match span {
            Some(d) => millis_of(d) % 0x1_0000_0000_0000_0000,
            None => 0,
        },
{
    match span {
        Some(d) => duration_to_millis(d),
        None => 0,
    }
}

/// The wall clock in milliseconds since the epoch. The result is the
/// clock's, and every `u64` is the milliseconds of some span, so there is
/// nothing for this contract to state; `millis_since_epoch` states the
/// result for each span that the clock can report.
pub fn now_millis() -> u64 {
    let reading = clock_reading();
    millis_since_epoch(span_since_epoch(&reading))
}

/// The sum of a sequence of latencies.
pub open spec fn total(latencies: Seq<u32>) -> nat
    decreases latencies.len(),
{
    if latencies.len() == 0 {
        0
    } else {
        total(latencies.drop_last()) + latencies.last() as nat
    }
}

/// Whether a sequence ascends.
pub open spec fn ascending(latencies: Seq<u32>) -> bool {
    forall|i: int, j: int| 0 <= i <= j < latencies.len() ==> latencies[i] <= latencies[j]
}

/// `<[u32]>::sort_unstable`: afterwards the vector holds the values it held
/// before, each as often as before, in ascending order.
#[verifier::external_body]
fn sort_ascending(v: &mut Vec<u32>)
    ensures
        final(v)@.to_multiset() == old(v)@.to_multiset(),
        ascending(final(v)@),
{
    v.sort_unstable();
}

/// The positions, in the ascending latencies, at which the five
/// percentiles of a summary are read.
#[derive(Clone, Copy, Debug, PartialEq, Eq, Structural)]
pub struct Ranks {
    pub p50: usize,
    pub p95: usize,
    pub p99: usize,
    pub p999: usize,
    pub p9999: usize,
}

impl Ranks {
    /// Whether every rank is a position among `count` latencies.
    pub open spec fn within(&self, count: nat) -> bool {
        self.p50 < count && self.p95 < count && self.p99 < count && self.p999 < count && self.p9999
            < count
    }
}

/// What a run amounted to.
#[derive(Clone, Copy, Debug, PartialEq, Eq, Structural)]
pub struct Summary {
    pub p50: u32,
    pub p95: u32,
    pub p99: u32,
    pub p999: u32,
    pub p9999: u32,
    pub max: u32,
    pub total_us: u128,
    pub puts: usize,
    pub gets: usize,
    pub count: usize,
}

/// The latencies of the operations of a run, in microseconds, and how many
/// of the operations were writes and how many reads.
pub struct Stats {
    lat_us: Vec<u32>,
    puts: usize,
    gets: usize,
}

impl Stats {
    #[verifier::type_invariant]
    spec fn well_formed(&self) -> bool {
        self.puts + self.gets == self.lat_us.len()
    }

    /// The latencies recorded, in the order in which they are held.
    pub closed spec fn latencies(&self) -> Seq<u32> {
        self.lat_us@
    }

    /// The number of writes recorded.
    pub closed spec fn put_count(&self) -> nat {
        self.puts as nat
    }

    /// The number of reads recorded.
    pub closed spec fn get_count(&self) -> nat {
        self.gets as nat
    }

    /// Statistics of no operations.
    pub fn new() -> (stats: Stats)
        ensures
            stats.latencies() == Seq::<u32>::empty(),
            stats.put_count() == 0,
            stats.get_count() == 0,
    {
        Stats { lat_us: Vec::new(), puts: 0, gets: 0 }
    }

    /// Records one operation: a read or a write, and the microseconds it
    /// took, reduced to the low 32 bits.
    pub fn record(&mut self, read: bool, micros: u128)
        ensures
            final(self).latencies() == old(self).latencies().push((micros % 0x1_0000_0000) as u32),
            final(self).put_count() == old(self).put_count() + if read { 0nat } else { 1nat },
            final(self).get_count() == old(self).get_count() + if read { 1nat } else { 0nat },
    {
        let mut taken = Stats::new();
        std::mem::swap(self, &mut taken);
        proof {
            use_type_invariant(&taken);
        }
        let Stats { lat_us, puts, gets } = taken;
        let mut lat_us = lat_us;
        lat_us.push((micros % 0x1_0000_0000) as u32);
        assert(lat_us.len() == lat_us@.len());
        if read {
            *self = Stats { lat_us, puts, gets: gets + 1 };
        } else {
            *self = Stats { lat_us, puts: puts + 1, gets };
        }
    }

    /// The statistics of both runs together: the latencies of `self`
    /// followed by those of `other`, and the sums of the counts.
    pub fn merge(self, other: Stats) -> (merged: Stats)
        ensures
            merged.latencies() == self.latencies() + other.latencies(),
            merged.put_count() == self.put_count() + other.put_count(),
            merged.get_count() == self.get_count() + other.get_count(),
    {
        proof {
            use_type_invariant(&self);
            use_type_invariant(&other);
        }
        let Stats { lat_us, puts, gets } = self;
        let Stats { lat_us: more, puts: more_puts, gets: more_gets } = other;
        let mut lat_us = lat_us;
        let mut more = more;
        lat_us.append(&mut more);
        assert(lat_us.len() == lat_us@.len());
        Stats { lat_us, puts: puts + more_puts, gets: gets + more_gets }
    }

    /// The number of operations recorded, each of them a write or a read.
    pub fn len(&self) -> (n: usize)
        ensures
            n == self.latencies().len(),
            n == self.put_count() + self.get_count(),
    {
        proof {
            use_type_invariant(self);
        }
        self.lat_us.len()
    }

    /// The number of writes recorded.
    pub fn puts(&self) -> (n: usize)
        ensures
            n == self.put_count(),
    {
        self.puts
    }

    /// The number of reads recorded.
    pub fn gets(&self) -> (n: usize)
        ensures
            n == self.get_count(),
    {
        self.gets
    }

    /// The sum of the recorded latencies.
    pub fn total_us(&self) -> (sum: u128)
        ensures
            sum == total(self.latencies()),
    {
        let mut sum: u128 = 0;
        let mut i: usize = 0;
        while i < self.lat_us.len()
            invariant
                i <= self.lat_us.len(),
                sum == total(self.lat_us@.take(i as int)),
                sum <= i * 0xFFFF_FFFF,
            decreases self.lat_us.len() - i,
        {
            proof {
                let next = self.lat_us@.take(i + 1);
                assert(next.drop_last() =~= self.lat_us@.take(i as int));
            }
            sum = sum + self.lat_us[i] as u128;
            i = i + 1;
        }
        proof {
            assert(self.lat_us@.take(self.lat_us.len() as int) =~= self.lat_us@);
        }
        sum
    }

    /// Puts the latencies in ascending order and reads the summary off
    /// them: the latency at each of `ranks`, the highest latency, the sum
    /// and the counts. `None`, with nothing changed, where a rank is no
    /// position among the latencies, as when there are none.
    pub fn summarize(&mut self, ranks: &Ranks) -> (summary: Option<Summary>)
        ensures
            summary is Some <==> ranks.within(old(self).latencies().len()),
            summary is None ==> *final(self) == *old(self),
            summary is Some ==> {
                let s = summary->0;
                let sorted = final(self).latencies();
                &&& sorted.to_multiset() == old(self).latencies().to_multiset()
                &&& ascending(sorted)
                &&& final(self).put_count() == old(self).put_count()
                &&& final(self).get_count() == old(self).get_count()
                &&& s.p50 == sorted[ranks.p50 as int]
                &&& s.p95 == sorted[ranks.p95 as int]
                &&& s.p99 == sorted[ranks.p99 as int]
                &&& s.p999 == sorted[ranks.p999 as int]
                &&& s.p9999 == sorted[ranks.p9999 as int]
                &&& s.max == sorted.last()
                &&& s.total_us == total(sorted)
                &&& s.puts == old(self).put_count()
                &&& s.gets == old(self).get_count()
                &&& s.count == sorted.len()
            },
    {
        let count: usize = self.lat_us.len();
        if !(ranks.p50 < count && ranks.p95 < count && ranks.p99 < count && ranks.p999 < count
            && ranks.p9999 < count) {
            return None;
        }
        let mut taken = Stats::new();
        std::mem::swap(self, &mut taken);
        proof {
            use_type_invariant(&taken);
        }
        let Stats { lat_us, puts, gets } = taken;
        let mut lat_us = lat_us;
        let ghost before = lat_us@;
        sort_ascending(&mut lat_us);
        proof {
            to_multiset_len(before);
            to_multiset_len(lat_us@);
        }
        *self = Stats { lat_us, puts, gets };
        let total_us = self.total_us();
        Some(
            Summary {
                p50: self.lat_us[ranks.p50],
                p95: self.lat_us[ranks.p95],
                p99: self.lat_us[ranks.p99],
                p999: self.lat_us[ranks.p999],
                p9999: self.lat_us[ranks.p9999],
                max: self.lat_us[count - 1],
                total_us,
                puts,
                gets,
                count,
            },
        )
    }
}

} // verus!
