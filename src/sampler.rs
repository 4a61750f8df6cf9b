//! The correlation store: sampled energy snapshots indexed by the time range
//! each one covers, with overflow counting of the package counter and
//! eviction of samples older than the retention window.
use vstd::prelude::*;
use std::sync::Arc;
use crossbeam::queue::SegQueue;
use rangemap::RangeMap;
use crate::queue::drain_queue;
use crate::registers::{RaplMeasurement, pkg_of};

verus! {

/// A sampled snapshot, with the time it was taken and the number of
/// wraparounds of the `pkg` counter seen up to and including it.
#[derive(Clone, Copy, Debug, PartialEq, Eq)]
pub struct TimedSnapshot {
    pub measurement: RaplMeasurement,
    pub timestamp: u128,
    pub pkg_overflow: u32,
}

#[verifier::external_type_specification]
#[verifier::external_body]
#[verifier::reject_recursive_types(K)]
#[verifier::reject_recursive_types(V)]
pub struct ExRangeMap<K, V>(RangeMap<K, V>);

/// What a range map holds, key by key: the value of the range that covers
/// the key, for each covered key.
pub uninterp spec fn interval_points(m: RangeMap<u128, TimedSnapshot>) -> Map<
    u128,
    TimedSnapshot,
>;

/// Each key of `start..end`, mapped to `value`.
pub open spec fn range_entries(start: u128, end: int, value: TimedSnapshot) -> Map<
    u128,
    TimedSnapshot,
> {
    Map::new(|k: u128| start <= k < end, |k: u128| value)
}

/// The map that covers no key.
pub open spec fn no_points() -> Map<u128, TimedSnapshot> {
    Map::empty()
}

/// Relies on rangemap's RangeMap::new: the map covers no key.
#[verifier::external_body]
fn interval_map_new() -> (r: RangeMap<u128, TimedSnapshot>)
    ensures
        interval_points(r) == no_points(),
{
    RangeMap::new()
}

/// Relies on rangemap's RangeMap::insert: the keys of `start..end` map to
/// `value` afterwards and every other key keeps what it had. It panics on an
/// empty range.
#[verifier::external_body]
fn interval_map_insert(
    m: &mut RangeMap<u128, TimedSnapshot>,
    start: u128,
    end: u128,
    value: TimedSnapshot,
)
    requires
        start < end,
    ensures
        interval_points(*final(m)) == interval_points(*old(m)).union_prefer_right(
            range_entries(start, end as int, value),
        ),
{
    m.insert(start..end, value)
}

/// Relies on rangemap's RangeMap::remove: the keys of `start..end` are no
/// longer covered and every other key keeps what it had. It panics on an
/// empty range.
#[verifier::external_body]
fn interval_map_remove(m: &mut RangeMap<u128, TimedSnapshot>, start: u128, end: u128)
    requires
        start < end,
    ensures
        interval_points(*final(m)) == interval_points(*old(m)).remove_keys(
            Set::new(|k: u128| start <= k < end),
        ),
{
    m.remove(start..end)
}

/// Relies on rangemap's RangeMap::get: the value of the range covering `key`.
#[verifier::external_body]
fn interval_map_get(m: &RangeMap<u128, TimedSnapshot>, key: u128) -> (r: Option<TimedSnapshot>)
    ensures
        r == (if interval_points(*m).contains_key(key) {
            Some(interval_points(*m)[key])
        } else {
            None
        }),
{
    m.get(&key).copied()
}

/// Relies on rangemap's RangeMap::get_key_value: the stored range that
/// covers `key`, whose keys all map to one value. Contiguous ranges that map
/// to the same value are kept coalesced, so the key before the range does
/// not map to that value.
#[verifier::external_body]
fn interval_map_range_of(m: &RangeMap<u128, TimedSnapshot>, key: u128) -> (r: Option<(u128, u128)>)
    ensures
        r.is_some() == interval_points(*m).contains_key(key),
        r matches Some((start, end)) ==> {
            &&& start <= key < end
            &&& forall|j: u128|
                start <= j < end ==> (#[trigger] interval_points(*m).contains_key(j))
                    && interval_points(*m)[j] == interval_points(*m)[key]
            &&& start == 0 || !(interval_points(*m).contains_key((start - 1) as u128)
                && interval_points(*m)[(start - 1) as u128] == interval_points(*m)[key])
        },
{
    m.get_key_value(&key).map(|(range, _value)| (range.start, range.end))
}

/// The abstract state of the store.
pub struct SamplerState {
    /// The snapshot whose interval covers each covered timestamp.
    pub points: Map<u128, TimedSnapshot>,
    /// The `pkg` value of the last recorded sample (0 before the first).
    pub last_pkg: u64,
    /// Wraparounds of `pkg` seen so far.
    pub pkg_overflow: u32,
    /// Width of the interval that each sample covers.
    pub sampling_interval: u64,
    /// How far back from the time of a lookup samples are kept.
    pub max_sample_age: u128,
}

/// The exclusive end of the interval of a sample taken at `t`: `t + interval`,
/// capped at the largest timestamp.
pub open spec fn interval_end(t: u128, interval: u64) -> int {
    if t + interval <= u128::MAX {
        t + interval
    } else {
        u128::MAX as int
    }
}

/// The overflow count after a sample whose `pkg` is `pkg`: it grows by one,
/// wrapping, when `pkg` is below the previous value.
pub open spec fn next_overflow(s: SamplerState, pkg: u64) -> u32 {
    if pkg < s.last_pkg {
        if s.pkg_overflow == u32::MAX {
            0
        } else {
            (s.pkg_overflow + 1) as u32
        }
    } else {
        s.pkg_overflow
    }
}

/// Records one sample: its interval `[t, t + sampling_interval)` maps to
/// it, replacing what covered those timestamps before.
pub open spec fn record_sample(s: SamplerState, m: RaplMeasurement, t: u128) -> SamplerState {
    let overflow = next_overflow(s, pkg_of(m));
    let snap = TimedSnapshot { measurement: m, timestamp: t, pkg_overflow: overflow };
    SamplerState {
        points: s.points.union_prefer_right(
            range_entries(t, interval_end(t, s.sampling_interval), snap),
        ),
        last_pkg: pkg_of(m),
        pkg_overflow: overflow,
        ..s
    }
}

/// Records the samples in order.
pub open spec fn record_all(s: SamplerState, samples: Seq<(RaplMeasurement, u128)>) -> SamplerState
    decreases samples.len(),
{
    if samples.len() == 0 {
        s
    } else {
        let last = samples.last();
        record_sample(record_all(s, samples.drop_last()), last.0, last.1)
    }
}

/// The oldest timestamp kept at time `now`: `now - max_sample_age`, or 0.
pub open spec fn retention_cutoff(now: u128, max_sample_age: u128) -> u128 {
    if now >= max_sample_age {
        (now - max_sample_age) as u128
    } else {
        0
    }
}

/// Whether every key from `k` up to `cutoff` is covered by the snapshot
/// that covers `k`: the interval holding `k` reaches the cutoff.
pub open spec fn reaches(points: Map<u128, TimedSnapshot>, k: u128, cutoff: u128) -> bool {
    forall|j: u128|
        k <= j < cutoff ==> (#[trigger] points.contains_key(j)) && points[j] == points[k]
}

/// Whether a key survives eviction at `cutoff`: it is at or after the
/// cutoff, or its interval reaches the cutoff.
pub open spec fn survives(points: Map<u128, TimedSnapshot>, k: u128, cutoff: u128) -> bool {
    k >= cutoff || reaches(points, k, cutoff)
}

/// Drops every interval that ends before `cutoff`. An interval that reaches
/// the cutoff stays whole, even where it starts before it.
pub open spec fn evict(s: SamplerState, cutoff: u128) -> SamplerState {
    SamplerState { points: surviving(s.points, cutoff), ..s }
}

/// The keys of `points` that survive eviction at `cutoff`, with their
/// snapshots.
pub open spec fn surviving(points: Map<u128, TimedSnapshot>, cutoff: u128) -> Map<u128, TimedSnapshot> {
    points.restrict(Set::new(|k: u128| survives(points, k, cutoff)))
}

/// Records the samples, then evicts what is too old at time `now`.
pub open spec fn ingest(s: SamplerState, samples: Seq<(RaplMeasurement, u128)>, now: u128) -> SamplerState {
    evict(record_all(s, samples), retention_cutoff(now, s.max_sample_age))
}

/// The snapshot whose interval covers `t`, if any.
pub open spec fn lookup(s: SamplerState, t: u128) -> Option<TimedSnapshot> {
    if s.points.contains_key(t) {
        Some(s.points[t])
    } else {
        None
    }
}

/// The state of a new store.
pub open spec fn initial_state(max_sample_age: u128, sampling_interval: u64) -> SamplerState {
    SamplerState {
        points: no_points(),
        last_pkg: 0,
        pkg_overflow: 0,
        sampling_interval,
        max_sample_age,
    }
}

/// The correlation store. Samples arrive on a shared queue, fed by the
/// sampling thread, and are taken in before each lookup.
pub struct RaplSampler {
    pub max_sample_age: u128,
    range_map: RangeMap<u128, TimedSnapshot>,
    sampling_interval: u64,
    pkg_overflow: u32,
    last_pkg: u64,
    samples: Arc<SegQueue<(RaplMeasurement, u128)>>,
}

impl View for RaplSampler {
    type V = SamplerState;

    closed spec fn view(&self) -> SamplerState {
        SamplerState {
            points: interval_points(self.range_map),
            last_pkg: self.last_pkg,
            pkg_overflow: self.pkg_overflow,
            sampling_interval: self.sampling_interval,
            max_sample_age: self.max_sample_age,
        }
    }
}

impl RaplSampler {
    /// A store with no samples, fed from `samples`. Each sample covers
    /// `sampling_interval` units of time from its timestamp; lookups keep
    /// samples back to `max_sample_age` before the time looked up.
    pub fn new(
        max_sample_age: u128,
        sampling_interval: u64,
        samples: Arc<SegQueue<(RaplMeasurement, u128)>>,
    ) -> (r: RaplSampler)
        ensures
            r@ == initial_state(max_sample_age, sampling_interval),
    {
        RaplSampler {
            max_sample_age,
            range_map: interval_map_new(),
            sampling_interval,
            pkg_overflow: 0,
            last_pkg: 0,
            samples,
        }
    }

    /// Width of the interval that each sample covers.
    pub fn sampling_interval(&self) -> (r: u64)
        ensures
            r == self@.sampling_interval,
    {
        self.sampling_interval
    }

    /// Wraparounds of the `pkg` counter seen so far.
    pub fn pkg_overflow(&self) -> (r: u32)
        ensures
            r == self@.pkg_overflow,
    {
        self.pkg_overflow
    }

    /// Records one sample taken at `timestamp`.
    pub fn record_sample(&mut self, measurement: RaplMeasurement, timestamp: u128)
        ensures
            final(self)@ == record_sample(old(self)@, measurement, timestamp),
    {
        let pkg = match measurement {
            RaplMeasurement::Intel(r) => r.pkg,
            RaplMeasurement::AMD(r) => r.pkg,
        };
        if pkg < self.last_pkg {
            self.pkg_overflow = self.pkg_overflow.wrapping_add(1);
        }
        self.last_pkg = pkg;
        let snap = TimedSnapshot { measurement, timestamp, pkg_overflow: self.pkg_overflow };
        let end = timestamp.saturating_add(self.sampling_interval as u128);
        if timestamp < end {
            interval_map_insert(&mut self.range_map, timestamp, end, snap);
        } else {
            assert(range_entries(timestamp, end as int, snap) =~= Map::empty());
            assert(interval_points(self.range_map).union_prefer_right(
                range_entries(timestamp, end as int, snap),
            ) =~= interval_points(self.range_map));
        }
    }

    /// Drops every interval that ends before `now - max_sample_age`; the
    /// interval that reaches that bound stays whole.
    fn evict_before(&mut self, now: u128)
        ensures
            final(self)@ == evict(old(self)@, retention_cutoff(now, old(self)@.max_sample_age)),
    {
        let cutoff = now.saturating_sub(self.max_sample_age);
        let ghost p = interval_points(self.range_map);
        if cutoff == 0 {
            assert(surviving(p, cutoff) =~= p);
            return;
        }
        let last = cutoff - 1;
        match interval_map_range_of(&self.range_map, last) {
            None => {
                interval_map_remove(&mut self.range_map, 0, cutoff);
                assert forall|k: u128| k < cutoff implies !survives(p, k, cutoff) by {
                    if reaches(p, k, cutoff) {
                        assert(p.contains_key(last));
                    }
                }
                assert(interval_points(self.range_map) =~= surviving(p, cutoff));
            },
            Some((start, end)) => {
                assert forall|k: u128| start <= k implies survives(p, k, cutoff) by {
                    if k < cutoff {
                        assert forall|j: u128| k <= j < cutoff implies #[trigger] p.contains_key(j)
                            && p[j] == p[k] by {
                            assert(start <= k < end && start <= j < end);
                            assert(p.contains_key(k));
                            assert(p[k] == p[last]);
                            assert(p.contains_key(j));
                            assert(p[j] == p[last]);
                        }
                    }
                }
                assert forall|k: u128| k < start implies !survives(p, k, cutoff) by {
                    if reaches(p, k, cutoff) {
                        assert(p.contains_key((start - 1) as u128));
                        assert(p.contains_key(last));
                    }
                }
                if start > 0 {
                    interval_map_remove(&mut self.range_map, 0, start);
                }
                assert(interval_points(self.range_map) =~= surviving(p, cutoff));
            },
        }
    }

    /// Records the given samples in order, then evicts what is older than
    /// `now - max_sample_age`.
    pub fn ingest_samples(&mut self, samples: &Vec<(RaplMeasurement, u128)>, now: u128)
        ensures
            final(self)@ == ingest(old(self)@, samples@, now),
    {
        let mut i: usize = 0;
        while i < samples.len()
            invariant
                i <= samples.len(),
                self@ == record_all(old(self)@, samples@.take(i as int)),
            decreases samples.len() - i,
        {
            let (m, t) = samples[i];
            self.record_sample(m, t);
            assert(samples@.take(i + 1).drop_last() =~= samples@.take(i as int));
            i = i + 1;
        }
        assert(samples@.take(i as int) =~= samples@);
        proof {
            lemma_record_all_keeps_config(old(self)@, samples@);
        }
        self.evict_before(now);
    }

    /// Takes in the samples that are waiting on the queue, then evicts the
    /// intervals that end before `now - max_sample_age`. Afterwards every
    /// covered timestamp below that bound lies in an interval that reaches it.
    pub fn record_pending_samples(&mut self, now: u128)
        ensures
            exists|batch: Seq<(RaplMeasurement, u128)>| final(self)@ == ingest(old(self)@, batch, now),
            forall|t: u128|
                #[trigger] final(self)@.points.contains_key(t) ==> survives(
                    final(self)@.points,
                    t,
                    retention_cutoff(now, old(self)@.max_sample_age),
                ),
            final(self)@.sampling_interval == old(self)@.sampling_interval,
            final(self)@.max_sample_age == old(self)@.max_sample_age,
    {
        let batch = drain_queue(&self.samples);
        self.ingest_samples(&batch, now);
        proof {
            lemma_retention(old(self)@, batch@, now);
            lemma_record_all_keeps_config(old(self)@, batch@);
        }
    }

    /// The snapshot whose interval covers `timestamp`, without taking in
    /// new samples.
    pub fn lookup(&self, timestamp: u128) -> (r: Option<TimedSnapshot>)
        ensures
            r == lookup(self@, timestamp),
    {
        interval_map_get(&self.range_map, timestamp)
    }

    /// Takes in the waiting samples, evicting relative to `timestamp`, then
    /// returns the snapshot whose interval covers `timestamp`. `None` when no
    /// retained interval covers it: it lies in an evicted interval, in a gap,
    /// or after the newest sample's interval.
    pub fn get_measurement(&mut self, timestamp: u128) -> (r: Option<TimedSnapshot>)
        ensures
            exists|batch: Seq<(RaplMeasurement, u128)>|
                final(self)@ == ingest(old(self)@, batch, timestamp),
            r == lookup(final(self)@, timestamp),
    {
        self.record_pending_samples(timestamp);
        self.lookup(timestamp)
    }

    /// Takes in the waiting samples once, evicting relative to the earliest
    /// of `timestamps`, then resolves every timestamp against that one
    /// state, in input order.
    pub fn get_multiple_measurements(&mut self, timestamps: &Vec<u128>) -> (r: Vec<
        Option<TimedSnapshot>,
    >)
        ensures
            timestamps.len() == 0 ==> final(self)@ == old(self)@,
            timestamps.len() > 0 ==> exists|batch: Seq<(RaplMeasurement, u128)>|
                final(self)@ == ingest(old(self)@, batch, min_of(timestamps@)),
            r.len() == timestamps.len(),
            forall|i: int| 0 <= i < r.len() ==> r@[i] == lookup(final(self)@, timestamps@[i]),
    {
        let mut result: Vec<Option<TimedSnapshot>> = Vec::new();
        if timestamps.len() == 0 {
            return result;
        }
        let earliest = earliest_timestamp(timestamps);
        self.record_pending_samples(earliest);
        let mut i: usize = 0;
        while i < timestamps.len()
            invariant
                i <= timestamps.len(),
                result.len() == i,
                forall|j: int| 0 <= j < i ==> result@[j] == lookup(self@, timestamps@[j]),
            decreases timestamps.len() - i,
        {
            result.push(self.lookup(timestamps[i]));
            i = i + 1;
        }
        result
    }
}

/// The smallest element of a non-empty sequence.
pub open spec fn min_of(s: Seq<u128>) -> u128
    decreases s.len(),
{
    if s.len() <= 1 {
        s[0]
    } else {
        let m = min_of(s.drop_last());
        if s.last() < m {
            s.last()
        } else {
            m
        }
    }
}

/// The smallest timestamp of a non-empty list.
fn earliest_timestamp(timestamps: &Vec<u128>) -> (r: u128)
    requires
        timestamps.len() > 0,
    ensures
        r == min_of(timestamps@),
{
    let mut m = timestamps[0];
    let mut i: usize = 1;
    while i < timestamps.len()
        invariant
            1 <= i <= timestamps.len(),
            m == min_of(timestamps@.take(i as int)),
        decreases timestamps.len() - i,
    {
        assert(timestamps@.take(i + 1).drop_last() =~= timestamps@.take(i as int));
        if timestamps[i] < m {
            m = timestamps[i];
        }
        i = i + 1;
    }
    assert(timestamps@.take(i as int) =~= timestamps@);
    m
}

proof fn lemma_record_all_keeps_config(s: SamplerState, samples: Seq<(RaplMeasurement, u128)>)
    ensures
        record_all(s, samples).sampling_interval == s.sampling_interval,
        record_all(s, samples).max_sample_age == s.max_sample_age,
    decreases samples.len(),
{
    if samples.len() > 0 {
        lemma_record_all_keeps_config(s, samples.drop_last());
    }
}

/// Eviction keeps intervals whole: a key kept below the cutoff still has
/// its whole interval up to the cutoff.
proof fn lemma_evict_keeps_runs(p: Map<u128, TimedSnapshot>, cutoff: u128)
    ensures
        forall|k: u128|
            #[trigger] surviving(p, cutoff).contains_key(k) ==> survives(
                surviving(p, cutoff),
                k,
                cutoff,
            ),
{
    let e = surviving(p, cutoff);
    assert forall|k: u128| #[trigger] e.contains_key(k) implies survives(e, k, cutoff) by {
        if k < cutoff {
            assert(reaches(p, k, cutoff));
            assert forall|j: u128| k <= j < cutoff implies #[trigger] e.contains_key(j) && e[j]
                == e[k] by {
                assert(p.contains_key(j));
                assert(p[j] == p[k]);
                assert forall|j2: u128| j <= j2 < cutoff implies #[trigger] p.contains_key(j2)
                    && p[j2] == p[j] by {
                    assert(p.contains_key(j2) && p[j2] == p[k]);
                }
                assert(survives(p, j, cutoff));
            }
        }
    }
}

/// Retention: after taking in any samples at time `now`, every covered
/// timestamp is at or after `now - max_sample_age` or lies in an interval
/// that reaches that bound, so no interval that ends before it remains.
pub proof fn lemma_retention(s: SamplerState, samples: Seq<(RaplMeasurement, u128)>, now: u128)
    ensures
        forall|t: u128|
            #[trigger] ingest(s, samples, now).points.contains_key(t) ==> survives(
                ingest(s, samples, now).points,
                t,
                retention_cutoff(now, s.max_sample_age),
            ),
{
    lemma_evict_keeps_runs(record_all(s, samples).points, retention_cutoff(now, s.max_sample_age));
}



/// The number of samples whose `pkg` is below the `pkg` before it, the
/// first compared with `last_pkg`.
pub open spec fn pkg_decreases(last_pkg: u64, samples: Seq<(RaplMeasurement, u128)>) -> nat
    decreases samples.len(),
{
    if samples.len() == 0 {
        0
    } else {
        let prev = if samples.len() == 1 {
            last_pkg
        } else {
            pkg_of(samples[samples.len() - 2].0)
        };
        pkg_decreases(last_pkg, samples.drop_last()) + if pkg_of(samples.last().0) < prev {
            1nat
        } else {
            0nat
        }
    }
}

/// Overflow counting: after recording samples, the overflow count has grown
/// by the number of samples whose `pkg` fell below the one before it
/// (modulo 2^32), and the last `pkg` seen is that of the last sample.
pub proof fn lemma_overflow_counts_decreases(
    s: SamplerState,
    samples: Seq<(RaplMeasurement, u128)>,
)
    ensures
        record_all(s, samples).pkg_overflow == (s.pkg_overflow as int + pkg_decreases(s.last_pkg, samples))
            % 0x1_0000_0000,
        samples.len() > 0 ==> record_all(s, samples).last_pkg == pkg_of(samples.last().0),
        samples.len() == 0 ==> record_all(s, samples).last_pkg == s.last_pkg,
    decreases samples.len(),
{
    if samples.len() > 0 {
        let init = samples.drop_last();
        lemma_overflow_counts_decreases(s, init);
        if samples.len() > 1 {
            assert(init.last() == samples[samples.len() - 2]);
        }
        let before = record_all(s, init);
        let k = pkg_decreases(s.last_pkg, init);
        assert(before.pkg_overflow == (s.pkg_overflow + k) % 0x1_0000_0000);
        if pkg_of(samples.last().0) < before.last_pkg {
            if before.pkg_overflow == u32::MAX {
                assert((s.pkg_overflow + k + 1) % 0x1_0000_0000 == 0) by {
                    vstd::arithmetic::div_mod::lemma_add_mod_noop(
                        (s.pkg_overflow + k) as int,
                        1,
                        0x1_0000_0000,
                    );
                }
            } else {
                assert((s.pkg_overflow + k + 1) % 0x1_0000_0000 == before.pkg_overflow + 1) by {
                    vstd::arithmetic::div_mod::lemma_add_mod_noop(
                        (s.pkg_overflow + k) as int,
                        1,
                        0x1_0000_0000,
                    );
                }
            }
        }
    } else {
        assert((s.pkg_overflow as int) % 0x1_0000_0000 == s.pkg_overflow as int);
    }
}

proof fn lemma_min_of_le(s: Seq<u128>, i: int)
    requires
        0 <= i < s.len(),
    ensures
        min_of(s) <= s[i],
    decreases s.len(),
{
    if s.len() > 1 {
        if i < s.len() - 1 {
            lemma_min_of_le(s.drop_last(), i);
        }
    }
}

/// Taking in nothing at time `now` evicts no timestamp at or after `now`.
proof fn lemma_ingest_nothing_keeps_later(s: SamplerState, now: u128, t: u128)
    requires
        now <= t,
    ensures
        lookup(ingest(s, seq![], now), t) == lookup(s, t),
{
}

/// Repeated lookups agree: once the samples are taken in at time `t`, a
/// second lookup of `t` with no new samples leaves the store as it is and
/// returns the same snapshot, the one that covered `t` before.
pub proof fn lemma_lookup_idempotent(
    s: SamplerState,
    samples: Seq<(RaplMeasurement, u128)>,
    t: u128,
)
    ensures
        ingest(ingest(s, samples, t), seq![], t) == ingest(s, samples, t),
        lookup(ingest(ingest(s, samples, t), seq![], t), t) == lookup(ingest(s, samples, t), t),
        lookup(ingest(s, samples, t), t) == lookup(record_all(s, samples), t),
{
    lemma_record_all_keeps_config(s, samples);
    let s1 = ingest(s, samples, t);
    let s2 = ingest(s1, seq![], t);
    assert(record_all(s1, seq![]) == s1);
    lemma_evict_keeps_runs(record_all(s, samples).points, retention_cutoff(t, s.max_sample_age));
    assert(s2.points =~= s1.points);
}

/// A batch lookup agrees with single lookups: after the samples are taken
/// in once for the batch `ts`, looking up any `ts[i]` on its own (with no
/// new samples) returns what the batch returned at position `i`.
pub proof fn lemma_batch_matches_single(
    s: SamplerState,
    samples: Seq<(RaplMeasurement, u128)>,
    ts: Seq<u128>,
    i: int,
)
    requires
        0 <= i < ts.len(),
    ensures
        lookup(ingest(ingest(s, samples, min_of(ts)), seq![], ts[i]), ts[i]) == lookup(
            ingest(s, samples, min_of(ts)),
            ts[i],
        ),
        lookup(ingest(s, samples, min_of(ts)), ts[i]) == lookup(record_all(s, samples), ts[i]),
{
    lemma_min_of_le(ts, i);
    lemma_ingest_nothing_keeps_later(ingest(s, samples, min_of(ts)), ts[i], ts[i]);
}

} // verus!
