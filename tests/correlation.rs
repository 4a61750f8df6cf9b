use crossbeam::queue::SegQueue;
use std::sync::Arc;
use thor::component_def::Measurement;
use thor::distributor::{create_client_packets, distribution_cycle};
use thor::pairing::{PairingError, StartStopTracker};
use thor::protocol::{ClientPacket, ProcessUnderTestPacket, ProcessUnderTestPacketOperation};
use thor::registers::{AmdRaplRegisters, EnergyUnitScale, IntelRaplRegisters, RaplMeasurement};
use thor::sampler::{RaplSampler, TimedSnapshot};

type Queue = Arc<SegQueue<(RaplMeasurement, u128)>>;

fn pkg(p: u64) -> RaplMeasurement {
    RaplMeasurement::Intel(IntelRaplRegisters { pp0: 0, pp1: 0, pkg: p, dram: 0 })
}

fn store(max_age: u128, interval: u64) -> (RaplSampler, Queue) {
    let q: Queue = Arc::new(SegQueue::new());
    (RaplSampler::new(max_age, interval, q.clone()), q)
}

fn event(id: &str, thread_id: usize, op: ProcessUnderTestPacketOperation, t: u128) -> ProcessUnderTestPacket {
    ProcessUnderTestPacket { id: id.to_string(), process_id: 42, thread_id, operation: op, timestamp: t }
}

#[test]
fn lookup_finds_covering_interval() {
    let (mut s, q) = store(1000, 10);
    q.push((pkg(1), 100));
    q.push((pkg(2), 110));
    let a = s.get_measurement(105).unwrap();
    assert_eq!(a.measurement, pkg(1));
    assert_eq!(a.timestamp, 100);
    // left-inclusive boundary
    assert_eq!(s.lookup(110).unwrap().measurement, pkg(2));
    assert_eq!(s.lookup(109).unwrap().measurement, pkg(1));
    // after the newest sample's interval
    assert_eq!(s.lookup(120), None);
    assert_eq!(s.lookup(99), None);
}

#[test]
fn repeated_lookup_is_identical() {
    let (mut s, q) = store(50, 10);
    q.push((pkg(7), 200));
    q.push((pkg(9), 210));
    let first = s.get_measurement(215);
    let second = s.get_measurement(215);
    let third = s.get_measurement(215);
    assert!(first.is_some());
    assert_eq!(first, second);
    assert_eq!(second, third);
    assert_eq!(first.unwrap().measurement, pkg(9));
}

#[test]
fn retention_evicts_old_intervals() {
    let (mut s, q) = store(100, 10);
    for i in 0..10u64 {
        q.push((pkg(i), 1000 + 10 * i as u128));
    }
    s.record_pending_samples(1150);
    // cutoff 1050: intervals ending before it are gone
    for t in 1000..1040u128 {
        assert_eq!(s.lookup(t), None);
    }
    // [1040, 1050) reaches the cutoff and stays whole
    assert_eq!(s.lookup(1040).unwrap().measurement, pkg(4));
    assert_eq!(s.lookup(1049).unwrap().measurement, pkg(4));
    assert_eq!(s.lookup(1050).unwrap().measurement, pkg(5));
    assert_eq!(s.lookup(1099).unwrap().measurement, pkg(9));
    // a lookup of an evicted time is a miss
    assert_eq!(s.get_measurement(1020), None);
}

#[test]
fn interval_straddling_cutoff_stays_whole() {
    let (mut s, _q) = store(100, 30);
    s.ingest_samples(&vec![(pkg(1), 900), (pkg(2), 940), (pkg(3), 980)], 1050);
    // cutoff 950: [900, 930) ends before it; [940, 970) straddles it
    assert_eq!(s.lookup(929), None);
    assert_eq!(s.lookup(940).unwrap().measurement, pkg(2));
    assert_eq!(s.lookup(949).unwrap().measurement, pkg(2));
    assert_eq!(s.lookup(969).unwrap().measurement, pkg(2));
    assert_eq!(s.lookup(980).unwrap().measurement, pkg(3));
    // a gap just below the cutoff: everything before it goes
    s.ingest_samples(&vec![], 1081);
    assert_eq!(s.lookup(969), None);
    assert_eq!(s.lookup(980).unwrap().measurement, pkg(3));
    s.ingest_samples(&vec![], 1111);
    assert_eq!(s.lookup(1009), None);
}

#[test]
fn retention_with_now_below_age_keeps_everything() {
    let (mut s, q) = store(5000, 10);
    q.push((pkg(1), 0));
    s.record_pending_samples(100);
    assert_eq!(s.lookup(0).unwrap().measurement, pkg(1));
}

#[test]
fn overflow_count_progression() {
    let (mut s, q) = store(1_000_000, 10);
    let values = [5u64, 10, 3, 50, 2];
    for (i, v) in values.iter().enumerate() {
        q.push((pkg(*v), 10 * i as u128));
    }
    s.record_pending_samples(0);
    let counts: Vec<u32> = (0..5u128).map(|i| s.lookup(10 * i).unwrap().pkg_overflow).collect();
    assert_eq!(counts, vec![0, 0, 1, 1, 2]);
    assert_eq!(s.pkg_overflow(), 2);
}

#[test]
fn overflow_counts_amd_pkg() {
    let (mut s, _q) = store(1_000_000, 10);
    s.record_sample(RaplMeasurement::AMD(AmdRaplRegisters { core: 0, pkg: 100 }), 0);
    s.record_sample(RaplMeasurement::AMD(AmdRaplRegisters { core: 0, pkg: 99 }), 10);
    assert_eq!(s.pkg_overflow(), 1);
    s.record_sample(RaplMeasurement::AMD(AmdRaplRegisters { core: 500, pkg: 99 }), 20);
    assert_eq!(s.pkg_overflow(), 1);
}

#[test]
fn batch_lookup_keeps_input_order() {
    let (mut s, q) = store(1000, 10);
    q.push((pkg(1), 100));
    q.push((pkg(2), 110));
    q.push((pkg(3), 120));
    let (t1, t2, t3) = (101u128, 112u128, 125u128);
    let batch = s.get_multiple_measurements(&vec![t3, t1, t2]);
    let got: Vec<RaplMeasurement> = batch.iter().map(|r| r.unwrap().measurement).collect();
    assert_eq!(got, vec![pkg(3), pkg(1), pkg(2)]);
    assert_eq!(batch[0], s.get_measurement(t3));
    assert_eq!(batch[1], s.get_measurement(t1));
    assert_eq!(batch[2], s.get_measurement(t2));
}

#[test]
fn batch_lookup_of_nothing() {
    let (mut s, q) = store(1000, 10);
    q.push((pkg(1), 100));
    assert!(s.get_multiple_measurements(&vec![]).is_empty());
    // nothing was taken in
    assert_eq!(s.lookup(100), None);
    let via_trait: Vec<Option<TimedSnapshot>> =
        Measurement::get_multiple_measurements(&mut s, &vec![100]);
    assert_eq!(via_trait[0].unwrap().measurement, pkg(1));
}

#[test]
fn later_sample_replaces_overlap() {
    let (mut s, _q) = store(1000, 10);
    s.ingest_samples(&vec![(pkg(1), 100), (pkg(2), 105)], 100);
    assert_eq!(s.lookup(104).unwrap().measurement, pkg(1));
    assert_eq!(s.lookup(105).unwrap().measurement, pkg(2));
    assert_eq!(s.lookup(114).unwrap().measurement, pkg(2));
    assert_eq!(s.lookup(115), None);
}

#[test]
fn zero_interval_covers_nothing() {
    let (mut s, _q) = store(1000, 0);
    s.ingest_samples(&vec![(pkg(1), 100)], 100);
    assert_eq!(s.lookup(100), None);
    assert_eq!(s.sampling_interval(), 0);
}

#[test]
fn interval_is_capped_at_largest_timestamp() {
    let (mut s, _q) = store(10, 100);
    s.ingest_samples(&vec![(pkg(1), u128::MAX - 5)], u128::MAX - 5);
    assert_eq!(s.lookup(u128::MAX - 1).unwrap().measurement, pkg(1));
    assert_eq!(s.lookup(u128::MAX), None);
}

#[test]
fn end_to_end_start_stop() {
    let (mut s, q) = store(10_000, 100);
    q.push((pkg(1000), 90));
    q.push((pkg(1200), 190));
    let scale = EnergyUnitScale { joule_exponent: 0 };
    let events = vec![
        event("A", 1, ProcessUnderTestPacketOperation::Start, 100),
        event("A", 1, ProcessUnderTestPacketOperation::Stop, 200),
    ];
    let packets: Vec<ClientPacket> = distribution_cycle(&mut s, events, 250, scale);
    assert_eq!(packets.len(), 2);
    assert_eq!(packets[0].rapl_measurement.ticks, pkg(1000));
    assert_eq!(packets[1].rapl_measurement.ticks, pkg(1200));
    let mut tracker = StartStopTracker::new();
    let start = &packets[0].process_under_test_packet;
    tracker
        .start(start.id.clone(), start.thread_id, packets[0].rapl_measurement.ticks, start.timestamp)
        .unwrap();
    let stop = &packets[1].process_under_test_packet;
    let done = tracker.stop(&stop.id, stop.thread_id, packets[1].rapl_measurement.ticks, scale).unwrap();
    assert_eq!(done.id, "A");
    assert_eq!(done.start_timestamp, 100);
    match done.energy.ticks {
        RaplMeasurement::Intel(d) => {
            let energy_unit = 0.1f64;
            assert_eq!(d.pkg, 200);
            assert_eq!(d.pkg as f64 * energy_unit, 20.0);
        }
        _ => panic!("vendor changed"),
    }
}

#[test]
fn uncovered_events_are_dropped() {
    let (mut s, q) = store(10_000, 10);
    q.push((pkg(5), 100));
    let scale = EnergyUnitScale { joule_exponent: 2 };
    let mut out = Vec::new();
    create_client_packets(
        vec![
            event("late", 3, ProcessUnderTestPacketOperation::Start, 500),
            event("ok", 3, ProcessUnderTestPacketOperation::Stop, 105),
        ],
        &mut s,
        scale,
        &mut out,
    );
    assert_eq!(out.len(), 1);
    assert_eq!(out[0].process_under_test_packet.id, "ok");
    assert_eq!(out[0].rapl_measurement.scale, scale);
    assert_eq!(out[0].pkg_overflow, 0);
}

#[test]
fn empty_cycle_still_takes_in_samples() {
    let (mut s, q) = store(100, 10);
    q.push((pkg(5), 100));
    q.push((pkg(6), 300));
    let packets = distribution_cycle(&mut s, vec![], 305, EnergyUnitScale { joule_exponent: 0 });
    assert!(packets.is_empty());
    assert!(q.is_empty());
    assert_eq!(s.lookup(100), None);
    assert_eq!(s.lookup(300).unwrap().measurement, pkg(6));
}

#[test]
fn second_start_is_refused() {
    let mut t = StartStopTracker::new();
    assert_eq!(t.start("f".to_string(), 1, pkg(10), 5), Ok(()));
    assert_eq!(t.start("f".to_string(), 1, pkg(20), 6), Err(PairingError::DuplicateStart));
    // another thread is another key
    assert_eq!(t.start("f".to_string(), 2, pkg(30), 7), Ok(()));
    let scale = EnergyUnitScale { joule_exponent: 0 };
    let done = t.stop(&"f".to_string(), 1, pkg(15), scale).unwrap();
    // the first start was kept
    assert_eq!(done.start_timestamp, 5);
    assert_eq!(done.energy.ticks, pkg(5));
    assert_eq!(t.stop(&"f".to_string(), 1, pkg(15), scale).map(|c| c.thread_id), Err(PairingError::UnmatchedStop));
}

#[test]
fn stop_with_other_vendor_is_refused() {
    let mut t = StartStopTracker::new();
    t.start("g".to_string(), 1, pkg(10), 5).unwrap();
    let amd = RaplMeasurement::AMD(AmdRaplRegisters { core: 1, pkg: 2 });
    let scale = EnergyUnitScale { joule_exponent: 0 };
    assert_eq!(t.stop(&"g".to_string(), 1, amd, scale).map(|c| c.thread_id), Err(PairingError::VendorMismatch));
    assert_eq!(t.stop(&"g".to_string(), 1, pkg(11), scale).map(|c| c.thread_id), Ok(1));
}
