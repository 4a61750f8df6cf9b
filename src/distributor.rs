//! The result distributor's logic: pairing events with the snapshots that
//! covered them, the decision of each cycle, and the set of observers with
//! its pruning of dead connections.
use vstd::prelude::*;
use crate::joules::{RaplMeasurementJoules, convert_to_joules};
use crate::protocol::{ClientPacket, ProcessUnderTestPacket};
use crate::registers::{EnergyUnitScale, RaplMeasurement};
use crate::sampler::{RaplSampler, SamplerState, TimedSnapshot, ingest, lookup, min_of};

verus! {

/// The packet that reports `event` with the snapshot `snap`.
pub open spec fn packet_for(
    event: ProcessUnderTestPacket,
    snap: TimedSnapshot,
    scale: EnergyUnitScale,
) -> ClientPacket {
    ClientPacket {
        process_under_test_packet: event,
        rapl_measurement: RaplMeasurementJoules { ticks: snap.measurement, scale },
        pkg_overflow: snap.pkg_overflow,
    }
}

/// The events of `events` whose timestamp the store state `s` covers, each
/// paired with its snapshot, in order. An event that no snapshot covers is
/// dropped.
pub open spec fn correlate(
    events: Seq<ProcessUnderTestPacket>,
    s: SamplerState,
    scale: EnergyUnitScale,
) -> Seq<ClientPacket>
    decreases events.len(),
{
    if events.len() == 0 {
        seq![]
    } else {
        let rest = correlate(events.drop_last(), s, scale);
        match lookup(s, events.last().timestamp) {
            Some(snap) => rest.push(packet_for(events.last(), snap, scale)),
            None => rest,
        }
    }
}

/// The timestamps of a list of events.
pub open spec fn timestamps_of(events: Seq<ProcessUnderTestPacket>) -> Seq<u128> {
    events.map_values(|e: ProcessUnderTestPacket| e.timestamp)
}

/// Resolves the snapshots of all events in one batch lookup and appends a
/// packet for each event that a snapshot covers, in input order.
pub fn create_client_packets(
    process_under_test_packets: Vec<ProcessUnderTestPacket>,
    measurement: &mut RaplSampler,
    scale: EnergyUnitScale,
    client_packets: &mut Vec<ClientPacket>,
)
    requires
        process_under_test_packets.len() > 0,
    ensures
        exists|batch: Seq<(RaplMeasurement, u128)>|
            final(measurement)@ == ingest(
                old(measurement)@,
                batch,
                min_of(timestamps_of(process_under_test_packets@)),
            ),
        final(client_packets)@ == old(client_packets)@ + correlate(
            process_under_test_packets@,
            final(measurement)@,
            scale,
        ),
{
    let ghost events = process_under_test_packets@;
    let mut timestamps: Vec<u128> = Vec::new();
    let mut i: usize = 0;
    while i < process_under_test_packets.len()
        invariant
            i <= process_under_test_packets.len(),
            process_under_test_packets@ == events,
            timestamps@ == timestamps_of(events).take(i as int),
        decreases process_under_test_packets.len() - i,
    {
        timestamps.push(process_under_test_packets[i].timestamp);
        i = i + 1;
        assert(timestamps@ =~= timestamps_of(events).take(i as int));
    }
    assert(timestamps@ =~= timestamps_of(events));
    let results = measurement.get_multiple_measurements(&timestamps);
    let mut pending = process_under_test_packets;
    let ghost start = client_packets@;
    let n = results.len();
    let mut k: usize = 0;
    while k < n
        invariant
            k <= n == results.len() == events.len(),
            timestamps@ == timestamps_of(events),
            pending@ == events.subrange(k as int, n as int),
            forall|j: int| 0 <= j < n ==> results@[j] == lookup(measurement@, timestamps@[j]),
            client_packets@ == start + correlate(events.take(k as int), measurement@, scale),
        decreases n - k,
    {
        let event = pending.remove(0);
        assert(event == events[k as int]);
        assert(events.take(k + 1).drop_last() =~= events.take(k as int));
        assert(events.take(k + 1).last() == events[k as int]);
        match results[k] {
            Some(snap) => {
                let packet = ClientPacket {
                    process_under_test_packet: event,
                    rapl_measurement: convert_to_joules(snap.measurement, scale),
                    pkg_overflow: snap.pkg_overflow,
                };
                client_packets.push(packet);
                assert(client_packets@ =~= start + correlate(
                    events.take(k + 1),
                    measurement@,
                    scale,
                ));
            },
            None => {},
        }
        k = k + 1;
        assert(pending@ =~= events.subrange(k as int, n as int));
    }
    assert(events.take(n as int) =~= events);
}

/// One distribution cycle over the events drained since the last one. With
/// no events it still takes in the waiting samples at time `now`, so that
/// eviction keeps up, and reports nothing; otherwise it reports the events
/// that a snapshot covers.
pub fn distribution_cycle(
    measurement: &mut RaplSampler,
    events: Vec<ProcessUnderTestPacket>,
    now: u128,
    scale: EnergyUnitScale,
) -> (r: Vec<ClientPacket>)
    ensures
        events.len() == 0 ==> r@.len() == 0 && exists|batch: Seq<(RaplMeasurement, u128)>|
            final(measurement)@ == ingest(old(measurement)@, batch, now),
        events.len() > 0 ==> exists|batch: Seq<(RaplMeasurement, u128)>|
            final(measurement)@ == ingest(old(measurement)@, batch, min_of(timestamps_of(events@))),
        r@ == correlate(events@, final(measurement)@, scale),
{
    let mut packets: Vec<ClientPacket> = Vec::new();
    if events.len() == 0 {
        let _ = measurement.get_measurement(now);
        assert(events@ =~= Seq::<ProcessUnderTestPacket>::empty());
        return packets;
    }
    let ghost evs = events@;
    create_client_packets(events, measurement, scale, &mut packets);
    assert(packets@ =~= correlate(evs, measurement@, scale));
    packets
}

} // verus!
