//! Conversion of energy counters to joules. Joules are held exactly: a count
//! of ticks together with the scale of a tick.
use vstd::prelude::*;
use crate::registers::{
    AmdRaplRegisters, EnergyUnitScale, IntelRaplRegisters, RaplMeasurement, vendor_of,
};

verus! {

/// Energy in joules, per counter of one vendor: each field of `ticks` times
/// `2^-scale.joule_exponent` joules.
#[derive(Clone, Copy, Debug, PartialEq, Eq)]
pub struct RaplMeasurementJoules {
    pub ticks: RaplMeasurement,
    pub scale: EnergyUnitScale,
}

/// The number of ticks between two readings of a counter. A smaller current
/// reading means that the 32-bit physical counter wrapped once in between:
/// the delta is then `(u32::MAX - prev_as_u32) + curr_as_u32`.
pub open spec fn wrapped_delta(prev: u64, curr: u64) -> int {
    if prev <= curr {
        curr - prev
    } else {
        (u32::MAX - (prev as int % 0x1_0000_0000)) + (curr as int % 0x1_0000_0000)
    }
}

/// The field-wise `wrapped_delta` of two snapshots of one vendor.
pub open spec fn measurement_delta(prev: RaplMeasurement, curr: RaplMeasurement) -> RaplMeasurement
    recommends
        vendor_of(prev) == vendor_of(curr),
{
    match (prev, curr) {
        (RaplMeasurement::Intel(p), RaplMeasurement::Intel(c)) => RaplMeasurement::Intel(
            IntelRaplRegisters {
                pp0: wrapped_delta(p.pp0, c.pp0) as u64,
                pp1: wrapped_delta(p.pp1, c.pp1) as u64,
                pkg: wrapped_delta(p.pkg, c.pkg) as u64,
                dram: wrapped_delta(p.dram, c.dram) as u64,
            },
        ),
        (RaplMeasurement::AMD(p), RaplMeasurement::AMD(c)) => RaplMeasurement::AMD(
            AmdRaplRegisters {
                core: wrapped_delta(p.core, c.core) as u64,
                pkg: wrapped_delta(p.pkg, c.pkg) as u64,
            },
        ),
        _ => prev,
    }
}

/// The ticks of one counter between two readings, corrected for one
/// wraparound of the 32-bit physical counter.
pub fn counter_delta(prev: u64, curr: u64) -> (r: u64)
    ensures
        r == wrapped_delta(prev, curr),
{
    if prev <= curr {
        curr - prev
    } else {
        let p = prev as u32;
        let c = curr as u32;
        assert(p == prev as int % 0x1_0000_0000 && c == curr as int % 0x1_0000_0000)
            by (bit_vector)
            requires
                p == prev as u32,
                c == curr as u32,
        ;
        (u32::MAX - p) as u64 + c as u64
    }
}

/// A snapshot read as joules.
pub fn convert_to_joules(measurement: RaplMeasurement, scale: EnergyUnitScale) -> (r:
    RaplMeasurementJoules)
    ensures
        r == (RaplMeasurementJoules { ticks: measurement, scale }),
{
    RaplMeasurementJoules { ticks: measurement, scale }
}

/// The energy used between two snapshots of one vendor, in joules.
pub fn convert_rapl_msr_register_to_joules(
    prev_measurement: RaplMeasurement,
    curr_measurement: RaplMeasurement,
    scale: EnergyUnitScale,
) -> (r: RaplMeasurementJoules)
    requires
        vendor_of(prev_measurement) == vendor_of(curr_measurement),
    ensures
        r.ticks == measurement_delta(prev_measurement, curr_measurement),
        r.scale == scale,
{
    let ticks = match (prev_measurement, curr_measurement) {
        (RaplMeasurement::Intel(p), RaplMeasurement::Intel(c)) => RaplMeasurement::Intel(
            IntelRaplRegisters {
                pp0: counter_delta(p.pp0, c.pp0),
                pp1: counter_delta(p.pp1, c.pp1),
                pkg: counter_delta(p.pkg, c.pkg),
                dram: counter_delta(p.dram, c.dram),
            },
        ),
        (RaplMeasurement::AMD(p), RaplMeasurement::AMD(c)) => RaplMeasurement::AMD(
            AmdRaplRegisters {
                core: counter_delta(p.core, c.core),
                pkg: counter_delta(p.pkg, c.pkg),
            },
        ),
        _ => prev_measurement,
    };
    RaplMeasurementJoules { ticks, scale }
}

} // verus!
