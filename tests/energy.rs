use thor::intel::{IntelRaplReader, IntelRaplReaderBuilder};
use thor::joules::{convert_rapl_msr_register_to_joules, convert_to_joules, counter_delta};
use thor::registers::{
    assemble_measurement, decode_power_unit, energy_counter_addresses, power_unit_address,
    AmdRaplRegisters, EnergyUnitScale, IntelRaplRegisters, RaplError, RaplMeasurement, Vendor,
    AMD_MSR_CORE_ENERGY, AMD_MSR_RAPL_PKG_ENERGY_STAT, INTEL_MSR_RAPL_DRAM,
    INTEL_MSR_RAPL_PKG_ENERGY_STAT, INTEL_MSR_RAPL_POWER_UNIT, INTEL_MSR_RAPL_PP0,
    INTEL_MSR_RAPL_PP1,
};

fn intel(pp0: u64, pp1: u64, pkg: u64, dram: u64) -> RaplMeasurement {
    RaplMeasurement::Intel(IntelRaplRegisters { pp0, pp1, pkg, dram })
}

fn joules(ticks: u64, scale: EnergyUnitScale) -> f64 {
    ticks as f64 / scale.ticks_per_joule() as f64
}

#[test]
fn energy_unit_from_power_unit_register() {
    // energy status units (bits 8..12) = 0b0101, other fields set too
    let raw: u64 = 0x000A_1503 | (0xFFu64 << 40);
    let scale = decode_power_unit(raw);
    assert_eq!(scale.joule_exponent, 5);
    assert_eq!(scale.ticks_per_joule(), 32);
    assert_eq!(1.0 / scale.ticks_per_joule() as f64, 0.03125);
    assert_eq!(0.5f64.powi(scale.joule_exponent as i32), 0.03125);
}

#[test]
fn energy_unit_uses_only_four_bits() {
    // bit 12 belongs to the next field
    assert_eq!(decode_power_unit(0x1F00).joule_exponent, 15);
    assert_eq!(decode_power_unit(0x1000).joule_exponent, 0);
    assert_eq!(decode_power_unit(0).ticks_per_joule(), 1);
    assert_eq!(decode_power_unit(0x0F00).ticks_per_joule(), 32768);
}

#[test]
fn delta_without_wraparound() {
    let scale = EnergyUnitScale { joule_exponent: 4 }; // 0.0625 J per tick
    let r = convert_rapl_msr_register_to_joules(intel(0, 0, 1000, 0), intel(0, 0, 1500, 0), scale);
    match r.ticks {
        RaplMeasurement::Intel(d) => {
            assert_eq!(d.pkg, 500);
            assert_eq!(joules(d.pkg, scale), 31.25);
        }
        _ => panic!("vendor changed"),
    }
    assert_eq!(r.scale, scale);
}

#[test]
fn delta_with_wraparound() {
    let prev = u32::MAX as u64 - 10;
    // (u32::MAX - prev_as_u32) + curr_as_u32 = 10 + 5
    assert_eq!(counter_delta(prev, 5), 15);
    let scale = EnergyUnitScale { joule_exponent: 0 }; // 1 J per tick
    let r = convert_rapl_msr_register_to_joules(
        RaplMeasurement::AMD(AmdRaplRegisters { core: 7, pkg: prev }),
        RaplMeasurement::AMD(AmdRaplRegisters { core: 9, pkg: 5 }),
        scale,
    );
    match r.ticks {
        RaplMeasurement::AMD(d) => {
            assert_eq!(joules(d.pkg, scale), 15.0);
            assert_eq!(d.core, 2);
        }
        _ => panic!("vendor changed"),
    }
}

#[test]
fn wraparound_applies_to_every_field() {
    let scale = EnergyUnitScale { joule_exponent: 0 };
    let r = convert_rapl_msr_register_to_joules(
        intel(100, 200, 300, 400),
        intel(1, 2, 3, 4),
        scale,
    );
    let m = u32::MAX as u64;
    assert_eq!(r.ticks, intel(m - 100 + 1, m - 200 + 2, m - 300 + 3, m - 400 + 4));
}

#[test]
fn wraparound_uses_low_32_bits() {
    // upper bits differ: only the low 32 bits count
    let prev = (1u64 << 32) + 10;
    assert_eq!(counter_delta(prev, 20), u32::MAX as u64 - 10 + 20);
    assert_eq!(counter_delta(7, 7), 0);
}

#[test]
fn absolute_joules_keep_ticks() {
    let scale = EnergyUnitScale { joule_exponent: 3 };
    let j = convert_to_joules(intel(8, 16, 24, 32), scale);
    assert_eq!(j.ticks, intel(8, 16, 24, 32));
    assert_eq!(joules(24, j.scale), 3.0);
}

#[test]
fn register_tables() {
    assert_eq!(
        energy_counter_addresses(Vendor::Intel),
        vec![INTEL_MSR_RAPL_PP0, INTEL_MSR_RAPL_PP1, INTEL_MSR_RAPL_PKG_ENERGY_STAT, INTEL_MSR_RAPL_DRAM]
    );
    assert_eq!(
        energy_counter_addresses(Vendor::Amd),
        vec![AMD_MSR_CORE_ENERGY, AMD_MSR_RAPL_PKG_ENERGY_STAT]
    );
    assert_eq!(power_unit_address(Vendor::Intel), INTEL_MSR_RAPL_POWER_UNIT);
    assert_eq!(power_unit_address(Vendor::Amd), 0xC0010299);
}

#[test]
fn snapshot_from_reads() {
    let m = assemble_measurement(Vendor::Intel, &vec![Some(1), Some(2), Some(3), Some(4)]);
    assert_eq!(m, Ok(intel(1, 2, 3, 4)));
    let a = assemble_measurement(Vendor::Amd, &vec![Some(9), Some(8)]);
    assert_eq!(a, Ok(RaplMeasurement::AMD(AmdRaplRegisters { core: 9, pkg: 8 })));
}

#[test]
fn snapshot_fails_on_any_failed_read() {
    let m = assemble_measurement(Vendor::Intel, &vec![Some(1), None, Some(3), None]);
    assert_eq!(m, Err(RaplError::Io { address: INTEL_MSR_RAPL_PP1 }));
    let a = assemble_measurement(Vendor::Amd, &vec![Some(9), None]);
    assert_eq!(a, Err(RaplError::Io { address: AMD_MSR_RAPL_PKG_ENERGY_STAT }));
}

#[test]
fn intel_reader_builder() {
    let mut b = IntelRaplReaderBuilder::new();
    assert!(!b.pp0 && !b.pp1 && !b.pkg && !b.dram);
    b.with_pp0(true).with_pkg(true).with_dram(true).enable_joule_conversion(true);
    b.with_dram(false).with_pp1(true);
    assert!(b.pp0 && b.pp1 && b.pkg && !b.dram);
    let _reader = b.build();
    let m = IntelRaplReader::read_measurement(&vec![Some(5), Some(6), Some(7), Some(8)]);
    assert_eq!(m, Ok(intel(5, 6, 7, 8)));
    let e = IntelRaplReader::read_measurement(&vec![None, Some(6), Some(7), Some(8)]);
    assert_eq!(e, Err(RaplError::Io { address: INTEL_MSR_RAPL_PP0 }));
}
