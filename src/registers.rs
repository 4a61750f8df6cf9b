//! Layout of the RAPL registers: the power-unit bitfield, the energy counters
//! of each vendor, and the register-address tables.
use vstd::prelude::*;

verus! {

/// Address of the power-unit register on Intel processors.
pub const INTEL_MSR_RAPL_POWER_UNIT: u64 = 0x606;

/// Address of the package energy counter on Intel processors.
pub const INTEL_MSR_RAPL_PKG_ENERGY_STAT: u64 = 0x611;

/// Address of the power-plane-0 (cores) energy counter on Intel processors.
pub const INTEL_MSR_RAPL_PP0: u64 = 0x639;

/// Address of the power-plane-1 (uncore) energy counter on Intel processors.
pub const INTEL_MSR_RAPL_PP1: u64 = 0x641;

/// Address of the DRAM energy counter on Intel processors.
pub const INTEL_MSR_RAPL_DRAM: u64 = 0x619;

/// Address of the power-unit register on AMD processors.
pub const AMD_MSR_RAPL_POWER_UNIT: u64 = 0xC0010299;

/// Address of the package energy counter on AMD processors.
pub const AMD_MSR_RAPL_PKG_ENERGY_STAT: u64 = 0xC001029B;

/// Address of the core energy counter on AMD processors.
pub const AMD_MSR_CORE_ENERGY: u64 = 0xC001029A;

/// The processor vendor, which decides the register layout.
#[derive(Clone, Copy, Debug, PartialEq, Eq, Structural)]
pub enum Vendor {
    Intel,
    Amd,
}

/// Raw energy counters of an Intel package.
#[derive(Clone, Copy, Debug, PartialEq, Eq)]
pub struct IntelRaplRegisters {
    pub pp0: u64,
    pub pp1: u64,
    pub pkg: u64,
    pub dram: u64,
}

/// Raw energy counters of an AMD package.
#[derive(Clone, Copy, Debug, PartialEq, Eq)]
pub struct AmdRaplRegisters {
    pub core: u64,
    pub pkg: u64,
}

/// One snapshot of the energy counters, in the layout of one vendor.
#[derive(Clone, Copy, Debug, PartialEq, Eq)]
pub enum RaplMeasurement {
    Intel(IntelRaplRegisters),
    AMD(AmdRaplRegisters),
}

/// Failure to read the hardware registers.
#[derive(Clone, Copy, Debug, PartialEq, Eq)]
pub enum RaplError {
    /// The read of the register at `address` failed.
    Io { address: u64 },
}

/// The scale of the energy counters: one tick is `2^-joule_exponent` joules.
#[derive(Clone, Copy, Debug, PartialEq, Eq)]
pub struct EnergyUnitScale {
    pub joule_exponent: u8,
}

/// Bits `[8, 12)` of the power-unit register: the energy status units.
pub open spec fn energy_status_units(raw: u64) -> int {
    (raw as int / 256) % 16
}

/// `2^n`.
pub open spec fn pow2(n: nat) -> nat
    decreases n,
{
    if n == 0 {
        1
    } else {
        2 * pow2((n - 1) as nat)
    }
}

impl EnergyUnitScale {
    /// Well formed: the exponent fits the four-bit field it is read from.
    pub open spec fn wf(self) -> bool {
        self.joule_exponent < 16
    }

    /// Number of counter ticks that make one joule.
    pub fn ticks_per_joule(&self) -> (r: u64)
        requires
            self.wf(),
        ensures
            r == pow2(self.joule_exponent as nat),
    {
        let mut r: u64 = 1;
        let mut i: u8 = 0;
        while i < self.joule_exponent
            invariant
                i <= self.joule_exponent < 16,
                r == pow2(i as nat),
                r <= 0x8000,
            decreases self.joule_exponent - i,
        {
            proof {
                reveal_with_fuel(pow2, 2);
                lemma_pow2_bound(i as nat);
            }
            r = r * 2;
            i = i + 1;
        }
        r
    }
}

proof fn lemma_pow2_bound(n: nat)
    requires
        n < 15,
    ensures
        pow2(n) <= pow2(14),
        pow2(14) == 0x4000,
    decreases 15 - n,
{
    reveal_with_fuel(pow2, 15);
    if n < 14 {
        lemma_pow2_bound(n + 1);
    }
}

/// Decodes the power-unit register: the joule exponent is its bits `[8, 12)`.
pub fn decode_power_unit(raw: u64) -> (r: EnergyUnitScale)
    ensures
        r.joule_exponent == energy_status_units(raw),
        r.wf(),
{
    let field = (raw >> 8u64) & 0xfu64;
    assert(field == (raw / 256) % 16) by (bit_vector)
        requires
            field == (raw >> 8u64) & 0xfu64,
    ;
    EnergyUnitScale { joule_exponent: field as u8 }
}


/// The energy-counter addresses of a vendor, in the order of the fields of
/// its snapshot.
pub open spec fn counter_addresses_spec(vendor: Vendor) -> Seq<u64> {
    match vendor {
        Vendor::Intel => seq![
            INTEL_MSR_RAPL_PP0,
            INTEL_MSR_RAPL_PP1,
            INTEL_MSR_RAPL_PKG_ENERGY_STAT,
            INTEL_MSR_RAPL_DRAM,
        ],
        Vendor::Amd => seq![AMD_MSR_CORE_ENERGY, AMD_MSR_RAPL_PKG_ENERGY_STAT],
    }
}

/// The vendor whose layout a snapshot has.
pub open spec fn vendor_of(m: RaplMeasurement) -> Vendor {
    match m {
        RaplMeasurement::Intel(_) => Vendor::Intel,
        RaplMeasurement::AMD(_) => Vendor::Amd,
    }
}

/// The fields of a snapshot, in the order of `counter_addresses_spec`.
pub open spec fn counter_values(m: RaplMeasurement) -> Seq<u64> {
    match m {
        RaplMeasurement::Intel(r) => seq![r.pp0, r.pp1, r.pkg, r.dram],
        RaplMeasurement::AMD(r) => seq![r.core, r.pkg],
    }
}

/// The `pkg` counter, which both layouts have.
pub open spec fn pkg_of(m: RaplMeasurement) -> u64 {
    match m {
        RaplMeasurement::Intel(r) => r.pkg,
        RaplMeasurement::AMD(r) => r.pkg,
    }
}

/// The energy-counter addresses that a snapshot of `vendor` is read from.
pub fn energy_counter_addresses(vendor: Vendor) -> (r: Vec<u64>)
    ensures
        r@ == counter_addresses_spec(vendor),
{
    let r = match vendor {
        Vendor::Intel => vec![
            INTEL_MSR_RAPL_PP0,
            INTEL_MSR_RAPL_PP1,
            INTEL_MSR_RAPL_PKG_ENERGY_STAT,
            INTEL_MSR_RAPL_DRAM,
        ],
        Vendor::Amd => vec![AMD_MSR_CORE_ENERGY, AMD_MSR_RAPL_PKG_ENERGY_STAT],
    };
    assert(r@ =~= counter_addresses_spec(vendor));
    r
}

/// The address of the power-unit register of `vendor`.
pub fn power_unit_address(vendor: Vendor) -> (r: u64)
    ensures
        r == (match vendor {
            Vendor::Intel => INTEL_MSR_RAPL_POWER_UNIT,
            Vendor::Amd => AMD_MSR_RAPL_POWER_UNIT,
        }),
{
    match vendor {
        Vendor::Intel => INTEL_MSR_RAPL_POWER_UNIT,
        Vendor::Amd => AMD_MSR_RAPL_POWER_UNIT,
    }
}

/// Builds a snapshot from the reads of the counters at
/// `energy_counter_addresses(vendor)`, taken in that order. A snapshot is
/// all or nothing: the first failed read fails the whole snapshot.
pub fn assemble_measurement(vendor: Vendor, reads: &Vec<Option<u64>>) -> (r: Result<
    RaplMeasurement,
    RaplError,
>)
    requires
        reads.len() == counter_addresses_spec(vendor).len(),
    ensures
        match r {
            Ok(m) => {
                &&& forall|i: int| 0 <= i < reads.len() ==> reads@[i].is_some()
                &&& vendor_of(m) == vendor
                &&& forall|i: int|
                    0 <= i < reads.len() ==> counter_values(m)[i] == reads@[i].unwrap()
            },
            Err(RaplError::Io { address }) => exists|i: int|
                {
                    &&& 0 <= i < reads.len()
                    &&& reads@[i].is_none()
                    &&& address == counter_addresses_spec(vendor)[i]
                    &&& forall|j: int| 0 <= j < i ==> reads@[j].is_some()
                },
        },
{
    let addresses = energy_counter_addresses(vendor);
    let mut values: Vec<u64> = Vec::new();
    let mut i: usize = 0;
    while i < reads.len()
        invariant
            i <= reads.len() == addresses.len(),
            addresses@ == counter_addresses_spec(vendor),
            values.len() == i,
            forall|j: int| 0 <= j < i ==> reads@[j] == Some(values@[j]),
        decreases reads.len() - i,
    {
        match reads[i] {
            Some(v) => values.push(v),
            None => {
                return Err(RaplError::Io { address: addresses[i] });
            },
        }
        i = i + 1;
    }
    let m = match vendor {
        Vendor::Intel => RaplMeasurement::Intel(
            IntelRaplRegisters { pp0: values[0], pp1: values[1], pkg: values[2], dram: values[3] },
        ),
        Vendor::Amd => RaplMeasurement::AMD(AmdRaplRegisters { core: values[0], pkg: values[1] }),
    };
    Ok(m)
}

} // verus!
