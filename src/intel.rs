//! A reader of the Intel energy counters, configured through a builder.
use vstd::prelude::*;
use crate::registers::{RaplError, RaplMeasurement, Vendor, assemble_measurement, counter_addresses_spec, counter_values, vendor_of};

verus! {

/// Chooses the Intel energy domains to read.
pub struct IntelRaplReaderBuilder {
    pub pp0: bool,
    pub pp1: bool,
    pub pkg: bool,
    pub dram: bool,
    enable_joule_conversion: bool,
}

/// Which Intel energy domains are chosen.
pub struct DomainSelection {
    pub pp0: bool,
    pub pp1: bool,
    pub pkg: bool,
    pub dram: bool,
}

/// A reader of the Intel energy counters.
pub struct IntelRaplReader {
    pp0: bool,
    pp1: bool,
    pkg: bool,
    dram: bool,
}

impl IntelRaplReader {
    /// The domains this reader reads.
    pub closed spec fn domains(&self) -> DomainSelection {
        DomainSelection { pp0: self.pp0, pp1: self.pp1, pkg: self.pkg, dram: self.dram }
    }

    /// Builds an Intel snapshot from the reads of the counters at
    /// `energy_counter_addresses(Vendor::Intel)`, in that order; the first
    /// failed read fails the snapshot.
    pub fn read_measurement(reads: &Vec<Option<u64>>) -> (r: Result<RaplMeasurement, RaplError>)
        requires
            reads.len() == counter_addresses_spec(Vendor::Intel).len(),
        ensures
            r.is_ok() <==> forall|i: int| 0 <= i < reads.len() ==> reads@[i].is_some(),
            r matches Ok(m) ==> vendor_of(m) == Vendor::Intel && forall|i: int|
                0 <= i < reads.len() ==> counter_values(m)[i] == reads@[i].unwrap(),
    {
        assemble_measurement(Vendor::Intel, reads)
    }
}

impl IntelRaplReaderBuilder {
    /// The domains chosen so far.
    pub closed spec fn domains(&self) -> DomainSelection {
        DomainSelection { pp0: self.pp0, pp1: self.pp1, pkg: self.pkg, dram: self.dram }
    }

    /// Whether joule conversion was asked for.
    pub closed spec fn spec_joule_conversion(&self) -> bool {
        self.enable_joule_conversion
    }

    /// A builder with every domain and the joule conversion switched off.
    pub fn new() -> (r: Self)
        ensures
            r.domains() == (DomainSelection { pp0: false, pp1: false, pkg: false, dram: false }),
            !r.spec_joule_conversion(),
    {
        IntelRaplReaderBuilder {
            pp0: false,
            pp1: false,
            pkg: false,
            dram: false,
            enable_joule_conversion: false,
        }
    }

    /// Sets whether the power-plane-0 domain is read.
    pub fn with_pp0(&mut self, pp0: bool) -> (r: &mut Self)
        ensures
            r.domains() == (DomainSelection { pp0, ..old(self).domains() }),
            r.spec_joule_conversion() == old(self).spec_joule_conversion(),
            *final(self) == *final(r),
    {
        self.pp0 = pp0;
        self
    }

    /// Sets whether the power-plane-1 domain is read.
    pub fn with_pp1(&mut self, pp1: bool) -> (r: &mut Self)
        ensures
            r.domains() == (DomainSelection { pp1, ..old(self).domains() }),
            r.spec_joule_conversion() == old(self).spec_joule_conversion(),
            *final(self) == *final(r),
    {
        self.pp1 = pp1;
        self
    }

    /// Sets whether the package domain is read.
    pub fn with_pkg(&mut self, pkg: bool) -> (r: &mut Self)
        ensures
            r.domains() == (DomainSelection { pkg, ..old(self).domains() }),
            r.spec_joule_conversion() == old(self).spec_joule_conversion(),
            *final(self) == *final(r),
    {
        self.pkg = pkg;
        self
    }

    /// Sets whether the DRAM domain is read.
    pub fn with_dram(&mut self, dram: bool) -> (r: &mut Self)
        ensures
            r.domains() == (DomainSelection { dram, ..old(self).domains() }),
            r.spec_joule_conversion() == old(self).spec_joule_conversion(),
            *final(self) == *final(r),
    {
        self.dram = dram;
        self
    }

    /// Sets whether readings are converted to joules.
    pub fn enable_joule_conversion(&mut self, enable: bool) -> (r: &mut Self)
        ensures
            r.spec_joule_conversion() == enable,
            r.domains() == old(self).domains(),
            *final(self) == *final(r),
    {
        self.enable_joule_conversion = enable;
        self
    }

    /// A reader of the chosen domains.
    pub fn build(&self) -> (r: IntelRaplReader)
        ensures
            r.domains() == self.domains(),
    {
        IntelRaplReader { pp0: self.pp0, pp1: self.pp1, pkg: self.pkg, dram: self.dram }
    }
}

} // verus!
