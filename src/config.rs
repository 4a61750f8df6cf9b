//! The daemon's settings, as read from its configuration file.
use vstd::prelude::*;

verus! {

/// All settings.
#[derive(Clone, Debug)]
pub struct Config {
    pub thor: ThorConfig,
    pub amd: AmdConfig,
    pub intel: IntelConfig,
}

/// The AMD energy domains to read.
#[derive(Clone, Copy, Debug, PartialEq, Eq)]
pub struct AmdConfig {
    pub core: bool,
    pub pkg: bool,
}

/// The Intel energy domains to read.
#[derive(Clone, Copy, Debug, PartialEq, Eq)]
pub struct IntelConfig {
    pub pp0: bool,
    pub pp1: bool,
    pub pkg: bool,
    pub dram: bool,
}

/// Timing of the sampler and the distributor, and the listening address.
#[derive(Clone, Debug)]
pub struct ThorConfig {
    pub client_packet_queue_cycle_millis: u64,
    pub sampling_interval_micros: u64,
    pub max_sample_age_millis: u64,
    pub server_ip: String,
}

} // verus!
