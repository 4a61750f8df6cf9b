//! The interfaces between the daemon's components.
use vstd::prelude::*;
use crate::sampler::{RaplSampler, TimedSnapshot};

verus! {

#[verifier::external_type_specification]
#[verifier::external_body]
pub struct ExIoError(std::io::Error);

/// A source of measurements looked up by timestamp.
pub trait Measurement<T> {
    /// The measurement at `timestamp`.
    fn get_measurement(&mut self, timestamp: u128) -> T;

    /// The measurements at each of `timestamps`, in order.
    fn get_multiple_measurements(&mut self, timestamps: &Vec<u128>) -> Vec<T>;
}

/// Builds and runs a process under test from a repository reference.
pub trait Build {
    fn build(&self, repo: String) -> Result<(), std::io::Error>;
}

impl Measurement<Option<TimedSnapshot>> for RaplSampler {
    fn get_measurement(&mut self, timestamp: u128) -> Option<TimedSnapshot> {
        RaplSampler::get_measurement(self, timestamp)
    }

    fn get_multiple_measurements(&mut self, timestamps: &Vec<u128>) -> Vec<Option<TimedSnapshot>> {
        RaplSampler::get_multiple_measurements(self, timestamps)
    }
}

} // verus!
