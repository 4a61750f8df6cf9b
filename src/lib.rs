//! Energy telemetry: decoding of RAPL energy registers, wraparound-safe
//! counter deltas, a time-indexed correlation store for sampled counters,
//! and the framing and distribution logic of the event-correlation protocol.

pub mod registers;
pub mod joules;
pub mod queue;
pub mod sampler;
pub mod protocol;
pub mod distributor;
pub mod observers;
pub mod intel;
pub mod config;
pub mod component_def;
pub mod pairing;
