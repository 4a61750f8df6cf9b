//! Pairing of start and stop probes. A start opens a measurement for its
//! (id, thread) key; the matching stop closes it and yields the energy used
//! in between. A second start for a key that is still open is refused and
//! the first one is kept.
use vstd::prelude::*;
use crate::joules::{RaplMeasurementJoules, convert_rapl_msr_register_to_joules, measurement_delta};
use crate::registers::{EnergyUnitScale, RaplMeasurement, vendor_of};

verus! {

/// A started measurement that waits for its stop.
#[derive(Clone, Debug)]
pub struct OpenMeasurement {
    pub id: String,
    pub thread_id: usize,
    pub measurement: RaplMeasurement,
    pub timestamp: u128,
}

/// A measurement whose stop arrived.
#[derive(Clone, Debug)]
pub struct CompletedMeasurement {
    pub id: String,
    pub thread_id: usize,
    pub start_timestamp: u128,
    pub energy: RaplMeasurementJoules,
}

/// Why a probe could not be paired.
#[derive(Clone, Copy, Debug, PartialEq, Eq, Structural)]
pub enum PairingError {
    /// A start arrived while the same (id, thread) was still open.
    DuplicateStart,
    /// A stop arrived with no open start for its (id, thread).
    UnmatchedStop,
    /// The stop's snapshot has another vendor's layout than the start's.
    VendorMismatch,
}

/// Whether an open measurement has the key `(id, thread_id)`.
pub open spec fn has_key(m: OpenMeasurement, id: Seq<char>, thread_id: usize) -> bool {
    m.id@ == id && m.thread_id == thread_id
}

/// Whether some open measurement has the key `(id, thread_id)`.
pub open spec fn is_open(open: Seq<OpenMeasurement>, id: Seq<char>, thread_id: usize) -> bool {
    exists|i: int| 0 <= i < open.len() && has_key(#[trigger] open[i], id, thread_id)
}

/// The open measurements, at most one per (id, thread) key.
pub struct StartStopTracker {
    open: Vec<OpenMeasurement>,
}

impl View for StartStopTracker {
    type V = Seq<OpenMeasurement>;

    closed spec fn view(&self) -> Seq<OpenMeasurement> {
        self.open@
    }
}

impl StartStopTracker {
    /// No two open measurements share a key.
    pub closed spec fn wf(&self) -> bool {
        forall|i: int, j: int|
            0 <= i < j < self.open@.len() ==> !has_key(
                #[trigger] self.open@[i],
                (#[trigger] self.open@[j]).id@,
                self.open@[j].thread_id,
            )
    }

    /// A tracker with nothing open.
    pub fn new() -> (r: StartStopTracker)
        ensures
            r.wf(),
            r@.len() == 0,
    {
        StartStopTracker { open: Vec::new() }
    }

    /// The position of the open measurement with the given key.
    fn find(&self, id: &String, thread_id: usize) -> (r: Option<usize>)
        ensures
            match r {
                Some(i) => i < self@.len() && has_key(self@[i as int], id@, thread_id),
                None => !is_open(self@, id@, thread_id),
            },
    {
        let mut i: usize = 0;
        while i < self.open.len()
            invariant
                i <= self.open.len(),
                forall|j: int| 0 <= j < i ==> !has_key(#[trigger] self.open@[j], id@, thread_id),
            decreases self.open.len() - i,
        {
            if self.open[i].thread_id == thread_id && self.open[i].id == *id {
                return Some(i);
            }
            i = i + 1;
        }
        None
    }

    /// Opens a measurement for `(id, thread_id)`. Refused, with nothing
    /// changed, when that key is already open.
    pub fn start(
        &mut self,
        id: String,
        thread_id: usize,
        measurement: RaplMeasurement,
        timestamp: u128,
    ) -> (r: Result<(), PairingError>)
        requires
            old(self).wf(),
        ensures
            final(self).wf(),
            is_open(old(self)@, id@, thread_id) ==> r == Err::<(), PairingError>(
                PairingError::DuplicateStart,
            ) && final(self)@ == old(self)@,
            !is_open(old(self)@, id@, thread_id) ==> r is Ok && final(self)@ == old(self)@.push(
                OpenMeasurement { id, thread_id, measurement, timestamp },
            ),
    {
        match self.find(&id, thread_id) {
            Some(_) => Err(PairingError::DuplicateStart),
            None => {
                let ghost before = self.open@;
                self.open.push(OpenMeasurement { id, thread_id, measurement, timestamp });
                assert forall|i: int, j: int| 0 <= i < j < self.open@.len() implies !has_key(
                    #[trigger] self.open@[i],
                    (#[trigger] self.open@[j]).id@,
                    self.open@[j].thread_id,
                ) by {
                    if j == before.len() {
                        assert(self.open@[i] == before[i]);
                    } else {
                        assert(self.open@[i] == before[i] && self.open@[j] == before[j]);
                    }
                }
                Ok(())
            },
        }
    }

    /// Closes the measurement open for `(id, thread_id)` and returns the
    /// energy used since its start. Refused, with nothing changed, when the
    /// key is not open or the snapshots have different layouts.
    pub fn stop(
        &mut self,
        id: &String,
        thread_id: usize,
        measurement: RaplMeasurement,
        scale: EnergyUnitScale,
    ) -> (r: Result<CompletedMeasurement, PairingError>)
        requires
            old(self).wf(),
        ensures
            final(self).wf(),
            !is_open(old(self)@, id@, thread_id) ==> r == Err::<
                CompletedMeasurement,
                PairingError,
            >(PairingError::UnmatchedStop) && final(self)@ == old(self)@,
            is_open(old(self)@, id@, thread_id) ==> exists|i: int|
                {
                    &&& 0 <= i < old(self)@.len()
                    &&& has_key(#[trigger] old(self)@[i], id@, thread_id)
                    &&& if vendor_of(old(self)@[i].measurement) == vendor_of(measurement) {
                        &&& final(self)@ == old(self)@.remove(i)
                        &&& r matches Ok(c) && c.id@ == id@ && c.thread_id == thread_id
                            && c.start_timestamp == old(self)@[i].timestamp && c.energy == (
                        RaplMeasurementJoules {
                            ticks: measurement_delta(old(self)@[i].measurement, measurement),
                            scale,
                        })
                    } else {
                        &&& final(self)@ == old(self)@
                        &&& r == Err::<CompletedMeasurement, PairingError>(
                            PairingError::VendorMismatch,
                        )
                    }
                },
    {
        match self.find(id, thread_id) {
            None => Err(PairingError::UnmatchedStop),
            Some(i) => {
                let same_vendor = match (&self.open[i].measurement, &measurement) {
                    (RaplMeasurement::Intel(_), RaplMeasurement::Intel(_)) => true,
                    (RaplMeasurement::AMD(_), RaplMeasurement::AMD(_)) => true,
                    _ => false,
                };
                if !same_vendor {
                    return Err(PairingError::VendorMismatch);
                }
                let ghost before = self.open@;
                let entry = self.open.remove(i);
                assert forall|a: int, b: int| 0 <= a < b < self.open@.len() implies !has_key(
                    #[trigger] self.open@[a],
                    (#[trigger] self.open@[b]).id@,
                    self.open@[b].thread_id,
                ) by {
                    let a0 = if a < i { a } else { a + 1 };
                    let b0 = if b < i { b } else { b + 1 };
                    assert(self.open@[a] == before[a0] && self.open@[b] == before[b0]);
                }
                let energy = convert_rapl_msr_register_to_joules(
                    entry.measurement,
                    measurement,
                    scale,
                );
                Ok(
                    CompletedMeasurement {
                        id: entry.id,
                        thread_id,
                        start_timestamp: entry.timestamp,
                        energy,
                    },
                )
            },
        }
    }
}

} // verus!
