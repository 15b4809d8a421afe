//! The data carried by one heartbeat: the caller's sample and the stored
//! record with its derived rates.

use vstd::prelude::*;

verus! {

/// Which optional quantities a monitor tracks besides throughput.
#[derive(Clone, Copy, PartialEq, Eq, Structural, Debug)]
pub struct Capabilities {
    /// Track energy counters and derive power rates.
    pub power: bool,
    /// Track accuracy units and derive accuracy rates.
    pub accuracy: bool,
}

impl Capabilities {
    /// Throughput only.
    pub fn base() -> (c: Capabilities)
        ensures
            c == (Capabilities { power: false, accuracy: false }),
    {
        Capabilities { power: false, accuracy: false }
    }

    /// Throughput and power.
    pub fn with_power() -> (c: Capabilities)
        ensures
            c == (Capabilities { power: true, accuracy: false }),
    {
        Capabilities { power: true, accuracy: false }
    }

    /// Throughput and accuracy.
    pub fn with_accuracy() -> (c: Capabilities)
        ensures
            c == (Capabilities { power: false, accuracy: true }),
    {
        Capabilities { power: false, accuracy: true }
    }

    /// Throughput, power and accuracy.
    pub fn with_power_and_accuracy() -> (c: Capabilities)
        ensures
            c == (Capabilities { power: true, accuracy: true }),
    {
        Capabilities { power: true, accuracy: true }
    }
}

/// One reported sample, exactly as the caller gave it.
///
/// Timestamps and energy counters are expected to be monotonic, but the
/// monitor does not validate them: a sample that violates the contract is
/// recorded as given and yields meaningless (wrapped) deltas.
#[derive(Clone, Copy, PartialEq, Eq, Structural, Debug)]
pub struct Sample {
    /// Caller-supplied opaque tag.
    pub user_tag: u64,
    /// Amount of work done in this sample.
    pub work: u64,
    /// Timestamp at the start of the sample interval.
    pub start_time: u64,
    /// Timestamp at the end of the sample interval.
    pub end_time: u64,
    /// Energy counter at the start of the interval (zero if untracked).
    pub start_energy: u64,
    /// Energy counter at the end of the interval (zero if untracked).
    pub end_energy: u64,
    /// Accuracy units achieved in this sample (zero if untracked).
    pub accuracy: u64,
}

/// The wall-clock time a sample spans, as a wrapping difference.
pub open spec fn elapsed_of(s: Sample) -> u64 {
    crate::arith::wsub(s.end_time, s.start_time)
}

/// The energy a sample consumed, as a wrapping difference.
pub open spec fn energy_of(s: Sample) -> u64 {
    crate::arith::wsub(s.end_energy, s.start_energy)
}

/// An exact rate: an amount of work, energy or accuracy over an elapsed
/// time. The quotient is never formed; a zero `time` is representable and
/// simply means the caller reported an empty interval.
#[derive(Clone, Copy, PartialEq, Eq, Structural, Debug)]
pub struct Rate {
    /// The numerator: how much was done.
    pub amount: u64,
    /// The denominator: over how much time.
    pub time: u64,
}

impl Rate {
    /// The zero rate, reported before any sample has been seen.
    pub fn zero() -> (r: Rate)
        ensures
            r == (Rate { amount: 0u64, time: 0u64 }),
    {
        Rate { amount: 0, time: 0 }
    }
}

/// The three time bases a quantity is rated over.
#[derive(Clone, Copy, PartialEq, Eq, Structural, Debug)]
pub struct Rates {
    /// Over every sample since the monitor was created.
    pub global: Rate,
    /// Over the samples of the window the sample belongs to.
    pub window: Rate,
    /// Over this one sample alone.
    pub instant: Rate,
}

impl Rates {
    /// All three rates zero.
    pub fn zero() -> (r: Rates)
        ensures
            r == (Rates {
                global: Rate { amount: 0u64, time: 0u64 },
                window: Rate { amount: 0u64, time: 0u64 },
                instant: Rate { amount: 0u64, time: 0u64 },
            }),
    {
        Rates { global: Rate::zero(), window: Rate::zero(), instant: Rate::zero() }
    }
}

/// The stored form of one sample: its inputs plus the rates derived when
/// it was recorded. Overwritten in place when its buffer slot is reused.
#[derive(Clone, Copy, PartialEq, Eq, Structural, Debug)]
pub struct HeartbeatRecord {
    /// Monotonic sample number, equal to the monitor's sample count when
    /// the record was written.
    pub id: u64,
    /// The caller's tag for this sample.
    pub user_tag: u64,
    /// Work reported by the sample.
    pub work: u64,
    /// Start timestamp of the sample.
    pub start_time: u64,
    /// End timestamp of the sample.
    pub end_time: u64,
    /// Throughput rates at the time the record was written.
    pub perf: Rates,
    /// Accuracy units reported by the sample.
    pub accuracy: u64,
    /// Accuracy rates at the time the record was written.
    pub acc: Rates,
    /// Energy counter at the start of the sample.
    pub start_energy: u64,
    /// Energy counter at the end of the sample.
    pub end_energy: u64,
    /// Power rates at the time the record was written.
    pub pwr: Rates,
}

impl HeartbeatRecord {
    /// The all-zero record that pre-fills buffer slots no sample has
    /// reached yet.
    pub fn zero() -> (r: HeartbeatRecord)
        ensures
            r == HeartbeatRecord::spec_zero(),
    {
        HeartbeatRecord {
            id: 0,
            user_tag: 0,
            work: 0,
            start_time: 0,
            end_time: 0,
            perf: Rates::zero(),
            accuracy: 0,
            acc: Rates::zero(),
            start_energy: 0,
            end_energy: 0,
            pwr: Rates::zero(),
        }
    }

    /// The value `zero` returns.
    pub open spec fn spec_zero() -> HeartbeatRecord {
        HeartbeatRecord {
            id: 0u64,
            user_tag: 0u64,
            work: 0u64,
            start_time: 0u64,
            end_time: 0u64,
            perf: Rates {
                global: Rate { amount: 0u64, time: 0u64 },
                window: Rate { amount: 0u64, time: 0u64 },
                instant: Rate { amount: 0u64, time: 0u64 },
            },
            accuracy: 0u64,
            acc: Rates {
                global: Rate { amount: 0u64, time: 0u64 },
                window: Rate { amount: 0u64, time: 0u64 },
                instant: Rate { amount: 0u64, time: 0u64 },
            },
            start_energy: 0u64,
            end_energy: 0u64,
            pwr: Rates {
                global: Rate { amount: 0u64, time: 0u64 },
                window: Rate { amount: 0u64, time: 0u64 },
                instant: Rate { amount: 0u64, time: 0u64 },
            },
        }
    }
}

} // verus!
