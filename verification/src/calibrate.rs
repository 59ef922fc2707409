//! The cycles-per-second scalar of the process, measured at most once, and
//! the guard that reports all records when it is released.

use vstd::prelude::*;
use crate::profile::Profile;
use crate::registry::{visit_profiles, Registry};

verus! {

/// Nanoseconds in one second.
pub const NANOS_PER_SECOND: u64 = 1_000_000_000;

/// The microseconds that a calibration lets pass between its two readings.
pub const CALIBRATION_INTERVAL_MICROS: u32 = 10_000;

/// The value of the frequency scalar until a calibration has succeeded.
pub const DEFAULT_FREQUENCY: u64 = 1;

/// One reading of both clocks, taken together.
#[derive(Clone, Copy, Debug, PartialEq, Eq)]
pub struct Reading {
    /// The cycle counter.
    pub cycles: u64,
    /// The monotonic clock, in nanoseconds; 0 where it could not be read.
    pub nanos: u64,
}

/// The nanoseconds that one reading of the monotonic clock stands for:
/// `seconds * 1_000_000_000 + nanos` where the clock answered with the
/// status 0 and that number fits 64 bits without a sign, and 0 otherwise.
pub open spec fn nanos_of(status: i32, seconds: i64, nanos: i64) -> u64 {
    if status == 0 && 0 <= seconds * NANOS_PER_SECOND + nanos <= u64::MAX {
        (seconds * NANOS_PER_SECOND + nanos) as u64
    } else {
        0
    }
}

/// The nanosecond timestamp of one reading of the monotonic clock, given
/// the status that the clock answered with and the two parts of its time.
pub fn get_nsc_timestamp(status: i32, seconds: i64, nanos: i64) -> (r: u64)
    ensures
        r == nanos_of(status, seconds, nanos),
{
    if status != 0 {
        return 0;
    }
    let total: i128 = (seconds as i128) * 1_000_000_000 + (nanos as i128);
    if 0 <= total && total <= u64::MAX as i128 {
        total as u64
    } else {
        0
    }
}

/// The cycles per second that two readings show: the cycles that passed,
/// times the nanoseconds of a second, by the nanoseconds that passed,
/// truncated. There is none where no time passed on the monotonic clock,
/// where the cycle counter went backwards, or where the result does not fit
/// 64 bits.
pub open spec fn frequency_between(begin: Reading, end: Reading) -> Option<u64> {
    if end.nanos <= begin.nanos || end.cycles < begin.cycles {
        None
    } else {
        let f = ((end.cycles - begin.cycles) * NANOS_PER_SECOND) / (end.nanos - begin.nanos);
        if f <= u64::MAX {
            Some(f as u64)
        } else {
            None
        }
    }
}

/// Computes `frequency_between`.
pub fn measure_frequency(begin: Reading, end: Reading) -> (r: Option<u64>)
    ensures
        r == frequency_between(begin, end),
{
    if end.nanos <= begin.nanos || end.cycles < begin.cycles {
        return None;
    }
    let cycles: u128 = (end.cycles - begin.cycles) as u128;
    let nanos: u128 = (end.nanos - begin.nanos) as u128;
    assert(cycles * 1_000_000_000 <= u128::MAX) by (nonlinear_arith)
        requires
            cycles <= u64::MAX,
    ;
    let f: u128 = cycles * 1_000_000_000 / nanos;
    if f <= u64::MAX as u128 {
        Some(f as u64)
    } else {
        None
    }
}

/// The calibration of one process: a latch that lets one caller measure, and
/// the frequency that the measurement gave.
pub struct Calibration {
    armed: bool,
    frequency: u64,
}

impl Calibration {
    /// Whether nobody has taken the measurement upon them yet.
    pub closed spec fn is_armed(&self) -> bool {
        self.armed
    }

    /// The cycles per second as they are known now.
    pub closed spec fn cycles_per_second(&self) -> u64 {
        self.frequency
    }

    /// A calibration that nobody has begun, at the default frequency.
    pub fn new() -> (r: Calibration)
        ensures
            r.is_armed(),
            r.cycles_per_second() == DEFAULT_FREQUENCY,
    {
        Calibration { armed: true, frequency: DEFAULT_FREQUENCY }
    }

    /// Takes the latch. The first caller gets `true` and has to measure;
    /// every later one gets `false`. The frequency stays as it is.
    pub fn begin(&mut self) -> (won: bool)
        ensures
            won == old(self).is_armed(),
            !final(self).is_armed(),
            final(self).cycles_per_second() == old(self).cycles_per_second(),
    {
        let won = self.armed;
        self.armed = false;
        won
    }

    /// Ends the measurement with the two readings that were taken around
    /// the interval. Where they show a frequency it is stored; where they
    /// show none, the frequency stays as it was.
    pub fn complete(&mut self, begin: Reading, end: Reading) -> (stored: bool)
        ensures
            final(self).is_armed() == old(self).is_armed(),
            stored == frequency_between(begin, end).is_some(),
            final(self).cycles_per_second() == match frequency_between(begin, end) {
                Some(f) => f,
                None => old(self).cycles_per_second(),
            },
    {
        match measure_frequency(begin, end) {
            Some(f) => {
                self.frequency = f;
                true
            },
            None => false,
        }
    }

    /// The cycles per second as they are known now.
    pub fn frequency(&self) -> (r: u64)
        ensures
            r == self.cycles_per_second(),
    {
        self.frequency
    }
}

/// Holds the consumer that is to see every record when the guard is
/// released.
pub struct OnExit<F> {
    on_exit: F,
}

impl<F: Fn(Profile)> OnExit<F> {
    /// The consumer that the guard holds.
    pub closed spec fn consumer(&self) -> F {
        self.on_exit
    }

    /// Releases the guard: hands every record of `registry` to the consumer,
    /// first joined first. The guard is used up by this.
    pub fn release(self, registry: &Registry)
        requires
            forall|i: int|
                0 <= i < registry@.len() ==> call_requires(
                    self.consumer(),
                    (#[trigger] registry@[i],),
                ),
        ensures
            forall|i: int|
                0 <= i < registry@.len() ==> call_ensures(
                    self.consumer(),
                    (#[trigger] registry@[i],),
                    (),
                ),
    {
        visit_profiles(registry, self.on_exit)
    }
}

/// Begins the reporting of a process: takes the calibration's latch and
/// makes the guard that holds `on_exit`. The second part of the result says
/// whether this caller took the latch and so has to measure the frequency.
pub fn init<F: Fn(Profile)>(calibration: &mut Calibration, on_exit: F) -> (r: (OnExit<F>, bool))
    ensures
        r.0.consumer() == on_exit,
        r.1 == old(calibration).is_armed(),
        !final(calibration).is_armed(),
        final(calibration).cycles_per_second() == old(calibration).cycles_per_second(),
{
    let won = calibration.begin();
    (OnExit { on_exit }, won)
}

} // verus!
