//! The statistics record of one probe and the rule that folds a sample into it.

use vstd::prelude::*;

verus! {

/// Whether the ratio `c1 / b1` is at most `c2 / b2`, decided by
/// cross-multiplication. A pair with `b == 0` and `c > 0` stands for an
/// infinite ratio; the pair `(0, 0)` compares below and above everything.
pub open spec fn ratio_le(c1: u64, b1: u64, c2: u64, b2: u64) -> bool {
    c1 as int * b2 as int <= c2 as int * b1 as int
}

/// The mean of `n + 1` values, given the mean `avg` of the first `n` and the
/// last value `x`, truncated towards zero.
pub open spec fn mean_step(avg: int, n: int, x: int) -> int {
    (avg * n + x) / (n + 1)
}

/// Running statistics of one probe.
#[derive(Clone, Copy, Debug, PartialEq, Eq)]
pub struct Profile {
    pub name: &'static str,
    pub cycles_min: u64,
    pub cycles_max: u64,
    pub cycles_avg: u64,
    pub bytes_min: u64,
    pub bytes_max: u64,
    pub bytes_avg: u64,
    pub samples: u64,
}

proof fn lemma_product_fits(a: u64, b: u64)
    ensures
        a as int * b as int <= 0xFFFF_FFFF_FFFF_FFFF * 0xFFFF_FFFF_FFFF_FFFF,
        a as int * b as int + 0xFFFF_FFFF_FFFF_FFFF <= u128::MAX,
        0 <= a as int * b as int,
{
    assert(a as int * b as int <= 0xFFFF_FFFF_FFFF_FFFF * 0xFFFF_FFFF_FFFF_FFFF
        && 0 <= a as int * b as int) by (nonlinear_arith)
        requires
            0 <= a as int <= 0xFFFF_FFFF_FFFF_FFFF,
            0 <= b as int <= 0xFFFF_FFFF_FFFF_FFFF,
    ;
}

/// A mean step over 64-bit values is again a 64-bit value.
pub proof fn lemma_mean_step_fits(avg: u64, n: u64, x: u64)
    ensures
        0 <= mean_step(avg as int, n as int, x as int) <= u64::MAX,
{
    let m = u64::MAX as int;
    let a = avg as int;
    let k = n as int;
    let v = x as int;
    assert(0 <= a * k + v <= m * (k + 1)) by (nonlinear_arith)
        requires
            0 <= a <= m,
            0 <= k,
            0 <= v <= m,
    ;
    assert(0 <= (a * k + v) / (k + 1) <= m) by (nonlinear_arith)
        requires
            0 <= a * k + v <= m * (k + 1),
            0 <= k,
    ;
}

/// Decides `ratio_le` without division and without overflow.
pub fn ratio_at_most(c1: u64, b1: u64, c2: u64, b2: u64) -> (r: bool)
    ensures
        r == ratio_le(c1, b1, c2, b2),
{
    proof {
        lemma_product_fits(c1, b2);
        lemma_product_fits(c2, b1);
    }
    (c1 as u128) * (b2 as u128) <= (c2 as u128) * (b1 as u128)
}

/// The mean after one more value, computed exactly in 128 bits.
pub fn next_mean(avg: u64, n: u64, x: u64) -> (r: u64)
    requires
        n < u64::MAX,
    ensures
        r == mean_step(avg as int, n as int, x as int),
{
    proof {
        lemma_product_fits(avg, n);
        lemma_mean_step_fits(avg, n, x);
    }
    let total: u128 = (avg as u128) * (n as u128) + (x as u128);
    let count: u128 = (n as u128) + 1;
    (total / count) as u64
}

impl Profile {
    /// The record of a probe that has not been sampled yet.
    pub open spec fn fresh(name: &'static str) -> Profile {
        Profile {
            name,
            cycles_min: 0,
            cycles_max: 0,
            cycles_avg: 0,
            bytes_min: 0,
            bytes_max: 0,
            bytes_avg: 0,
            samples: 0,
        }
    }

    /// Whether a sample of `cycles` cycles is folded in: one without a
    /// duration is discarded, and so is any sample once the counter is full.
    pub open spec fn accepts(self, cycles: u64) -> bool {
        cycles > 0 && self.samples < u64::MAX
    }

    /// The record after the sample `(cycles, bytes)`.
    pub open spec fn folded(self, cycles: u64, bytes: u64) -> Profile {
        if !self.accepts(cycles) {
            self
        } else {
            let faster = ratio_le(cycles, bytes, self.cycles_min, self.bytes_min);
            let slower = ratio_le(self.cycles_max, self.bytes_max, cycles, bytes);
            Profile {
                name: self.name,
                cycles_min: if faster { cycles } else { self.cycles_min },
                bytes_min: if faster { bytes } else { self.bytes_min },
                cycles_max: if slower { cycles } else { self.cycles_max },
                bytes_max: if slower { bytes } else { self.bytes_max },
                cycles_avg: mean_step(self.cycles_avg as int, self.samples as int, cycles as int) as u64,
                bytes_avg: mean_step(self.bytes_avg as int, self.samples as int, bytes as int) as u64,
                samples: (self.samples + 1) as u64,
            }
        }
    }

    /// An empty record under `name`.
    pub fn new(name: &'static str) -> (r: Profile)
        ensures
            r == Profile::fresh(name),
    {
        Profile {
            name,
            cycles_min: 0,
            cycles_max: 0,
            cycles_avg: 0,
            bytes_min: 0,
            bytes_max: 0,
            bytes_avg: 0,
            samples: 0,
        }
    }

    /// Folds one sample into the record. The sample becomes the fastest pair
    /// if its cycles-per-byte ratio is at most that of the stored one, the
    /// slowest if it is at least that of the stored one (so ties and the first
    /// sample always win), and both means advance by one truncated step.
    pub fn fold(&mut self, cycles: u64, bytes: u64)
        ensures
            *final(self) == old(self).folded(cycles, bytes),
    {
        if cycles == 0 || self.samples == u64::MAX {
            return;
        }
        if ratio_at_most(cycles, bytes, self.cycles_min, self.bytes_min) {
            self.cycles_min = cycles;
            self.bytes_min = bytes;
        }
        if ratio_at_most(self.cycles_max, self.bytes_max, cycles, bytes) {
            self.cycles_max = cycles;
            self.bytes_max = bytes;
        }
        self.cycles_avg = next_mean(self.cycles_avg, self.samples, cycles);
        self.bytes_avg = next_mean(self.bytes_avg, self.samples, bytes);
        self.samples = self.samples + 1;
    }
}

} // verus!
