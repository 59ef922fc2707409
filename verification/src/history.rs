//! What a record holds after a whole sequence of samples.

use vstd::prelude::*;
use crate::profile::{mean_step, ratio_le, lemma_mean_step_fits, Profile};

verus! {

/// The record `p` after the samples of `s`, folded in order.
pub open spec fn fold_all(p: Profile, s: Seq<(u64, u64)>) -> Profile
    decreases s.len(),
{
    if s.len() == 0 {
        p
    } else {
        fold_all(p, s.drop_last()).folded(s.last().0, s.last().1)
    }
}

/// The samples of `s` that have a duration, in order.
pub open spec fn kept(s: Seq<(u64, u64)>) -> Seq<(u64, u64)>
    decreases s.len(),
{
    if s.len() == 0 {
        s
    } else if s.last().0 > 0 {
        kept(s.drop_last()).push(s.last())
    } else {
        kept(s.drop_last())
    }
}

/// How many samples of `s` have no duration.
pub open spec fn discarded(s: Seq<(u64, u64)>) -> nat
    decreases s.len(),
{
    if s.len() == 0 {
        0
    } else if s.last().0 > 0 {
        discarded(s.drop_last())
    } else {
        discarded(s.drop_last()) + 1
    }
}

/// The truncated means of cycles and of bytes over `k`, each advanced one
/// value at a time: `(mean * n + x) / (n + 1)`.
pub open spec fn running_mean(k: Seq<(u64, u64)>) -> (int, int)
    decreases k.len(),
{
    if k.len() == 0 {
        (0, 0)
    } else {
        let before = running_mean(k.drop_last());
        let n = k.len() - 1;
        (mean_step(before.0, n, k.last().0 as int), mean_step(before.1, n, k.last().1 as int))
    }
}

/// Every sample is either kept or discarded.
pub proof fn lemma_kept_or_discarded(s: Seq<(u64, u64)>)
    ensures
        kept(s).len() + discarded(s) == s.len(),
    decreases s.len(),
{
    if s.len() > 0 {
        lemma_kept_or_discarded(s.drop_last());
    }
}

/// One fold never lowers the count and never changes the name.
pub proof fn law_samples_monotonic(p: Profile, cycles: u64, bytes: u64)
    ensures
        p.folded(cycles, bytes).samples >= p.samples,
        p.folded(cycles, bytes).name == p.name,
{
}

/// After any sequence of samples folded into a record, the count has grown
/// by the number of samples minus those without a duration, as long as a
/// 64-bit counter holds the sum. The name is the one it was.
pub proof fn law_sample_count(p: Profile, s: Seq<(u64, u64)>)
    requires
        p.samples + s.len() <= u64::MAX,
    ensures
        fold_all(p, s).samples == p.samples + s.len() - discarded(s),
        fold_all(p, s).samples == p.samples + kept(s).len(),
        fold_all(p, s).name == p.name,
    decreases s.len(),
{
    lemma_kept_or_discarded(s);
    if s.len() > 0 {
        law_sample_count(p, s.drop_last());
        lemma_kept_or_discarded(s.drop_last());
    }
}

/// After any sequence of samples folded into an empty record, both means are
/// the truncated running means of the kept samples, taken in order.
pub proof fn law_running_mean(name: &'static str, s: Seq<(u64, u64)>)
    requires
        s.len() <= u64::MAX,
    ensures
        fold_all(Profile::fresh(name), s).cycles_avg == running_mean(kept(s)).0,
        fold_all(Profile::fresh(name), s).bytes_avg == running_mean(kept(s)).1,
    decreases s.len(),
{
    if s.len() > 0 {
        let before = fold_all(Profile::fresh(name), s.drop_last());
        let x = s.last();
        law_running_mean(name, s.drop_last());
        law_sample_count(Profile::fresh(name), s.drop_last());
        lemma_kept_or_discarded(s.drop_last());
        if x.0 > 0 {
            let k = kept(s);
            assert(k.drop_last() == kept(s.drop_last()));
            assert(k.last() == x);
            lemma_mean_step_fits(before.cycles_avg, before.samples, x.0);
            lemma_mean_step_fits(before.bytes_avg, before.samples, x.1);
        }
    }
}

/// If `a/b <= c/d` and `c/d <= e/f`, where `c > 0`, then `a/b <= e/f`, all
/// three read as cross-multiplications.
pub proof fn lemma_ratio_le_transitive(a: u64, b: u64, c: u64, d: u64, e: u64, f: u64)
    requires
        c > 0,
        ratio_le(a, b, c, d),
        ratio_le(c, d, e, f),
    ensures
        ratio_le(a, b, e, f),
{
    let (a, b, c, d, e, f) = (a as int, b as int, c as int, d as int, e as int, f as int);
    if d == 0 {
        // a * 0 <= c * b holds anyway; c * f <= e * 0 gives f == 0
        assert(f == 0) by (nonlinear_arith)
            requires
                c > 0,
                f >= 0,
                c * f <= e * d,
                d == 0,
        ;
        assert(a * f <= e * b) by (nonlinear_arith)
            requires
                f == 0,
                e >= 0,
                b >= 0,
        ;
    } else {
        assert((a * f) * (c * d) <= (e * b) * (c * d)) by (nonlinear_arith)
            requires
                a * d <= c * b,
                c * f <= e * d,
                a >= 0, b >= 0, c > 0, d > 0, e >= 0, f >= 0,
        ;
        assert(a * f <= e * b) by (nonlinear_arith)
            requires
                (a * f) * (c * d) <= (e * b) * (c * d),
                c > 0,
                d > 0,
        ;
    }
}

/// After any sequence of samples folded into an empty record, the stored
/// fastest pair has a ratio at most that of every kept sample, and the stored
/// slowest pair a ratio at least that of every kept sample.
pub proof fn law_extremes_bound(name: &'static str, s: Seq<(u64, u64)>, i: int)
    requires
        s.len() <= u64::MAX,
        0 <= i < s.len(),
        s[i].0 > 0,
    ensures
        ({
            let p = fold_all(Profile::fresh(name), s);
            &&& ratio_le(p.cycles_min, p.bytes_min, s[i].0, s[i].1)
            &&& ratio_le(s[i].0, s[i].1, p.cycles_max, p.bytes_max)
            &&& p.cycles_min > 0
            &&& p.cycles_max > 0
        }),
    decreases s.len(),
{
    let before = fold_all(Profile::fresh(name), s.drop_last());
    let p = fold_all(Profile::fresh(name), s);
    let x = s.last();
    law_sample_count(Profile::fresh(name), s.drop_last());
    lemma_kept_or_discarded(s.drop_last());
    if i < s.len() - 1 {
        law_extremes_bound(name, s.drop_last(), i);
        let y = s[i];
        assert(s.drop_last()[i] == y);
        if x.0 > 0 {
            if ratio_le(x.0, x.1, before.cycles_min, before.bytes_min) {
                lemma_ratio_le_transitive(x.0, x.1, before.cycles_min, before.bytes_min, y.0, y.1);
            }
            if ratio_le(before.cycles_max, before.bytes_max, x.0, x.1) {
                lemma_ratio_le_transitive(y.0, y.1, before.cycles_max, before.bytes_max, x.0, x.1);
            }
        }
    } else {
        // the last sample: either it replaced an extreme, or it lost the comparison
        assert(x == s[i]);
        law_record_shape(name, s.drop_last());
        lemma_zero_pair(x.0, x.1);
        assert(ratio_le(x.0, x.1, x.0, x.1)) by (nonlinear_arith);
        if !ratio_le(x.0, x.1, before.cycles_min, before.bytes_min) {
            assert(ratio_le(before.cycles_min, before.bytes_min, x.0, x.1)) by (nonlinear_arith)
                requires
                    !ratio_le(x.0, x.1, before.cycles_min, before.bytes_min),
            ;
        }
        if !ratio_le(before.cycles_max, before.bytes_max, x.0, x.1) {
            assert(ratio_le(x.0, x.1, before.cycles_max, before.bytes_max)) by (nonlinear_arith)
                requires
                    !ratio_le(before.cycles_max, before.bytes_max, x.0, x.1),
            ;
        }
    }
}

/// A record without samples holds zeros only; in one with samples, both
/// stored extremes have a duration.
pub proof fn law_record_shape(name: &'static str, s: Seq<(u64, u64)>)
    requires
        s.len() <= u64::MAX,
    ensures
        ({
            let p = fold_all(Profile::fresh(name), s);
            if p.samples == 0 {
                p == Profile::fresh(name)
            } else {
                p.cycles_min > 0 && p.cycles_max > 0
            }
        }),
    decreases s.len(),
{
    if s.len() > 0 {
        law_record_shape(name, s.drop_last());
        law_sample_count(Profile::fresh(name), s.drop_last());
        lemma_kept_or_discarded(s.drop_last());
        lemma_zero_pair(s.last().0, s.last().1);
    }
}

/// The pair `(0, 0)` compares below and above every pair.
pub proof fn lemma_zero_pair(c: u64, b: u64)
    ensures
        ratio_le(c, b, 0, 0),
        ratio_le(0, 0, c, b),
{
    assert(c as int * 0 <= 0 * b as int && 0 * b as int <= c as int * 0) by (nonlinear_arith);
}

/// Whether `(c, b)` is one of the samples of `s` that have a duration.
pub open spec fn is_kept_sample(s: Seq<(u64, u64)>, c: u64, b: u64) -> bool {
    exists|j: int| 0 <= j < s.len() && (#[trigger] s[j]).0 > 0 && s[j] == (c, b)
}

/// Once a sample was kept, the stored fastest pair and the stored slowest
/// pair are each one of the kept samples.
pub proof fn law_extremes_are_samples(name: &'static str, s: Seq<(u64, u64)>)
    requires
        s.len() <= u64::MAX,
        fold_all(Profile::fresh(name), s).samples > 0,
    ensures
        ({
            let p = fold_all(Profile::fresh(name), s);
            &&& is_kept_sample(s, p.cycles_min, p.bytes_min)
            &&& is_kept_sample(s, p.cycles_max, p.bytes_max)
        }),
    decreases s.len(),
{
    let t = s.drop_last();
    let before = fold_all(Profile::fresh(name), t);
    let p = fold_all(Profile::fresh(name), s);
    let x = s.last();
    let last = s.len() - 1;
    law_sample_count(Profile::fresh(name), t);
    lemma_kept_or_discarded(t);
    law_record_shape(name, t);
    lemma_zero_pair(x.0, x.1);
    assert(s[last] == x);
    if before.samples > 0 {
        law_extremes_are_samples(name, t);
        let j_min = choose|j: int| 0 <= j < t.len() && (#[trigger] t[j]).0 > 0
            && t[j] == (before.cycles_min, before.bytes_min);
        let j_max = choose|j: int| 0 <= j < t.len() && (#[trigger] t[j]).0 > 0
            && t[j] == (before.cycles_max, before.bytes_max);
        assert(s[j_min] == t[j_min]);
        assert(s[j_max] == t[j_max]);
    }
}

} // verus!
