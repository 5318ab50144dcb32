//! Accumulated durations at millisecond granularity, with saturation.

use vstd::prelude::*;
use vstd::arithmetic::mul::lemma_mul_inequality;
use vstd::arithmetic::mul::lemma_mul_upper_bound;
use crate::scale::TimeScale;
use crate::scale::scale_factor_ms;
use crate::tuple::TimeTuple;

verus! {

/// The milliseconds one component stands for: its magnitude times the
/// fixed per-scale factor.
pub open spec fn tuple_ms(t: TimeTuple) -> nat {
    t.0 as nat * scale_factor_ms(t.1)
}

/// The exact total of a component list, in milliseconds, as an unbounded
/// integer.  Addition is commutative, so the fold order does not matter;
/// this folds in arrival order.
pub open spec fn total_ms(ts: Seq<TimeTuple>) -> nat
    decreases ts.len(),
{
    if ts.len() == 0 {
        0
    } else {
        total_ms(ts.drop_last()) + tuple_ms(ts.last())
    }
}

/// The total of a component list clamped to what a `u64` millisecond count
/// can hold: the value the saturating accumulator produces.
pub open spec fn clamped_total_ms(ts: Seq<TimeTuple>) -> nat {
    if total_ms(ts) <= u64::MAX {
        total_ms(ts)
    } else {
        u64::MAX as nat
    }
}

/// A single accumulated duration, held as a millisecond count.
///
/// Produced by the duration accumulator; construction and addition saturate
/// at the largest representable value instead of overflowing.
#[derive(Debug, Clone, Copy, PartialEq, Eq, Structural)]
pub struct DurationValue {
    millis: u64,
}

impl View for DurationValue {
    type V = nat;

    closed spec fn view(&self) -> nat {
        self.millis as nat
    }
}

impl DurationValue {
    /// The zero duration.
    pub fn zero() -> (r: Self)
        ensures
            r@ == 0,
    {
        DurationValue { millis: 0 }
    }

    /// A duration of exactly `ms` milliseconds.
    pub fn from_millis(ms: u64) -> (r: Self)
        ensures
            r@ == ms,
    {
        DurationValue { millis: ms }
    }

    /// A duration of `secs` seconds, saturating at the largest
    /// representable millisecond count.
    pub fn from_secs(secs: u64) -> (r: Self)
        ensures
            r@ == if secs as nat * 1000 <= u64::MAX {
                secs as nat * 1000
            } else {
                u64::MAX as nat
            },
    {
        if secs <= u64::MAX / 1000 {
            DurationValue { millis: secs * 1000 }
        } else {
            DurationValue { millis: u64::MAX }
        }
    }

    /// The millisecond count of the duration.
    pub fn as_millis(&self) -> (r: u64)
        ensures
            r == self@,
    {
        self.millis
    }

    /// The sum of two durations, saturating at the largest representable
    /// millisecond count.
    pub fn saturating_add(self, other: DurationValue) -> (r: Self)
        ensures
            r@ == if self@ + other@ <= u64::MAX {
                self@ + other@
            } else {
                u64::MAX as nat
            },
    {
        if self.millis <= u64::MAX - other.millis {
            DurationValue { millis: self.millis + other.millis }
        } else {
            DurationValue { millis: u64::MAX }
        }
    }
}

impl TimeTuple {
    /// The duration this one component stands for.  The largest component,
    /// 65535 years, is still far below the saturation bound, so the value
    /// is always exact.
    pub fn as_duration(&self) -> (r: DurationValue)
        ensures
            r@ == tuple_ms(*self),
    {
        let f: u64 = match self.1 {
            TimeScale::Milliseconds => 1,
            TimeScale::Seconds => 1000,
            TimeScale::Minutes => 60_000,
            TimeScale::Hours => 3_600_000,
            TimeScale::Days => 86_400_000,
            TimeScale::Weeks => 604_800_000,
            TimeScale::Months => 2_592_000_000,
            TimeScale::Years => 31_536_000_000,
        };
        proof {
            assert(f == scale_factor_ms(self.1));
            lemma_mul_upper_bound(self.0 as int, 65535, f as int, 31_536_000_000);
        }
        DurationValue { millis: (self.0 as u64) * f }
    }
}

/// One component never exceeds 65535 years' worth of milliseconds.
pub proof fn lemma_tuple_ms_bound(t: TimeTuple)
    ensures
        tuple_ms(t) <= 65535 * 31_536_000_000,
{
    lemma_mul_upper_bound(t.0 as int, 65535, scale_factor_ms(t.1) as int, 31_536_000_000);
}

/// The total of a list is at most one largest component per entry.
pub proof fn lemma_total_ms_le_len(ts: Seq<TimeTuple>)
    ensures
        total_ms(ts) <= ts.len() * (65535 * 31_536_000_000),
    decreases ts.len(),
{
    if ts.len() > 0 {
        lemma_total_ms_le_len(ts.drop_last());
        lemma_tuple_ms_bound(ts.last());
        let c: int = (65535 * 31_536_000_000) as int;
        let n: int = ts.len() as int;
        assert(total_ms(ts.drop_last()) <= (n - 1) * c);
        assert((n - 1) * c + c == n * c) by (nonlinear_arith);
    }
}

/// Even a component of the largest magnitude at every one of the eight
/// scales sums to well below the saturation bound, so the accumulator
/// returns the exact total for any list of at most eight components.
pub proof fn lemma_total_ms_small(ts: Seq<TimeTuple>)
    requires
        ts.len() <= 8,
    ensures
        total_ms(ts) <= 8 * 65535 * 31_536_000_000,
        total_ms(ts) < u64::MAX,
        clamped_total_ms(ts) == total_ms(ts),
{
    lemma_total_ms_le_len(ts);
    lemma_mul_inequality(ts.len() as int, 8, (65535 * 31_536_000_000) as int);
}

/// Folds a component list into one total duration, saturating instead of
/// overflowing; the result is the exact total whenever that total is
/// representable.
pub fn accumulate_duration(ts: &Vec<TimeTuple>) -> (r: DurationValue)
    ensures
        r@ == clamped_total_ms(ts@),
{
    let mut acc = DurationValue::zero();
    let mut k: usize = 0;
    while k < ts.len()
        invariant
            k <= ts.len(),
            acc@ == clamped_total_ms(ts@.subrange(0, k as int)),
        decreases ts.len() - k,
    {
        let ghost pref = ts@.subrange(0, k as int);
        acc = acc.saturating_add(ts[k].as_duration());
        proof {
            assert(ts@.subrange(0, k as int + 1).drop_last() =~= pref);
            assert(ts@.subrange(0, k as int + 1).last() == ts@[k as int]);
        }
        k = k + 1;
    }
    proof {
        assert(ts@.subrange(0, ts@.len() as int) =~= ts@);
    }
    acc
}

} // verus!
