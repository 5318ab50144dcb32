//! A parsed duration component: a magnitude paired with a scale.

use vstd::prelude::*;
use vstd::relations::total_ordering;
use crate::scale::TimeScale;
use crate::scale::scale_rank;

verus! {

/// One `<number><unit>` component: a magnitude up to 65535 and its scale.
///
/// Structural equality compares both fields.  The order that sorting logic
/// uses compares the scale first, per the fixed scale order, then the
/// magnitude; see [`comes_after`].
#[derive(Debug, Clone, Copy, PartialEq, Eq, Structural)]
pub struct TimeTuple(pub u16, pub TimeScale);

/// The descending display order of components: `a` comes no later than `b`
/// when `a`'s scale is coarser, or the scales tie and `a`'s magnitude is at
/// least `b`'s.  This is the reflexive total order the canonical formatter
/// sorts by.
pub open spec fn comes_after(a: TimeTuple, b: TimeTuple) -> bool {
    ||| scale_rank(a.1) > scale_rank(b.1)
    ||| (scale_rank(a.1) == scale_rank(b.1) && a.0 >= b.0)
}

/// Scales with the same rank are the same scale.
pub proof fn lemma_scale_rank_injective(a: TimeScale, b: TimeScale)
    ensures
        scale_rank(a) == scale_rank(b) ==> a == b,
{
}

/// [`comes_after`] is a total ordering: reflexive, antisymmetric,
/// transitive, and strongly connected.
pub proof fn lemma_comes_after_total_ordering()
    ensures
        total_ordering(|a: TimeTuple, b: TimeTuple| comes_after(a, b)),
{
    let r = |a: TimeTuple, b: TimeTuple| comes_after(a, b);
    assert forall|a: TimeTuple, b: TimeTuple| #[trigger] r(a, b) && #[trigger] r(b, a) implies a
        == b by {
        lemma_scale_rank_injective(a.1, b.1);
    }
}

impl TimeTuple {
    /// Builds a component from a magnitude and a scale.
    pub fn make(time: u16, scale: TimeScale) -> (r: Self)
        ensures
            r == TimeTuple(time, scale),
    {
        TimeTuple(time, scale)
    }

    /// The magnitude of the component.
    pub fn time(&self) -> (r: u16)
        ensures
            r == self.0,
    {
        self.0
    }

    /// The scale of the component.
    pub fn scale(&self) -> (r: TimeScale)
        ensures
            r == self.1,
    {
        self.1
    }

    /// Whether `self` sorts no later than `other` in descending display
    /// order.
    pub fn comes_after_exec(&self, other: &TimeTuple) -> (r: bool)
        ensures
            r == comes_after(*self, *other),
    {
        let a = rank_exec(self.1);
        let b = rank_exec(other.1);
        a > b || (a == b && self.0 >= other.0)
    }
}

/// The rank of a scale in the ascending-granularity order, as a machine
/// integer.
fn rank_exec(s: TimeScale) -> (r: u8)
    ensures
        r as int == scale_rank(s),
{
    match s {
        TimeScale::Milliseconds => 0,
        TimeScale::Seconds => 1,
        TimeScale::Minutes => 2,
        TimeScale::Hours => 3,
        TimeScale::Days => 4,
        TimeScale::Weeks => 5,
        TimeScale::Months => 6,
        TimeScale::Years => 7,
    }
}

} // verus!
