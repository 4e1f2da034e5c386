//! Running sums of integer features, for computing their averages.
use vstd::prelude::*;

verus! {

/// A sum of pushed values and their total weight.
#[derive(Clone, Copy)]
pub struct FeatureAccumulator {
    acc: i64,
    n: u32,
}

/// The state of an accumulator: the sum of the values and the total weight.
pub struct AccState {
    pub acc: int,
    pub n: int,
}

/// The state after merging two accumulators.
pub open spec fn merge_spec(a: AccState, b: AccState) -> AccState {
    AccState { acc: a.acc + b.acc, n: a.n + b.n }
}

/// Whether a state can be held by an accumulator.
pub open spec fn fits(a: AccState) -> bool {
    i64::MIN <= a.acc <= i64::MAX && 0 <= a.n <= u32::MAX
}

impl FeatureAccumulator {
    pub closed spec fn state(self) -> AccState {
        AccState { acc: self.acc as int, n: self.n as int }
    }

    /// Add one value with weight one.
    pub fn push(&mut self, value: i32)
        requires
            fits(merge_spec(old(self).state(), AccState { acc: value as int, n: 1 })),
        ensures
            final(self).state() == merge_spec(old(self).state(), AccState { acc: value as int, n: 1 }),
    {
        self.acc = self.acc + value as i64;
        self.n = self.n + 1;
    }

    /// Add one value, counting it as `weight` values in the total weight.
    pub fn push_weighted(&mut self, value: i32, weight: u16)
        requires
            fits(merge_spec(old(self).state(), AccState { acc: value as int, n: weight as int })),
        ensures
            final(self).state() == merge_spec(
                old(self).state(),
                AccState { acc: value as int, n: weight as int },
            ),
    {
        self.acc = self.acc + value as i64;
        self.n = self.n + weight as u32;
    }

    /// The accumulator holding the values of both.
    pub fn merge(fa1: Self, fa2: Self) -> (r: Self)
        requires
            fits(merge_spec(fa1.state(), fa2.state())),
        ensures
            r.state() == merge_spec(fa1.state(), fa2.state()),
    {
        Self { acc: fa1.acc + fa2.acc, n: fa1.n + fa2.n }
    }

    /// The sum of the values.
    pub fn sum(&self) -> (r: i64)
        ensures
            r == self.state().acc,
    {
        self.acc
    }

    /// The total weight.
    pub fn weight(&self) -> (r: u32)
        ensures
            r == self.state().n,
    {
        self.n
    }
}

impl Default for FeatureAccumulator {
    fn default() -> (r: Self)
        ensures
            r.state() == (AccState { acc: 0, n: 0 }),
    {
        FeatureAccumulator { acc: 0, n: 0 }
    }
}

/// Merging is associative and commutative, and the empty accumulator is its
/// identity: the result does not depend on how values are grouped.
pub proof fn lemma_merge_laws(a: AccState, b: AccState, c: AccState)
    ensures
        merge_spec(merge_spec(a, b), c) == merge_spec(a, merge_spec(b, c)),
        merge_spec(a, b) == merge_spec(b, a),
        merge_spec(a, AccState { acc: 0, n: 0 }) == a,
        merge_spec(AccState { acc: 0, n: 0 }, a) == a,
{
}

} // verus!
