use crate::sums::{lemma_sum_fn_const, sum_fn};
use vstd::prelude::*;

verus! {

/// The attack magnitudes `tdg_min, tdg_min + 1, ..., tdg_max`; empty when
/// `tdg_min > tdg_max`.
pub open spec fn magnitudes_spec(tdg_min: int, tdg_max: int) -> Seq<int> {
    Seq::new(
        if tdg_min <= tdg_max { (tdg_max - tdg_min + 1) as nat } else { 0 },
        |i: int| tdg_min + i,
    )
}

/// A uniform distribution over an interval of attack magnitudes: each of the
/// `n` magnitudes has weight `1 / n`.
pub struct AttackDistribution {
    magnitudes: Vec<i32>,
}

impl View for AttackDistribution {
    type V = Seq<int>;

    closed spec fn view(&self) -> Seq<int> {
        self.magnitudes@.map_values(|m: i32| m as int)
    }
}

/// Weight of `m` as a fraction `(numerator, denominator)`: `1 / n` for each of
/// the `n` magnitudes, none for any other value.
pub open spec fn weight_spec(magnitudes: Seq<int>, m: int) -> Option<(int, int)> {
    if magnitudes.contains(m) {
        Some((1int, magnitudes.len() as int))
    } else {
        None
    }
}

/// Builds the uniform distribution over `[tdg_min, tdg_max]`.
pub fn attack_distribution(tdg_min: i32, tdg_max: i32) -> (d: AttackDistribution)
    ensures
        d@ == magnitudes_spec(tdg_min as int, tdg_max as int),
{
    let mut magnitudes: Vec<i32> = Vec::new();
    if tdg_min > tdg_max {
        let d = AttackDistribution { magnitudes };
        assert(d@ =~= magnitudes_spec(tdg_min as int, tdg_max as int));
        return d;
    }
    let mut m: i64 = tdg_min as i64;
    while m <= tdg_max as i64
        invariant
            tdg_min <= m <= tdg_max + 1,
            magnitudes.len() == m - tdg_min,
            forall|k: int| 0 <= k < magnitudes.len() ==> magnitudes[k] == tdg_min + k,
        decreases tdg_max + 1 - m,
    {
        magnitudes.push(m as i32);
        m = m + 1;
    }
    let d = AttackDistribution { magnitudes };
    assert(d@ =~= magnitudes_spec(tdg_min as int, tdg_max as int));
    d
}

impl AttackDistribution {
    /// Number of magnitudes.
    pub fn len(&self) -> (r: usize)
        ensures
            r == self@.len(),
    {
        self.magnitudes.len()
    }

    /// The `i`-th magnitude, in ascending order.
    pub fn magnitude(&self, i: usize) -> (r: i32)
        requires
            i < self@.len(),
        ensures
            r == self@[i as int],
    {
        self.magnitudes[i]
    }

    /// Weight of `m` as `(numerator, denominator)`.
    pub fn weight(&self, m: i32) -> (r: Option<(u64, u64)>)
        ensures
            match r {
                Some((a, b)) => weight_spec(self@, m as int) == Some((a as int, b as int)),
                None => weight_spec(self@, m as int).is_none(),
            },
    {
        let mut i: usize = 0;
        while i < self.magnitudes.len()
            invariant
                i <= self@.len(),
                self@.len() == self.magnitudes.len(),
                forall|k: int| 0 <= k < i ==> self@[k] != m,
            decreases self.magnitudes.len() - i,
        {
            if self.magnitudes[i] == m {
                assert(self@[i as int] == m);
                return Some((1, self.magnitudes.len() as u64));
            }
            i = i + 1;
        }
        None
    }
}

/// Over a non-empty interval there is one magnitude per integer of the
/// interval, and their weights add up to one: the numerators sum to the
/// common denominator.
pub proof fn lemma_weights_sum_to_one(tdg_min: int, tdg_max: int)
    requires
        tdg_min <= tdg_max,
    ensures
        magnitudes_spec(tdg_min, tdg_max).len() == tdg_max - tdg_min + 1,
        forall|i: int|
            0 <= i < magnitudes_spec(tdg_min, tdg_max).len() ==> #[trigger] weight_spec(
                magnitudes_spec(tdg_min, tdg_max),
                magnitudes_spec(tdg_min, tdg_max)[i],
            ) == Some((1int, tdg_max - tdg_min + 1)),
        sum_fn(
            |i: int| weight_spec(magnitudes_spec(tdg_min, tdg_max), magnitudes_spec(tdg_min, tdg_max)[i]).unwrap().0,
            magnitudes_spec(tdg_min, tdg_max).len(),
        ) == tdg_max - tdg_min + 1,
{
    let s = magnitudes_spec(tdg_min, tdg_max);
    let f = |i: int| weight_spec(s, s[i]).unwrap().0;
    assert forall|i: int| 0 <= i < s.len() implies #[trigger] weight_spec(s, s[i]) == Some((1int, tdg_max - tdg_min + 1)) by {
        assert(s.contains(s[i]));
    }
    assert forall|i: int| 0 <= i < s.len() implies #[trigger] f(i) == 1 by {
        assert(s.contains(s[i]));
    }
    lemma_sum_fn_const(f, 1, s.len());
}

/// Over an empty interval there is no magnitude.
pub proof fn lemma_empty_interval(tdg_min: int, tdg_max: int)
    requires
        tdg_min > tdg_max,
    ensures
        magnitudes_spec(tdg_min, tdg_max).len() == 0,
{
}

} // verus!
