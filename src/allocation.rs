use crate::sums::{
    lemma_sum_fn_add, lemma_sum_fn_const, lemma_sum_fn_ext, lemma_sum_fn_ge_term, lemma_sum_indicator,
    sum_fn,
};
use rand::Rng;
use rand_mt::Mt64;
use vstd::prelude::*;

verus! {

/// Number of targets from the first days on.
pub const BASE_TARGETS: i64 = 10;

/// A flag takes one fortieth (2.5 %) of the attacking force.
pub const FLAG_DIVISOR: i64 = 40;

/// Fixed-point scale of a random weight: a weight `w` stands for `w / WEIGHT_SCALE`.
pub const WEIGHT_SCALE: u64 = 1_000_000_000;

/// Extra weight (0.3 on the same scale) given to the unlucky target.
pub const UNLUCKY_BOOST: u64 = 300_000_000;

/// `10 + 2 * floor(max(day - 10, 0) / 2)`.
pub open spec fn target_count_spec(day: int) -> int {
    let base = BASE_TARGETS as int;
    base + 2 * (if day - base > 0 { (day - base) / 2 } else { 0 })
}

/// `round(attacking / 40)`, halves away from zero.
pub open spec fn flag_bonus_spec(attacking: int) -> int {
    let d = FLAG_DIVISOR as int;
    if attacking >= 0 {
        (attacking + d / 2) / d
    } else {
        -((-attacking + d / 2) / d)
    }
}

/// The force left once every flag has taken its share.
pub open spec fn leftover_spec(attacking: int, flags: int) -> int {
    attacking - (if flags > 0 { flags } else { 0 }) * flag_bonus_spec(attacking)
}

/// Number of targets on a given day.
pub fn target_count(day: i32) -> (r: usize)
    ensures
        r as int == target_count_spec(day as int),
{
    let d: i64 = day as i64 - BASE_TARGETS;
    let extra: i64 = if d > 0 { d / 2 } else { 0 };
    (BASE_TARGETS + 2 * extra) as usize
}

/// Flat amount that each target receives on top of its share.
pub fn flag_bonus(attacking: i64) -> (r: i64)
    ensures
        r as int == flag_bonus_spec(attacking as int),
{
    let a: i128 = attacking as i128;
    let d: i128 = FLAG_DIVISOR as i128;
    if a >= 0 {
        ((a + d / 2) / d) as i64
    } else {
        -(((-a + d / 2) / d) as i64)
    }
}

/// Largest leftover force for which the share computation stays within `u128`.
pub const MAX_LEFTOVER: i128 = 79228162514264337593543950336;

/// Sum of a sequence of integers.
pub open spec fn int_sum(s: Seq<int>) -> int {
    sum_fn(|i: int| s[i], s.len())
}

/// Sum of a sequence of random weights.
pub open spec fn weight_sum(w: Seq<u64>) -> int {
    sum_fn(|i: int| w[i] as int, w.len())
}

/// Every weight stands for a fraction in `[0, 1)`.
pub open spec fn weights_valid(w: Seq<u64>) -> bool {
    forall|i: int| 0 <= i < w.len() ==> w[i] < WEIGHT_SCALE
}

/// Weight of target `i`, with the boost when it is the unlucky one.
pub open spec fn boosted_weight(w: Seq<u64>, unlucky: int, i: int) -> int {
    w[i] + if i == unlucky { UNLUCKY_BOOST as int } else { 0 }
}

/// `clamp(round(weight / total * leftover), 0, leftover)`, halves rounded up.
pub open spec fn share_of(weight: int, total: int, leftover: int) -> int {
    let r = (2 * weight * leftover + total) / (2 * total);
    if r < 0 {
        0
    } else if r > leftover {
        leftover
    } else {
        r
    }
}

/// The share of the leftover force that each target receives from its normalised weight.
pub open spec fn shares_spec(w: Seq<u64>, unlucky: int, leftover: int) -> Seq<int> {
    Seq::new(
        w.len(),
        |i: int| share_of(boosted_weight(w, unlucky, i), weight_sum(w) + UNLUCKY_BOOST, leftover),
    )
}

/// How many times `i` occurs in `picks`.
pub open spec fn count_of(picks: Seq<usize>, i: int) -> int
    decreases picks.len(),
{
    if picks.len() == 0 {
        0
    } else {
        count_of(picks.drop_last(), i) + if picks.last() == i { 1int } else { 0 }
    }
}

/// The most that one target can receive: the flag bonus, plus the leftover
/// force when there is one.
pub open spec fn reach_spec(attacking: int, flags: int) -> int {
    let l = leftover_spec(attacking, flags);
    (if l > 0 { l } else { 0 }) + flag_bonus_spec(attacking)
}

/// What an allocation of `attacking` over the targets of `day` can be: only
/// the flag bonus everywhere when the flags absorb the force, and otherwise
/// the allocation of some valid draws. Every entry lies between the bonus
/// and `reach_spec`.
pub open spec fn allocation_possible(day: int, attacking: int, flags: int, a: Seq<int>) -> bool {
    let l = leftover_spec(attacking, flags);
    let b = flag_bonus_spec(attacking);
    &&& a.len() == target_count_spec(day)
    &&& l <= 0 ==> forall|i: int| 0 <= i < a.len() ==> a[i] == b
    &&& l > 0 ==> exists|w: Seq<u64>, u: int, p: Seq<usize>|
        draws_valid(w, u, p, target_count_spec(day), l) && #[trigger] allocation_spec(w, u, p, l, b)
            == a
    &&& forall|i: int| 0 <= i < a.len() ==> b <= #[trigger] a[i] <= reach_spec(attacking, flags)
}

/// A target occurs among the picks at most once per pick.
pub proof fn lemma_count_bounds(picks: Seq<usize>, i: int)
    ensures
        0 <= count_of(picks, i) <= picks.len(),
    decreases picks.len(),
{
    if picks.len() > 0 {
        lemma_count_bounds(picks.drop_last(), i);
    }
}

/// The random draws behind one allocation: a weight per target, the unlucky
/// target, and one target for each unit that rounding left unassigned.
pub open spec fn draws_valid(
    w: Seq<u64>,
    unlucky: int,
    picks: Seq<usize>,
    targets: int,
    leftover: int,
) -> bool {
    let missing = leftover - int_sum(shares_spec(w, unlucky, leftover));
    &&& w.len() == targets
    &&& weights_valid(w)
    &&& 0 <= unlucky < targets
    &&& forall|j: int| 0 <= j < picks.len() ==> picks[j] < targets
    &&& picks.len() == if missing > 0 { missing } else { 0 }
}

/// The allocation that a set of draws yields: share, units from the
/// remainder, and the flat flag bonus.
pub open spec fn allocation_spec(
    w: Seq<u64>,
    unlucky: int,
    picks: Seq<usize>,
    leftover: int,
    bonus: int,
) -> Seq<int> {
    let s = shares_spec(w, unlucky, leftover);
    Seq::new(w.len(), |i: int| s[i] + count_of(picks, i) + bonus)
}

proof fn lemma_flag_bonus_bound(a: int)
    requires
        i64::MIN <= a <= i64::MAX,
    ensures
        -288230376151711744 <= flag_bonus_spec(a) <= 288230376151711744,
{
}

proof fn lemma_target_count_bound(day: int)
    requires
        i32::MIN <= day <= i32::MAX,
    ensures
        BASE_TARGETS <= target_count_spec(day) <= 2147483648,
{
}

/// Force left to share out once each flag (a negative count counts as none)
/// has taken its part.
pub fn leftover_force(attacking: i64, flags: i32) -> (r: i128)
    ensures
        r as int == leftover_spec(attacking as int, flags as int),
        -MAX_LEFTOVER < r < MAX_LEFTOVER,
{
    let bonus = flag_bonus(attacking);
    proof {
        lemma_flag_bonus_bound(attacking as int);
    }
    let f: i128 = if flags > 0 { flags as i128 } else { 0 };
    let b: i128 = bonus as i128;
    assert(-2147483648 * 288230376151711744 <= f * b <= 2147483648 * 288230376151711744)
        by (nonlinear_arith)
        requires
            0 <= f <= 2147483648,
            -288230376151711744 <= b <= 288230376151711744,
    ;
    attacking as i128 - f * b
}

/// Share of `leftover` for each target, in proportion to its weight, where
/// `weights[unlucky]` gets the boost.
pub fn proportional_shares(weights: &Vec<u64>, unlucky: usize, leftover: i128) -> (r: Vec<i128>)
    requires
        unlucky < weights.len(),
        weights_valid(weights@),
        0 < leftover < MAX_LEFTOVER,
    ensures
        r.len() == weights.len(),
        forall|i: int|
            0 <= i < r.len() ==> r[i] as int == shares_spec(weights@, unlucky as int, leftover as int)[i],
{
    let ghost w = weights@;
    let mut total: u128 = UNLUCKY_BOOST as u128;
    let mut i: usize = 0;
    while i < weights.len()
        invariant
            w == weights@,
            weights_valid(w),
            i <= w.len(),
            total == sum_fn(|k: int| w[k] as int, i as nat) + UNLUCKY_BOOST,
            total <= i * (WEIGHT_SCALE as int) + UNLUCKY_BOOST,
            total >= UNLUCKY_BOOST,
        decreases w.len() - i,
    {
        total = total + weights[i] as u128;
        i = i + 1;
    }
    let l: u128 = leftover as u128;
    let mut r: Vec<i128> = Vec::new();
    let mut j: usize = 0;
    while j < weights.len()
        invariant
            w == weights@,
            weights_valid(w),
            unlucky < w.len(),
            j <= w.len(),
            r.len() == j,
            total == weight_sum(w) + UNLUCKY_BOOST,
            total <= w.len() * (WEIGHT_SCALE as int) + UNLUCKY_BOOST,
            total >= UNLUCKY_BOOST,
            l == leftover,
            0 < leftover < MAX_LEFTOVER,
            forall|k: int|
                0 <= k < j ==> r[k] as int == shares_spec(w, unlucky as int, leftover as int)[k],
        decreases w.len() - j,
    {
        let bw: u128 = if j == unlucky {
            weights[j] as u128 + UNLUCKY_BOOST as u128
        } else {
            weights[j] as u128
        };
        assert(bw * l <= 1300000000 * 79228162514264337593543950336) by (nonlinear_arith)
            requires
                bw <= 1300000000,
                l <= 79228162514264337593543950336,
        ;
        let num: u128 = 2 * (bw * l) + total;
        let q: u128 = num / (2 * total);
        let s: i128 = if q > l {
            leftover
        } else {
            q as i128
        };
        assert(2 * (bw * l) == 2 * bw * l) by (nonlinear_arith);
        assert(s as int == shares_spec(w, unlucky as int, leftover as int)[j as int]);
        r.push(s);
        j = j + 1;
    }
    r
}

/// Adds one unit to the target of each pick, then `bonus` to every target.
pub fn settle_allocation(shares: &Vec<i128>, picks: &Vec<usize>, bonus: i64) -> (r: Vec<i128>)
    requires
        forall|j: int| 0 <= j < picks.len() ==> picks[j] < shares.len(),
        forall|i: int| 0 <= i < shares.len() ==> -MAX_LEFTOVER < #[trigger] shares[i] < MAX_LEFTOVER,
    ensures
        r.len() == shares.len(),
        forall|i: int|
            0 <= i < r.len() ==> r[i] as int == shares[i] + count_of(picks@, i) + bonus,
{
    let mut r: Vec<i128> = shares.clone();
    let mut j: usize = 0;
    while j < picks.len()
        invariant
            j <= picks.len(),
            r.len() == shares.len(),
            forall|k: int| 0 <= k < picks.len() ==> picks[k] < shares.len(),
            forall|i: int| 0 <= i < shares.len() ==> -MAX_LEFTOVER < #[trigger] shares[i] < MAX_LEFTOVER,
            forall|i: int|
                0 <= i < r.len() ==> r[i] as int == shares[i] + count_of(picks@.take(j as int), i),
            forall|i: int| 0 <= i < r.len() ==> 0 <= #[trigger] count_of(picks@.take(j as int), i) <= j,
        decreases picks.len() - j,
    {
        let p = picks[j];
        proof {
            assert(picks@.take(j + 1).drop_last() =~= picks@.take(j as int));
            assert forall|i: int|
                #[trigger] count_of(picks@.take(j + 1), i) == count_of(picks@.take(j as int), i) + if p
                    == i {
                    1int
                } else {
                    0
                } by {
                assert(picks@.take(j + 1).last() == p);
            }
        }
        r.set(p, r[p] + 1);
        j = j + 1;
    }
    proof {
        assert(picks@.take(picks.len() as int) =~= picks@);
    }
    let mut i: usize = 0;
    while i < r.len()
        invariant
            i <= r.len(),
            r.len() == shares.len(),
            forall|k: int| 0 <= k < shares.len() ==> -MAX_LEFTOVER < #[trigger] shares[k] < MAX_LEFTOVER,
            forall|k: int|
                0 <= k < i ==> r[k] as int == shares[k] + count_of(picks@, k) + bonus,
            forall|k: int|
                i <= k < r.len() ==> r[k] as int == shares[k] + count_of(picks@, k),
            forall|k: int| 0 <= k < r.len() ==> 0 <= #[trigger] count_of(picks@, k) <= picks.len(),
        decreases r.len() - i,
    {
        r.set(i, r[i] + bonus as i128);
        i = i + 1;
    }
    r
}

#[verifier::external_type_specification]
#[verifier::external_body]
pub struct ExMt64(Mt64);

/// Relies on rand::random: a value from the thread-local generator, of which
/// nothing is promised.
pub assume_specification<T>[ rand::random::<T> ]() -> T
    where
        rand::distributions::Standard: rand::distributions::Distribution<T>,
;

/// Relies on rand_mt's Mt64::new: a 64-bit Mersenne Twister seeded with `seed`.
pub assume_specification[ rand_mt::Mt64::new ](seed: u64) -> Mt64;

/// Relies on rand's Rng::gen_range over `0..bound`: a value below `bound`; it
/// panics only on an empty range.
#[verifier::external_body]
fn draw_below(rng: &mut Mt64, bound: u64) -> (r: u64)
    requires
        bound > 0,
    ensures
        r < bound,
{
    rng.gen_range(0..bound)
}

/// Spreads an attacking force over targets, drawing from a generator of its own.
pub struct AttackSimulator {
    rng: Mt64,
}

impl Default for AttackSimulator {
    /// A simulator with a freshly seeded generator.
    fn default() -> (r: AttackSimulator) {
        AttackSimulator::new()
    }
}

/// Sum of the first `n` entries.
fn sum_prefix(v: &Vec<i128>, n: usize) -> (r: i128)
    requires
        n <= v.len(),
        n <= 2147483648,
        forall|i: int| 0 <= i < v.len() ==> 0 <= #[trigger] v[i] < MAX_LEFTOVER,
    ensures
        r as int == sum_fn(|i: int| v[i] as int, n as nat),
        0 <= r <= n * MAX_LEFTOVER,
{
    let mut acc: i128 = 0;
    let mut i: usize = 0;
    while i < n
        invariant
            i <= n <= v.len(),
            n <= 2147483648,
            forall|k: int| 0 <= k < v.len() ==> 0 <= #[trigger] v[k] < MAX_LEFTOVER,
            acc as int == sum_fn(|k: int| v[k] as int, i as nat),
            0 <= acc <= i * MAX_LEFTOVER,
        decreases n - i,
    {
        acc = acc + v[i];
        i = i + 1;
    }
    acc
}

impl AttackSimulator {
    /// A simulator with a freshly seeded generator.
    pub fn new() -> (r: AttackSimulator) {
        AttackSimulator { rng: Mt64::new(rand::random()) }
    }

    /// Splits `attacking` over the day's targets: flags first take their part,
    /// what is left is shared out by random weights (one target boosted), the
    /// units lost to rounding go one by one to random targets, and every
    /// target gets the flag bonus.
    pub fn simulate_attack(&mut self, day: i32, attacking: i64, flags: i32) -> (r: Vec<i128>)
        ensures
            allocation_possible(day as int, attacking as int, flags as int, r@.map_values(|x: i128| x as int)),
            leftover_spec(attacking as int, flags as int) <= 0 ==> *final(self) == *old(self),
    {
        let targets = target_count(day);
        let bonus = flag_bonus(attacking);
        let leftover = leftover_force(attacking, flags);
        proof {
            lemma_target_count_bound(day as int);
        }
        if leftover <= 0 {
            let mut r: Vec<i128> = Vec::new();
            let mut i: usize = 0;
            while i < targets
                invariant
                    i <= targets,
                    r.len() == i,
                    forall|k: int| 0 <= k < i ==> r[k] as int == bonus,
                decreases targets - i,
            {
                r.push(bonus as i128);
                i = i + 1;
            }
            proof {
                let a = r@.map_values(|x: i128| x as int);
                assert(forall|k: int| 0 <= k < a.len() ==> a[k] == r[k] as int);
            }
            return r;
        }
        let mut weights: Vec<u64> = Vec::new();
        let mut i: usize = 0;
        while i < targets
            invariant
                i <= targets,
                weights.len() == i,
                weights_valid(weights@),
            decreases targets - i,
        {
            weights.push(draw_below(&mut self.rng, WEIGHT_SCALE));
            i = i + 1;
        }
        let unlucky = draw_below(&mut self.rng, targets as u64) as usize;
        let shares = proportional_shares(&weights, unlucky, leftover);
        let ghost s = shares_spec(weights@, unlucky as int, leftover as int);
        assert forall|k: int| 0 <= k < shares.len() implies 0 <= #[trigger] shares[k] < MAX_LEFTOVER by {
            assert(shares[k] as int == s[k]);
        }
        let assigned = sum_prefix(&shares, targets);
        proof {
            assert(int_sum(s) == sum_fn(|k: int| shares[k] as int, targets as nat)) by {
                lemma_sum_fn_ext(|k: int| s[k], |k: int| shares[k] as int, targets as nat);
            }
        }
        let mut remaining: i128 = leftover - assigned;
        let mut picks: Vec<usize> = Vec::new();
        while remaining > 0
            invariant
                targets >= BASE_TARGETS,
                picks.len() + remaining == leftover - assigned,
                picks.len() == 0 || remaining >= 0,
                forall|j: int| 0 <= j < picks.len() ==> picks[j] < targets,
            decreases remaining,
        {
            picks.push(draw_below(&mut self.rng, targets as u64) as usize);
            remaining = remaining - 1;
        }
        let r = settle_allocation(&shares, &picks, bonus);
        proof {
            let a = allocation_spec(weights@, unlucky as int, picks@, leftover as int, bonus as int);
            assert(draws_valid(weights@, unlucky as int, picks@, targets as int, leftover as int));
            assert(a =~= r@.map_values(|x: i128| x as int));
            assert forall|k: int| 0 <= k < r.len() implies bonus <= #[trigger] r[k] <= leftover + bonus by {
                lemma_count_bounds(picks@, k);
                assert(shares[k] as int == s[k]);
                if leftover - int_sum(s) > 0 {
                    lemma_sum_fn_ge_term(|j: int| s[j], targets as nat, k);
                }
            }
            let m = r@.map_values(|x: i128| x as int);
            assert(forall|k: int| 0 <= k < m.len() ==> m[k] == r[k] as int);
        }
        r
    }
}

/// Counting every index below `n` counts every pick once.
pub proof fn lemma_count_total(picks: Seq<usize>, n: nat)
    requires
        forall|j: int| 0 <= j < picks.len() ==> picks[j] < n,
    ensures
        sum_fn(|i: int| count_of(picks, i), n) == picks.len(),
    decreases picks.len(),
{
    if picks.len() > 0 {
        let rest = picks.drop_last();
        let k = picks.last() as int;
        lemma_count_total(rest, n);
        lemma_sum_indicator(k, n);
        assert forall|i: int| 0 <= i < n implies #[trigger] count_of(picks, i) == count_of(rest, i) + if i
            == k {
            1int
        } else {
            0
        } by {}
        lemma_sum_fn_add(
            |i: int| count_of(rest, i),
            |i: int| if i == k { 1int } else { 0 },
            |i: int| count_of(picks, i),
            n,
        );
    } else {
        lemma_sum_fn_const(|i: int| count_of(picks, i), 0, n);
    }
}

/// When rounding has not handed out more than the leftover force, an
/// allocation with a positive leftover sums to the leftover plus one flag
/// bonus per target.
pub proof fn lemma_allocation_total(
    day: int,
    attacking: int,
    flags: int,
    w: Seq<u64>,
    u: int,
    p: Seq<usize>,
)
    requires
        draws_valid(w, u, p, target_count_spec(day), leftover_spec(attacking, flags)),
        leftover_spec(attacking, flags) > 0,
        int_sum(shares_spec(w, u, leftover_spec(attacking, flags))) <= leftover_spec(attacking, flags),
    ensures
        int_sum(
            allocation_spec(w, u, p, leftover_spec(attacking, flags), flag_bonus_spec(attacking)),
        ) == leftover_spec(attacking, flags) + target_count_spec(day) * flag_bonus_spec(attacking),
{
    let l = leftover_spec(attacking, flags);
    let b = flag_bonus_spec(attacking);
    let n = w.len();
    let s = shares_spec(w, u, l);
    let a = allocation_spec(w, u, p, l, b);
    lemma_count_total(p, n);
    lemma_sum_fn_const(|i: int| b, b, n);
    lemma_sum_fn_add(|i: int| count_of(p, i), |i: int| b, |i: int| count_of(p, i) + b, n);
    lemma_sum_fn_add(|i: int| s[i], |i: int| count_of(p, i) + b, |i: int| a[i], n);
}

} // verus!
