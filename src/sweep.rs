use crate::sums::{lemma_sum_fn_ext, sum_fn};
use crate::config::{config_valid, ConfigurationError, SimConfig};
use crate::distribution::{attack_distribution, magnitudes_spec};
use crate::trials::{debordo_sequential, hit_count_possible};
use rayon::iter::IntoParallelIterator;
use rayon::iter::ParallelIterator;
use vstd::arithmetic::div_mod::lemma_div_is_ordered;
use vstd::prelude::*;

verus! {

/// A defense value as the fraction `num / den`.
#[derive(Debug, Clone, Copy, PartialEq, Eq)]
pub struct Defense {
    pub num: i128,
    pub den: u64,
}

impl Defense {
    /// A positive denominator, and a value within the range of `i32`.
    pub open spec fn valid(self) -> bool {
        &&& self.den > 0
        &&& (i32::MIN as int) * (self.den as int) <= self.num
        &&& self.num <= (i32::MAX as int) * (self.den as int)
    }
}

/// Outcome of the trials for one defense: the overflow probability is
/// `hits / trials`, in percent `100 * hits / trials` (zero when there are no
/// trials).
#[derive(Debug, Clone, Copy, PartialEq, Eq)]
pub struct OverflowEstimate {
    pub hits: u64,
    pub trials: u64,
}

/// One defense of the sweep with its estimate.
#[derive(Debug, Clone, Copy, PartialEq, Eq)]
pub struct ProbabilityPoint {
    pub defense: Defense,
    pub estimate: OverflowEstimate,
}

/// `attack - num / den`, truncated, when it is positive.
pub open spec fn overflow_spec(attack: int, num: int, den: int) -> Option<int> {
    if attack * den > num {
        Some((attack * den - num) / den)
    } else {
        None
    }
}

/// The force by which `attack` overflows `defense`, truncated toward zero, if any.
pub fn overflow_force(attack: i32, defense: &Defense) -> (r: Option<i64>)
    requires
        defense.valid(),
    ensures
        match r {
            Some(f) => overflow_spec(attack as int, defense.num as int, defense.den as int) == Some(
                f as int,
            ),
            None => overflow_spec(attack as int, defense.num as int, defense.den as int).is_none(),
        },
{
    let den: i128 = defense.den as i128;
    let a: i128 = attack as i128;
    assert(-2147483648 * den <= a * den <= 2147483647 * den) by (nonlinear_arith)
        requires
            -2147483648 <= a <= 2147483647,
            den > 0,
    ;
    let scaled: i128 = a * den;
    if scaled > defense.num {
        let diff: i128 = scaled - defense.num;
        assert(diff / den <= 4294967295) by (nonlinear_arith)
            requires
                0 < diff <= 4294967295 * den,
                den > 0,
        ;
        Some((diff / den) as i64)
    } else {
        None
    }
}

/// `h[k]` is the number of hits of the trials run for magnitude `m[k]`: none
/// where `m[k]` does not overflow the defense, and otherwise a hit count of
/// `iterations` trials on the truncated overflow force.
pub open spec fn hits_per_magnitude(
    h: Seq<int>,
    m: Seq<int>,
    defense: Defense,
    iterations: int,
    day: int,
    min_def: int,
    flags: int,
    reactor_built: bool,
) -> bool {
    &&& h.len() == m.len()
    &&& forall|k: int|
        0 <= k < h.len() ==> {
            &&& 0 <= #[trigger] h[k] <= iterations
            &&& match overflow_spec(m[k], defense.num as int, defense.den as int) {
                None => h[k] == 0,
                Some(f) => hit_count_possible(day, f, min_def, flags, iterations, reactor_built, h[k]),
            }
        }
}

/// Estimate of the chance that an attack drawn uniformly from `tdg_interval`
/// overflows `defense` and then hits some target above `min_def`: each
/// magnitude that overflows runs `iterations` trials on its overflow force.
pub fn overflow_probability(
    defense: &Defense,
    tdg_interval: (i32, i32),
    min_def: i32,
    nb_drapo: i32,
    day: i32,
    iterations: u32,
    is_reactor_built: bool,
) -> (r: OverflowEstimate)
    requires
        defense.valid(),
    ensures
        r.trials == magnitudes_spec(tdg_interval.0 as int, tdg_interval.1 as int).len() * iterations,
        r.hits <= r.trials,
        tdg_interval.0 > tdg_interval.1 ==> r.hits == 0 && r.trials == 0,
        (tdg_interval.1 as int) * (defense.den as int) <= defense.num ==> r.hits == 0,
        exists|h: Seq<int>|
            #[trigger] hits_per_magnitude(
                h,
                magnitudes_spec(tdg_interval.0 as int, tdg_interval.1 as int),
                *defense,
                iterations as int,
                day as int,
                min_def as int,
                nb_drapo as int,
                is_reactor_built,
            ) && r.hits == sum_fn(|k: int| h[k], h.len()),
{
    let dist = attack_distribution(tdg_interval.0, tdg_interval.1);
    let n = dist.len();
    let ghost all_below = (tdg_interval.1 as int) * (defense.den as int) <= defense.num;
    assert(n <= 4294967296);
    let mut hits: u64 = 0;
    let mut trials: u64 = 0;
    let mut k: usize = 0;
    let ghost mut h: Seq<int> = Seq::empty();
    while k < n
        invariant
            h.len() == k,
            hits_per_magnitude(
                h,
                dist@.take(k as int),
                *defense,
                iterations as int,
                day as int,
                min_def as int,
                nb_drapo as int,
                is_reactor_built,
            ),
            hits == sum_fn(|j: int| h[j], k as nat),
            n == dist@.len(),
            dist@ == magnitudes_spec(tdg_interval.0 as int, tdg_interval.1 as int),
            n <= 4294967296,
            defense.valid(),
            k <= n,
            trials == k * iterations,
            hits <= trials,
            all_below == ((tdg_interval.1 as int) * (defense.den as int) <= defense.num),
            all_below ==> hits == 0,
        decreases n - k,
    {
        let attack = dist.magnitude(k);
        assert((k + 1) * iterations <= n * iterations <= 4294967296 * 4294967295) by (nonlinear_arith)
            requires
                k < n <= 4294967296,
                iterations <= 4294967295,
        ;
        assert((k + 1) * iterations == k * iterations + iterations) by (nonlinear_arith);
        let force = overflow_force(attack, defense);
        let ghost h_old = h;
        let ghost hits_old = hits;
        match force {
            Some(f) => {
                proof {
                    if all_below {
                        assert(attack <= tdg_interval.1);
                        assert((attack as int) * (defense.den as int) <= (tdg_interval.1 as int) * (
                        defense.den as int)) by (nonlinear_arith)
                            requires
                                attack <= tdg_interval.1,
                                defense.den > 0,
                        ;
                    }
                }
                let found = debordo_sequential(day, f, min_def, nb_drapo, iterations, is_reactor_built);
                hits = hits + found as u64;
                proof {
                    h = h_old.push(found as int);
                }
            },
            None => {
                proof {
                    h = h_old.push(0);
                }
            },
        }
        proof {
            lemma_sum_fn_ext(|j: int| h_old[j], |j: int| h[j], k as nat);
            assert(dist@.take(k + 1) =~= dist@.take(k as int).push(attack as int));
            assert(hits == sum_fn(|j: int| h[j], (k + 1) as nat));
        }
        trials = trials + iterations as u64;
        k = k + 1;
    }
    assert(dist@.take(n as int) =~= dist@);
    OverflowEstimate { hits, trials }
}

/// Numerator of the `i`-th defense of the sweep, over the denominator `points - 1`.
pub open spec fn sweep_defense_num(defense_min: int, defense_max: int, points: int, i: int) -> int {
    defense_min * (points - 1) + i * (defense_max - defense_min)
}

/// What the sweep promises of its `i`-th point.
pub open spec fn point_spec(c: SimConfig, i: int, p: ProbabilityPoint) -> bool {
    let num = sweep_defense_num(c.defense_min as int, c.defense_max as int, c.points as int, i);
    &&& p.defense.den == c.points - 1
    &&& p.defense.num == num
    &&& p.estimate.trials == magnitudes_spec(c.tdg_min as int, c.tdg_max as int).len() * c.iterations
    &&& p.estimate.hits <= p.estimate.trials
    &&& c.tdg_min > c.tdg_max ==> p.estimate.hits == 0
    &&& (c.tdg_max as int) * (c.points - 1) <= num ==> p.estimate.hits == 0
    &&& exists|h: Seq<int>|
        #[trigger] hits_per_magnitude(
            h,
            magnitudes_spec(c.tdg_min as int, c.tdg_max as int),
            p.defense,
            c.iterations as int,
            c.day as int,
            c.min_def as int,
            c.nb_drapo as int,
            c.is_reactor_built,
        ) && p.estimate.hits == sum_fn(|k: int| h[k], h.len())
}

/// The `i`-th point of the sweep: defense `defense_min + i * step` with
/// `step = (defense_max - defense_min) / (points - 1)`, and its estimate.
pub fn sweep_point(c: &SimConfig, i: u32) -> (r: ProbabilityPoint)
    requires
        c.points >= 2,
        c.defense_min <= c.defense_max,
        i < c.points,
    ensures
        point_spec(*c, i as int, r),
{
    let den: u64 = (c.points - 1) as u64;
    let lo: i128 = c.defense_min as i128;
    let hi: i128 = c.defense_max as i128;
    let d: i128 = den as i128;
    let ii: i128 = i as i128;
    assert(-2147483648 * d <= lo * d <= 2147483647 * d) by (nonlinear_arith)
        requires
            -2147483648 <= lo <= 2147483647,
            d > 0,
    ;
    assert(0 <= ii * (hi - lo) <= d * (hi - lo) <= 4294967295 * 4294967295) by (nonlinear_arith)
        requires
            0 <= ii <= d <= 4294967295,
            0 <= hi - lo <= 4294967295,
    ;
    let num: i128 = lo * d + ii * (hi - lo);
    assert(lo * d + d * (hi - lo) == hi * d) by (nonlinear_arith);
    assert(hi * d <= 2147483647 * d) by (nonlinear_arith)
        requires
            hi <= 2147483647,
            d > 0,
    ;
    let defense = Defense { num, den };
    let estimate = overflow_probability(
        &defense,
        c.tdg_interval(),
        c.min_def,
        c.nb_drapo,
        c.day,
        c.iterations,
        c.is_reactor_built,
    );
    proof {
        let h = choose|h: Seq<int>|
            #[trigger] hits_per_magnitude(
                h,
                magnitudes_spec(c.tdg_min as int, c.tdg_max as int),
                defense,
                c.iterations as int,
                c.day as int,
                c.min_def as int,
                c.nb_drapo as int,
                c.is_reactor_built,
            ) && estimate.hits == sum_fn(|k: int| h[k], h.len());
        assert(hits_per_magnitude(
            h,
            magnitudes_spec(c.tdg_min as int, c.tdg_max as int),
            defense,
            c.iterations as int,
            c.day as int,
            c.min_def as int,
            c.nb_drapo as int,
            c.is_reactor_built,
        ));
    }
    ProbabilityPoint { defense, estimate }
}

/// Relies on rayon's indexed parallel map over `0..points` and its `collect`
/// into a `Vec`, which keeps the index order: entry `i` is what
/// `sweep_point(c, i)` returned.
#[verifier::external_body]
fn parallel_sweep(c: &SimConfig) -> (r: Vec<ProbabilityPoint>)
    requires
        c.points >= 2,
        c.defense_min <= c.defense_max,
    ensures
        r.len() == c.points,
        forall|i: int| 0 <= i < r.len() ==> point_spec(*c, i, #[trigger] r[i]),
{
    (0..c.points).into_par_iter().map(|i| sweep_point(c, i)).collect()
}

/// Estimates the overflow probability at `points` evenly spaced defenses
/// from `defense_range.0` to `defense_range.1`, in parallel, in ascending
/// order of defense. Fewer than two points, no iterations or a reversed
/// range are refused before anything is computed.
pub fn calculate_defense_probabilities(
    defense_range: (i32, i32),
    tdg_interval: (i32, i32),
    min_def: i32,
    nb_drapo: i32,
    day: i32,
    iterations: u32,
    points: u32,
    is_reactor_built: bool,
) -> (r: Result<Vec<ProbabilityPoint>, ConfigurationError>)
    ensures
        r is Err <==> (points < 2 || iterations == 0 || defense_range.0 > defense_range.1),
        r is Err ==> r == Err::<Vec<ProbabilityPoint>, _>(ConfigurationError::InvalidConfiguration),
        match r {
            Ok(v) => v.len() == points && forall|i: int|
                0 <= i < v.len() ==> point_spec(
                    SimConfig {
                        defense_min: defense_range.0,
                        defense_max: defense_range.1,
                        tdg_min: tdg_interval.0,
                        tdg_max: tdg_interval.1,
                        min_def,
                        nb_drapo,
                        day,
                        iterations,
                        points,
                        is_reactor_built,
                    },
                    i,
                    #[trigger] v[i],
                ),
            Err(_) => true,
        },
{
    if points < 2 || iterations == 0 || defense_range.0 > defense_range.1 {
        return Err(ConfigurationError::InvalidConfiguration);
    }
    let c = SimConfig {
        defense_min: defense_range.0,
        defense_max: defense_range.1,
        tdg_min: tdg_interval.0,
        tdg_max: tdg_interval.1,
        min_def,
        nb_drapo,
        day,
        iterations,
        points,
        is_reactor_built,
    };
    Ok(parallel_sweep(&c))
}

/// Checks the parameters, then runs the sweep.
pub fn compute(params: &SimConfig) -> (r: Result<Vec<ProbabilityPoint>, ConfigurationError>)
    ensures
        r is Err <==> !config_valid(*params),
        r is Err ==> r == Err::<Vec<ProbabilityPoint>, _>(ConfigurationError::InvalidConfiguration),
        match r {
            Ok(v) => v.len() == params.points && forall|i: int|
                0 <= i < v.len() ==> point_spec(*params, i, #[trigger] v[i]),
            Err(_) => true,
        },
{
    let r = calculate_defense_probabilities(
        params.defense_range(),
        params.tdg_interval(),
        params.min_def,
        params.nb_drapo,
        params.day,
        params.iterations,
        params.points,
        params.is_reactor_built,
    );
    proof {
        let c = SimConfig {
            defense_min: params.defense_min,
            defense_max: params.defense_max,
            tdg_min: params.tdg_min,
            tdg_max: params.tdg_max,
            min_def: params.min_def,
            nb_drapo: params.nb_drapo,
            day: params.day,
            iterations: params.iterations,
            points: params.points,
            is_reactor_built: params.is_reactor_built,
        };
        assert(c == *params);
    }
    r
}

/// With `defense_min < defense_max`, the points of a sweep share one
/// denominator, their defenses are strictly ascending, the first is
/// `defense_min` and the last `defense_max`.
pub proof fn lemma_sweep_ascending(c: SimConfig, v: Seq<ProbabilityPoint>)
    requires
        c.points >= 2,
        c.defense_min < c.defense_max,
        v.len() == c.points,
        forall|i: int| 0 <= i < v.len() ==> point_spec(c, i, #[trigger] v[i]),
    ensures
        forall|i: int| 0 <= i < v.len() ==> (#[trigger] v[i]).defense.den == c.points - 1,
        forall|i: int, j: int|
            0 <= i < j < v.len() ==> (#[trigger] v[i]).defense.num < (#[trigger] v[j]).defense.num,
        v[0].defense.num == (c.defense_min as int) * (c.points - 1),
        v[v.len() - 1].defense.num == (c.defense_max as int) * (c.points - 1),
{
    let lo = c.defense_min as int;
    let hi = c.defense_max as int;
    let p = c.points as int;
    assert forall|i: int, j: int| 0 <= i < j < v.len() implies (#[trigger] v[i]).defense.num < (
    #[trigger] v[j]).defense.num by {
        assert(point_spec(c, i, v[i]));
        assert(point_spec(c, j, v[j]));
        assert(i * (hi - lo) < j * (hi - lo)) by (nonlinear_arith)
            requires
                i < j,
                lo < hi,
        ;
    }
    assert(point_spec(c, 0, v[0]));
    assert(point_spec(c, p - 1, v[p - 1]));
    assert(lo * (p - 1) + (p - 1) * (hi - lo) == hi * (p - 1)) by (nonlinear_arith);
}

/// For one attack magnitude, a larger defense (over the same denominator)
/// never leaves a larger overflow force: whatever overflows the larger
/// defense overflows the smaller one by at least as much.
pub proof fn lemma_overflow_force_antitone(attack: int, num_low: int, num_high: int, den: int)
    requires
        den > 0,
        num_low <= num_high,
    ensures
        overflow_spec(attack, num_high, den) is Some ==> {
            &&& overflow_spec(attack, num_low, den) is Some
            &&& overflow_spec(attack, num_high, den)->0 <= overflow_spec(attack, num_low, den)->0
        },
{
    lemma_div_is_ordered(attack * den - num_high, attack * den - num_low, den);
}

} // verus!
