use crate::allocation::{allocation_possible, flag_bonus_spec, reach_spec, AttackSimulator};
use rand::distributions::Distribution;
use rand::distributions::Uniform;
use vstd::prelude::*;

verus! {

/// Least damage that an unbuilt reactor takes off the attacking force.
pub const REACTOR_DAMAGE_MIN: i64 = 100;

/// Greatest damage that an unbuilt reactor takes off the attacking force.
pub const REACTOR_DAMAGE_MAX: i64 = 250;

/// Relies on rand's thread_rng and Uniform::from over `low..=high`: a value
/// within the bounds; Uniform panics only when `low > high`.
#[verifier::external_body]
fn draw_between(low: i64, high: i64) -> (r: i64)
    requires
        low <= high,
    ensures
        low <= r <= high,
{
    Uniform::from(low..=high).sample(&mut rand::thread_rng())
}

/// Whether some target received more than `threshold`.
pub fn exceeds_threshold(allocation: &Vec<i128>, threshold: i32) -> (r: bool)
    ensures
        r == exists|i: int| 0 <= i < allocation.len() && #[trigger] allocation[i] > threshold,
{
    let mut i: usize = 0;
    while i < allocation.len()
        invariant
            i <= allocation.len(),
            forall|k: int| 0 <= k < i ==> #[trigger] allocation[k] <= threshold,
        decreases allocation.len() - i,
    {
        if allocation[i] > threshold as i128 {
            return true;
        }
        i = i + 1;
    }
    false
}

/// The force that a trial hands to the allocator: the attacking force itself
/// with a built reactor, and otherwise that force less a damage in `[100, 250]`.
pub open spec fn force_possible(attacking: int, reactor_built: bool, f: int) -> bool {
    if reactor_built {
        f == attacking
    } else {
        REACTOR_DAMAGE_MIN <= attacking - f <= REACTOR_DAMAGE_MAX
    }
}

/// Whether some entry of `a` is above `threshold`.
pub open spec fn exceeds_spec(a: Seq<int>, threshold: int) -> bool {
    exists|i: int| 0 <= i < a.len() && #[trigger] a[i] > threshold
}

/// Whether one trial can end with `hit`: some possible force gives some
/// possible allocation, which is a hit when an entry is above `threshold`.
pub open spec fn trial_possible(
    day: int,
    attacking: int,
    threshold: int,
    flags: int,
    reactor_built: bool,
    hit: bool,
) -> bool {
    exists|f: int, a: Seq<int>|
        force_possible(attacking, reactor_built, f) && #[trigger] allocation_possible(day, f, flags, a)
            && hit == exceeds_spec(a, threshold)
}

/// Number of `true` entries.
pub open spec fn count_true(s: Seq<bool>) -> int
    decreases s.len(),
{
    if s.len() == 0 {
        0
    } else {
        count_true(s.drop_last()) + if s.last() { 1int } else { 0 }
    }
}

/// What the hit count of `iterations` independent trials can be: it counts
/// the hits among outcomes that each trial can have. When every possible
/// force leaves the bonus above `threshold`, every trial hits; when no
/// possible force lets a target get above it, none does.
pub open spec fn hit_count_possible(
    day: int,
    attacking: int,
    threshold: int,
    flags: int,
    iterations: int,
    reactor_built: bool,
    hits: int,
) -> bool {
    &&& 0 <= hits <= iterations
    &&& exists|outcomes: Seq<bool>|
        {
            &&& outcomes.len() == iterations
            &&& #[trigger] count_true(outcomes) == hits
            &&& forall|k: int|
                0 <= k < iterations ==> trial_possible(
                    day,
                    attacking,
                    threshold,
                    flags,
                    reactor_built,
                    #[trigger] outcomes[k],
                )
        }
    &&& (forall|f: int| #[trigger]
        force_possible(attacking, reactor_built, f) ==> flag_bonus_spec(f) > threshold) ==> hits
        == iterations
    &&& (forall|f: int| #[trigger]
        force_possible(attacking, reactor_built, f) ==> reach_spec(f, flags) <= threshold) ==> hits == 0
}

/// Number of trials, out of `iterations`, in which some target receives more
/// than `threshold`. Each trial has a simulator of its own; without a built
/// reactor a random damage in `[100, 250]` is first taken off the force. The
/// hit rate is `hits / iterations`.
pub fn debordo_sequential(
    day: i32,
    attacking: i64,
    threshold: i32,
    flags: i32,
    iterations: u32,
    reactor_built: bool,
) -> (hits: u32)
    requires
        attacking >= i64::MIN + REACTOR_DAMAGE_MAX,
    ensures
        hit_count_possible(
            day as int,
            attacking as int,
            threshold as int,
            flags as int,
            iterations as int,
            reactor_built,
            hits as int,
        ),
{
    let mut hits: u32 = 0;
    let mut k: u32 = 0;
    let ghost mut outcomes: Seq<bool> = Seq::empty();
    let ghost all = forall|f: int| #[trigger]
        force_possible(attacking as int, reactor_built, f) ==> flag_bonus_spec(f) > threshold;
    let ghost none = forall|f: int| #[trigger]
        force_possible(attacking as int, reactor_built, f) ==> reach_spec(f, flags as int) <= threshold;
    while k < iterations
        invariant
            attacking >= i64::MIN + REACTOR_DAMAGE_MAX,
            k <= iterations,
            hits <= k,
            outcomes.len() == k,
            count_true(outcomes) == hits,
            forall|j: int|
                0 <= j < k ==> trial_possible(
                    day as int,
                    attacking as int,
                    threshold as int,
                    flags as int,
                    reactor_built,
                    #[trigger] outcomes[j],
                ),
            all ==> hits == k,
            none ==> hits == 0,
            all == forall|f: int| #[trigger]
                force_possible(attacking as int, reactor_built, f) ==> flag_bonus_spec(f) > threshold,
            none == forall|f: int| #[trigger]
                force_possible(attacking as int, reactor_built, f) ==> reach_spec(f, flags as int)
                    <= threshold,
        decreases iterations - k,
    {
        let force: i64 = if reactor_built {
            attacking
        } else {
            attacking - draw_between(REACTOR_DAMAGE_MIN, REACTOR_DAMAGE_MAX)
        };
        assert(force_possible(attacking as int, reactor_built, force as int));
        let mut simulator = AttackSimulator::new();
        let allocation = simulator.simulate_attack(day, force, flags);
        let hit = exceeds_threshold(&allocation, threshold);
        let ghost m = allocation@.map_values(|x: i128| x as int);
        proof {
            assert(forall|i: int| 0 <= i < m.len() ==> m[i] == allocation[i] as int);
            if hit {
                let i = choose|i: int| 0 <= i < allocation.len() && #[trigger] allocation[i] > threshold;
                assert(m[i] > threshold);
            }
            assert(hit == exceeds_spec(m, threshold as int));
            assert(trial_possible(day as int, attacking as int, threshold as int, flags as int, reactor_built, hit));
            if all {
                assert(m.len() > 0);
                assert(m[0] >= flag_bonus_spec(force as int));
            }
            if none && hit {
                let i = choose|i: int| 0 <= i < m.len() && #[trigger] m[i] > threshold;
                assert(m[i] <= reach_spec(force as int, flags as int));
            }
            assert(outcomes.push(hit).drop_last() =~= outcomes);
            outcomes = outcomes.push(hit);
        }
        if hit {
            hits = hits + 1;
        }
        k = k + 1;
    }
    proof {
        assert(outcomes.len() == iterations && count_true(outcomes) == hits);
    }
    hits
}

} // verus!
