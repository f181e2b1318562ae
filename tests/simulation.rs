use debordo::allocation::{
    flag_bonus, leftover_force, proportional_shares, settle_allocation, target_count,
    AttackSimulator, WEIGHT_SCALE,
};
use debordo::config::{CommandOption, ConfigurationError, OptionValue, SimConfig};
use debordo::distribution::attack_distribution;
use debordo::response::{
    classify_interaction, DiscordResponse, InteractionKind, CHANNEL_MESSAGE_WITH_SOURCE, PONG,
};
use debordo::sweep::{
    calculate_defense_probabilities, compute, overflow_force, overflow_probability, Defense,
    ProbabilityPoint,
};
use debordo::trials::{debordo_sequential, exceeds_threshold};

fn percent(p: &ProbabilityPoint) -> f64 {
    if p.estimate.trials == 0 {
        0.0
    } else {
        100.0 * p.estimate.hits as f64 / p.estimate.trials as f64
    }
}

fn defense_value(p: &ProbabilityPoint) -> f64 {
    p.defense.num as f64 / p.defense.den as f64
}

fn config(points: u32, iterations: u32) -> SimConfig {
    SimConfig {
        defense_min: 50,
        defense_max: 150,
        tdg_min: 100,
        tdg_max: 200,
        min_def: 10,
        nb_drapo: 1,
        day: 10,
        iterations,
        points,
        is_reactor_built: true,
    }
}

#[test]
fn test_attack_distribution() {
    let dist = attack_distribution(100, 102);
    assert_eq!(dist.len(), 3);
    let (num, den) = dist.weight(100).unwrap();
    assert!((num as f64 / den as f64 - 1.0 / 3.0).abs() < 0.0001);
}

#[test]
fn test_simulator_creates_correct_number_of_targets() {
    let mut sim = AttackSimulator::new();

    let result = sim.simulate_attack(10, 1000, 0);
    assert_eq!(result.len(), 10);

    let result = sim.simulate_attack(12, 1000, 0);
    assert_eq!(result.len(), 12);
}

#[test]
fn distribution_entries_and_weights() {
    let dist = attack_distribution(5, 14);
    assert_eq!(dist.len(), 10);
    for i in 0..10 {
        assert_eq!(dist.magnitude(i), 5 + i as i32);
        assert_eq!(dist.weight(5 + i as i32), Some((1, 10)));
    }
    assert_eq!(dist.weight(15), None);
    assert_eq!(dist.weight(4), None);
}

#[test]
fn distribution_single_magnitude() {
    let dist = attack_distribution(7, 7);
    assert_eq!(dist.len(), 1);
    assert_eq!(dist.weight(7), Some((1, 1)));
}

#[test]
fn distribution_reversed_interval_is_empty() {
    let dist = attack_distribution(200, 100);
    assert_eq!(dist.len(), 0);
    assert_eq!(dist.weight(150), None);
}

#[test]
fn target_count_steps_with_day() {
    assert_eq!(target_count(1), 10);
    assert_eq!(target_count(-5), 10);
    assert_eq!(target_count(10), 10);
    assert_eq!(target_count(11), 10);
    assert_eq!(target_count(12), 12);
    assert_eq!(target_count(13), 12);
    assert_eq!(target_count(14), 14);
    assert_eq!(target_count(31), 30);
}

#[test]
fn flag_bonus_rounds_half_away_from_zero() {
    assert_eq!(flag_bonus(1000), 25);
    assert_eq!(flag_bonus(20), 1);
    assert_eq!(flag_bonus(19), 0);
    assert_eq!(flag_bonus(60), 2);
    assert_eq!(flag_bonus(100), 3);
    assert_eq!(flag_bonus(0), 0);
    assert_eq!(flag_bonus(-20), -1);
    assert_eq!(flag_bonus(-19), 0);
    assert_eq!(flag_bonus(-100), -3);
}

#[test]
fn leftover_after_flags() {
    assert_eq!(leftover_force(1000, 0), 1000);
    assert_eq!(leftover_force(1000, 1), 975);
    assert_eq!(leftover_force(1000, 4), 900);
    assert_eq!(leftover_force(1000, 50), -250);
    assert_eq!(leftover_force(1000, -3), 1000);
}

#[test]
fn absorbed_force_gives_only_the_bonus() {
    let mut sim = AttackSimulator::new();
    let result = sim.simulate_attack(14, 1000, 40);
    assert_eq!(result.len(), 14);
    assert!(result.iter().all(|&x| x == 25));
    let result = sim.simulate_attack(10, 1000, 50);
    assert_eq!(result.len(), 10);
    assert!(result.iter().all(|&x| x == 25));
}

#[test]
fn positive_leftover_is_shared_out() {
    let mut sim = AttackSimulator::new();
    for _ in 0..200 {
        let result = sim.simulate_attack(10, 1000, 1);
        assert_eq!(result.len(), 10);
        assert!(result.iter().all(|&x| x >= 25 && x <= 975 + 25));
        let total: i128 = result.iter().sum();
        assert!(total >= 975 + 10 * 25);
        assert!(total <= 975 + 10 * 25 + 5);
    }
}

#[test]
fn shares_follow_weights_and_boost() {
    let weights = vec![0u64; 10];
    let shares = proportional_shares(&weights, 3, 100);
    let mut expected = vec![0i128; 10];
    expected[3] = 100;
    assert_eq!(shares, expected);

    let mut weights = vec![0u64; 10];
    weights[0] = 500_000_000;
    let shares = proportional_shares(&weights, 1, 10);
    assert_eq!(shares[0], 6);
    assert_eq!(shares[1], 4);
    assert_eq!(shares.iter().sum::<i128>(), 10);
}

#[test]
fn shares_can_overshoot_by_rounding() {
    let mut weights = vec![0u64; 10];
    weights[0] = 300_000_000;
    weights[1] = 300_000_000;
    weights[2] = 300_000_000;
    // Four targets at a quarter each: 0.75 of a unit rounds to one each.
    let shares = proportional_shares(&weights, 3, 3);
    assert_eq!(shares.iter().sum::<i128>(), 4);
    assert!(weights.iter().all(|&w| w < WEIGHT_SCALE));
}

#[test]
fn settlement_adds_picks_and_bonus() {
    let shares = vec![6i128, 4, 0, 0];
    let picks = vec![2usize, 2, 3];
    let result = settle_allocation(&shares, &picks, 5);
    assert_eq!(result, vec![11, 9, 7, 6]);
    let total: i128 = result.iter().sum();
    assert_eq!(total, 10 + 3 + 4 * 5);
}

#[test]
fn threshold_is_strict() {
    assert!(!exceeds_threshold(&vec![10, 10, 9], 10));
    assert!(exceeds_threshold(&vec![10, 11, 9], 10));
    assert!(!exceeds_threshold(&vec![], 0));
}

#[test]
fn hit_count_when_force_is_absorbed() {
    assert_eq!(debordo_sequential(10, 1000, 20, 50, 30, true), 30);
    assert_eq!(debordo_sequential(10, 1000, 25, 50, 30, true), 0);
}

#[test]
fn hit_count_stays_within_iterations() {
    for threshold in [0, 50, 100, 150] {
        let hits = debordo_sequential(12, 600, threshold, 2, 50, false);
        assert!(hits <= 50);
    }
    assert_eq!(debordo_sequential(10, 600, 0, 0, 0, true), 0);
}

#[test]
fn reactor_damage_reduces_the_force() {
    // Built: 100 is shared out, so some target gets more than zero.
    assert_eq!(debordo_sequential(10, 100, 0, 0, 40, true), 40);
    // Not built: at least 100 is lost, nothing is left to exceed zero.
    assert_eq!(debordo_sequential(10, 100, 0, 0, 40, false), 0);
}

#[test]
fn overflow_is_truncated() {
    assert_eq!(overflow_force(100, &Defense { num: 101, den: 2 }), Some(49));
    assert_eq!(overflow_force(100, &Defense { num: 99, den: 1 }), Some(1));
    assert_eq!(overflow_force(50, &Defense { num: 50, den: 1 }), None);
    assert_eq!(overflow_force(50, &Defense { num: 60, den: 1 }), None);
    assert_eq!(overflow_force(i32::MAX, &Defense { num: i32::MIN as i128, den: 1 }), Some(4294967295));
}

#[test]
fn overflow_probability_bounds() {
    let d = Defense { num: 100, den: 1 };
    let r = overflow_probability(&d, (200, 100), 10, 1, 10, 100, true);
    assert_eq!(r.hits, 0);
    assert_eq!(r.trials, 0);
    let r = overflow_probability(&d, (50, 100), 10, 1, 10, 100, true);
    assert_eq!(r.hits, 0);
    assert_eq!(r.trials, 51 * 100);
    let r = overflow_probability(&d, (100, 300), 10, 1, 10, 20, true);
    assert_eq!(r.trials, 201 * 20);
    assert!(r.hits <= r.trials);
    assert!(r.hits > 0);
}

#[test]
fn invalid_configurations_are_refused() {
    assert_eq!(compute(&config(1, 100)).unwrap_err(), ConfigurationError::InvalidConfiguration);
    assert_eq!(compute(&config(0, 100)).unwrap_err(), ConfigurationError::InvalidConfiguration);
    assert_eq!(compute(&config(5, 0)).unwrap_err(), ConfigurationError::InvalidConfiguration);
    let mut c = config(5, 10);
    c.defense_min = 200;
    assert_eq!(compute(&c).unwrap_err(), ConfigurationError::InvalidConfiguration);
}

#[test]
fn end_to_end_sweep() {
    let points = compute(&config(5, 1000)).unwrap();
    assert_eq!(points.len(), 5);
    let expected = [50.0, 75.0, 100.0, 125.0, 150.0];
    for (p, e) in points.iter().zip(expected.iter()) {
        assert!((defense_value(p) - e).abs() < 1e-9);
        let pr = percent(p);
        assert!((0.0..=100.0).contains(&pr));
    }
    for w in points.windows(2) {
        assert!(defense_value(&w[0]) < defense_value(&w[1]));
        assert!(percent(&w[1]) <= percent(&w[0]) + 2.0);
    }
}

#[test]
fn sweep_with_empty_interval_is_zero() {
    let points = calculate_defense_probabilities((0, 30), (10, 5), 10, 0, 10, 10, 4, false).unwrap();
    assert_eq!(points.len(), 4);
    for (i, p) in points.iter().enumerate() {
        assert_eq!(p.estimate.hits, 0);
        assert_eq!(p.defense.den, 3);
        assert_eq!(p.defense.num, 30 * i as i128);
    }
}

#[test]
fn sweep_with_equal_bounds() {
    let points = calculate_defense_probabilities((40, 40), (10, 20), 10, 0, 10, 5, 3, true).unwrap();
    assert_eq!(points.len(), 3);
    assert!(points.iter().all(|p| p.defense.num == 80 && p.defense.den == 2));
    assert!(points.iter().all(|p| p.estimate.hits == 0));
}

fn opt(name: &str, value: OptionValue) -> CommandOption {
    CommandOption { name: name.to_string(), value }
}

#[test]
fn options_defaults() {
    let c = SimConfig::from_options(&vec![]);
    assert_eq!(c.iterations, 10000);
    assert_eq!(c.points, 10000);
    assert_eq!(c.day, 1);
    assert_eq!(c.defense_min, 0);
    assert_eq!(c.tdg_max, 0);
    assert!(!c.is_reactor_built);
}

#[test]
fn options_are_read() {
    let options = vec![
        opt("defense_min", OptionValue::Integer(50)),
        opt("defense_max", OptionValue::Integer(150)),
        opt("tdg_min", OptionValue::Integer(100)),
        opt("tdg_max", OptionValue::Integer(200)),
        opt("min_def", OptionValue::Integer(10)),
        opt("nb_drapo", OptionValue::Integer(1)),
        opt("day", OptionValue::Integer(12)),
        opt("iterations", OptionValue::Integer(500)),
        opt("points", OptionValue::Integer(5)),
        opt("reactor", OptionValue::Boolean(true)),
        opt("unknown", OptionValue::Integer(3)),
    ];
    let c = SimConfig::from_options(&options);
    assert_eq!(c.defense_range(), (50, 150));
    assert_eq!(c.tdg_interval(), (100, 200));
    assert_eq!(c.min_def, 10);
    assert_eq!(c.nb_drapo, 1);
    assert_eq!(c.day, 12);
    assert_eq!(c.iterations, 500);
    assert_eq!(c.points, 5);
    assert!(c.is_reactor_built);
}

#[test]
fn options_fallbacks_and_overrides() {
    let options = vec![
        opt("day", OptionValue::Boolean(true)),
        opt("points", OptionValue::Other),
        opt("reactor", OptionValue::Integer(1)),
        opt("min_def", OptionValue::Integer(3)),
        opt("min_def", OptionValue::Integer(4)),
        opt("iterations", OptionValue::Other),
    ];
    let c = SimConfig::from_options(&options);
    assert_eq!(c.day, 1);
    assert_eq!(c.points, 10);
    assert!(!c.is_reactor_built);
    assert_eq!(c.min_def, 4);
    assert_eq!(c.iterations, 10000);
}

#[test]
fn interactions_are_classified() {
    assert_eq!(classify_interaction(1), InteractionKind::Ping);
    assert_eq!(classify_interaction(2), InteractionKind::Command);
    assert_eq!(classify_interaction(3), InteractionKind::Unknown);
    assert_eq!(classify_interaction(0), InteractionKind::Unknown);
}

#[test]
fn responses_are_built() {
    let r = DiscordResponse::pong();
    assert_eq!(r.response_type, PONG);
    assert!(r.data.is_none());
    let r = DiscordResponse::message("hello".to_string());
    assert_eq!(r.response_type, CHANNEL_MESSAGE_WITH_SOURCE);
    let d = r.data.unwrap();
    assert_eq!(d.content, "hello");
    assert_eq!(d.flags, None);
}

#[test]
fn distribution_weights_sum_to_one() {
    for (lo, hi) in [(100, 102), (0, 0), (-50, 49), (1, 1000)] {
        let dist = attack_distribution(lo, hi);
        assert_eq!(dist.len(), (hi - lo + 1) as usize);
        let total: f64 = (lo..=hi)
            .map(|m| {
                let (a, b) = dist.weight(m).unwrap();
                a as f64 / b as f64
            })
            .sum();
        assert!((total - 1.0).abs() < 1e-9);
    }
}

#[test]
fn estimates_fall_as_defense_rises() {
    let mut previous = 101.0;
    for defense in [0i128, 40, 80, 120, 160, 200] {
        let d = Defense { num: defense, den: 1 };
        let r = overflow_probability(&d, (100, 200), 10, 0, 10, 300, true);
        let p = 100.0 * r.hits as f64 / r.trials as f64;
        assert!((0.0..=100.0).contains(&p));
        assert!(p <= previous + 3.0);
        previous = p;
    }
    let d = Defense { num: 200, den: 1 };
    assert_eq!(overflow_probability(&d, (100, 200), 10, 0, 10, 300, true).hits, 0);
}

#[test]
fn hit_count_when_bonus_or_reach_decides() {
    // Every target gets at least the bonus of 25.
    assert_eq!(debordo_sequential(10, 1000, 24, 1, 20, true), 20);
    // No target can get more than 975 + 25.
    assert_eq!(debordo_sequential(10, 1000, 1000, 1, 20, true), 0);
}

#[test]
fn sweep_refuses_invalid_settings() {
    let e = ConfigurationError::InvalidConfiguration;
    assert_eq!(calculate_defense_probabilities((0, 30), (10, 20), 10, 0, 10, 10, 1, true).unwrap_err(), e);
    assert_eq!(calculate_defense_probabilities((0, 30), (10, 20), 10, 0, 10, 10, 0, true).unwrap_err(), e);
    assert_eq!(calculate_defense_probabilities((0, 30), (10, 20), 10, 0, 10, 0, 5, true).unwrap_err(), e);
    assert_eq!(calculate_defense_probabilities((31, 30), (10, 20), 10, 0, 10, 10, 5, true).unwrap_err(), e);
}

#[test]
fn damaged_reactor_absorbs_small_forces() {
    assert_eq!(debordo_sequential(10, 100, 0, 0, 50, false), 0);
    assert_eq!(debordo_sequential(12, 60, 0, 0, 50, false), 0);
}

#[test]
fn half_unit_overflow_truncates_to_nothing() {
    let d = Defense { num: 201, den: 2 };
    assert_eq!(overflow_force(101, &d), Some(0));
    let r = overflow_probability(&d, (101, 101), 0, 0, 10, 100, true);
    assert_eq!((r.hits, r.trials), (0, 100));
}

#[test]
fn unit_overflow_always_hits() {
    let d = Defense { num: 100, den: 1 };
    let r = overflow_probability(&d, (101, 101), 0, 0, 10, 100, true);
    assert_eq!((r.hits, r.trials), (100, 100));
}

#[test]
fn default_simulator_works() {
    let mut sim = AttackSimulator::default();
    let result = sim.simulate_attack(10, 1000, 50);
    assert_eq!(result, vec![25i128; 10]);
}
