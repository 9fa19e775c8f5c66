use project_newborn::disturbance::Disturbance;
use project_newborn::disturbance::InvalidDisturbance;
use project_newborn::isf::InternalStateField;
use project_newborn::isf::ReplayMode;

#[test]
fn fresh_tick_is_a_noop_in_structural_bias_mode() {
    let mut brain = InternalStateField::new();
    brain.internal_thinking_tick();
    assert_eq!(brain.tension, 5000);
    assert_eq!(brain.stability, 1000);
    assert_eq!(brain.energy, 5000);
}

#[test]
fn fresh_tick_is_a_noop_in_trace_mode() {
    let mut brain = InternalStateField::new();
    brain.replay_mode = ReplayMode::TraceBased;
    brain.internal_thinking_tick();
    assert_eq!(brain.tension, 5000);
    assert_eq!(brain.stability, 1000);
    assert_eq!(brain.energy, 5000);
}

#[test]
fn one_disturbance_moves_the_state_exactly() {
    let mut brain = InternalStateField::new();
    // (0.9, 0.1, 0.9): shock 0.81, calm 0.01.
    let d = Disturbance::new(9000, 1000, 9000);
    brain.apply_disturbance(&d);
    assert_eq!(brain.tension, 6620);
    assert_eq!(brain.stability, 1005);
    assert_eq!(brain.energy, 5495);
    assert_eq!(brain.memory.len(), 1);
    assert_eq!(brain.biases.attractors.len(), 1);
    let attractor = brain.biases.attractors[0];
    assert_eq!(attractor.dt_pref, 162);
    assert_eq!(attractor.ds_pref, 0);
    assert_eq!(attractor.de_pref, 49);
    assert_eq!(attractor.strength, 500);
    let trace = brain.memory[0];
    assert_eq!(trace.tension_before, 5000);
    assert_eq!(trace.tension_after, 6620);
    assert_eq!(trace.disturbance, d);
}

#[test]
fn trace_tick_replays_a_fifth_of_the_nearest_trace() {
    let mut brain = InternalStateField::new();
    brain.apply_disturbance(&Disturbance::new(9000, 1000, 9000));
    brain.replay_mode = ReplayMode::TraceBased;
    brain.internal_thinking_tick();
    assert_eq!(brain.tension, 6944);
    assert_eq!(brain.stability, 1006);
    assert_eq!(brain.energy, 5594);
    // The attractor decays each tick regardless of mode.
    assert_eq!(brain.biases.attractors[0].strength, 497);
}

#[test]
fn bias_tick_drifts_along_the_dominant_attractor() {
    let mut brain = InternalStateField::new();
    brain.apply_disturbance(&Disturbance::new(9000, 1000, 9000));
    brain.internal_thinking_tick();
    // The single young attractor is too shallow to move the state yet.
    assert_eq!(brain.tension, 6620);
    assert_eq!(brain.stability, 1005);
    assert_eq!(brain.energy, 5495);
    assert_eq!(brain.biases.attractors[0].strength, 497);
}

#[test]
fn homeostasis_consolidates_and_rebalances() {
    let mut brain = InternalStateField::new();
    brain.tension = 3000;
    brain.energy = 9000;
    brain.internal_thinking_tick();
    assert_eq!(brain.tension, 3000);
    assert_eq!(brain.stability, 1100);
    assert_eq!(brain.energy, 8900);
}

#[test]
fn dominant_strength_strictly_increases_under_repetition() {
    let mut brain = InternalStateField::new();
    let d = Disturbance::new(6000, 10000, 2000);
    let mut last = 0i64;
    for _ in 0..10 {
        brain.apply_disturbance(&d);
        let s = brain.biases.dominant().unwrap().strength;
        assert!(s > last || (s == 10000 && last == 10000));
        last = s;
    }
}

#[test]
fn scalars_stay_bounded_under_mixed_history() {
    let mut brain = InternalStateField::new();
    let events = vec![
        Disturbance::new(10000, 0, 10000),
        Disturbance::new(0, 1_000_000_000, 0),
        Disturbance::new(10000, 1_000_000_000, 10000),
        Disturbance::new(0, 0, 0),
        Disturbance::new(5000, 20000, 5000),
    ];
    for round in 0..20 {
        for d in events.iter() {
            brain.apply_disturbance(d);
            check_bounds(&brain);
        }
        brain.replay_mode = if round % 2 == 0 {
            ReplayMode::TraceBased
        } else {
            ReplayMode::StructuralBias
        };
        for _ in 0..5 {
            brain.internal_thinking_tick();
            check_bounds(&brain);
        }
    }
}

fn check_bounds(brain: &InternalStateField) {
    assert!(0 <= brain.tension && brain.tension <= 15000);
    assert!(0 <= brain.stability && brain.stability <= 10000);
    assert!(0 <= brain.energy && brain.energy <= 10000);
    assert!(500 <= brain.shock_sensitivity && brain.shock_sensitivity <= 5000);
    assert!(100 <= brain.stability_gain_rate && brain.stability_gain_rate <= 2000);
    assert!(500 <= brain.energy_gain_rate && brain.energy_gain_rate <= 3000);
    for a in brain.biases.attractors.iter() {
        assert!(0 <= a.strength && a.strength <= 10000);
    }
}

#[test]
fn mixed_experience_forms_calm_and_shock_attractors() {
    let mut brain = InternalStateField::new();
    let calm = Disturbance::new(3000, 30000, 1000);
    let shock = Disturbance::new(9000, 2000, 9000);
    for _ in 0..10 {
        brain.apply_disturbance(&calm);
    }
    for _ in 0..3 {
        brain.apply_disturbance(&shock);
    }
    // The calm repetitions reinforce one attractor ten times; the brief
    // shocks spawn a second basin of their own, merged into one attractor
    // by consolidation.
    assert_eq!(brain.biases.attractors.len(), 2);
    let dominant = brain.biases.dominant().unwrap();
    assert_eq!(dominant.strength, 5000);
    assert!(dominant.ds_pref > 0);
}

#[test]
fn validated_rejects_out_of_range_values() {
    assert_eq!(Disturbance::validated(-1, 0, 0), Err(InvalidDisturbance));
    assert_eq!(Disturbance::validated(10001, 0, 0), Err(InvalidDisturbance));
    assert_eq!(Disturbance::validated(0, -1, 0), Err(InvalidDisturbance));
    assert_eq!(Disturbance::validated(0, 1_000_000_001, 0), Err(InvalidDisturbance));
    assert_eq!(Disturbance::validated(0, 0, -1), Err(InvalidDisturbance));
    assert_eq!(Disturbance::validated(0, 0, 10001), Err(InvalidDisturbance));
    let d = Disturbance::validated(9000, 1000, 9000).unwrap();
    assert_eq!(d.intensity, 9000);
    assert_eq!(d.duration, 1000);
    assert_eq!(d.suddenness, 9000);
}
