use project_newborn::disturbance::Disturbance;
use project_newborn::isf::InternalStateField;

#[test]
fn dominant_bias_controls_thinking() {
    let mut brain = InternalStateField::new();

    // (0.3, 3.0, 0.1) and (0.9, 0.2, 0.9) in fixed-point units.
    let calm = Disturbance::new(3000, 30000, 1000);
    let shock = Disturbance::new(9000, 2000, 9000);

    for _ in 0..10 {
        brain.apply_disturbance(&calm);
    }

    for _ in 0..3 {
        brain.apply_disturbance(&shock);
    }

    let dominant = brain.biases.dominant().unwrap();

    assert!(dominant.ds_pref.abs() > dominant.dt_pref.abs());
}
