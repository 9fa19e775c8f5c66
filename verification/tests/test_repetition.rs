use project_newborn::disturbance::Disturbance;
use project_newborn::isf::InternalStateField;

#[test]
fn repeated_experience_builds_stronger_bias() {
    let mut brain = InternalStateField::new();
    // (0.6, 1.0, 0.2) in fixed-point units.
    let d = Disturbance::new(6000, 10000, 2000);

    for _ in 0..10 {
        brain.apply_disturbance(&d);
    }

    let dominant = brain.biases.dominant().unwrap();

    // Stronger than 0.4 after ten repetitions.
    assert!(dominant.strength > 4000, "Bias did not strengthen with repetition");
}
