use project_newborn::disturbance::Disturbance;
use project_newborn::isf::InternalStateField;

#[test]
fn bias_memory_does_not_grow_unbounded() {
    let mut brain = InternalStateField::new();
    // (0.5, 1.0, 0.3) in fixed-point units.
    let d = Disturbance::new(5000, 10000, 3000);

    for _ in 0..1000 {
        brain.apply_disturbance(&d);
    }

    let dominant = brain.biases.dominant().unwrap();

    // Never above 1.0.
    assert!(dominant.strength <= 10000, "Bias strength exceeded biological limit");
}
