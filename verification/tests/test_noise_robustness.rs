use project_newborn::disturbance::Disturbance;
use project_newborn::isf::InternalStateField;

#[test]
fn bias_smooths_noisy_experience() {
    let mut brain = InternalStateField::new();

    // (0.8, 0.2, 0.9), (0.2, 3.0, 0.1), (0.7, 0.3, 0.8), (0.3, 2.5, 0.1).
    let noisy = vec![
        Disturbance::new(8000, 2000, 9000),
        Disturbance::new(2000, 30000, 1000),
        Disturbance::new(7000, 3000, 8000),
        Disturbance::new(3000, 25000, 1000),
    ];

    for d in noisy.iter() {
        brain.apply_disturbance(d);
    }

    let before = brain.tension;

    for _ in 0..100 {
        brain.internal_thinking_tick();
    }

    let after = brain.tension;

    // At most 0.2 of tension drift over the hundred ticks.
    assert!((after - before).abs() < 2000, "Bias replay caused unstable drift");
}
