use project_newborn::bias::BiasField;
use project_newborn::bias::BiasRepertoire;
use project_newborn::bias::EmptyRepertoireError;

#[test]
fn similarity_is_the_l1_distance_to_the_candidate() {
    let b = BiasField {
        dt_pref: 100,
        ds_pref: -50,
        de_pref: 0,
        strength: 500,
    };
    assert_eq!(b.similarity(200, 50, -25), 100 + 100 + 25);
    assert_eq!(b.similarity(100, -50, 0), 0);
}

#[test]
fn distance_is_the_l1_distance_between_directions() {
    let a = BiasField {
        dt_pref: 100,
        ds_pref: 0,
        de_pref: 0,
        strength: 500,
    };
    let b = BiasField {
        dt_pref: -100,
        ds_pref: 30,
        de_pref: 0,
        strength: 9000,
    };
    assert_eq!(a.distance(&b), 230);
}

#[test]
fn reinforce_moves_direction_a_tenth_and_adds_strength() {
    let mut b = BiasField::new();
    b.reinforce(1620, 5, -495);
    assert_eq!(b.dt_pref, 162);
    assert_eq!(b.ds_pref, 0);
    assert_eq!(b.de_pref, -49);
    assert_eq!(b.strength, 500);
}

#[test]
fn strength_saturates_at_one() {
    let mut b = BiasField {
        dt_pref: 0,
        ds_pref: 0,
        de_pref: 0,
        strength: 9900,
    };
    b.reinforce(0, 0, 0);
    assert_eq!(b.strength, 10000);
    b.reinforce(0, 0, 0);
    assert_eq!(b.strength, 10000);
}

#[test]
fn decay_keeps_almost_all_of_the_strength() {
    let mut b = BiasField {
        dt_pref: 7,
        ds_pref: 0,
        de_pref: 0,
        strength: 10000,
    };
    b.decay();
    assert_eq!(b.strength, 9950);
    assert_eq!(b.dt_pref, 7);
}

#[test]
fn merge_averages_directions_by_strength_and_deepens() {
    let mut a = BiasField {
        dt_pref: 100,
        ds_pref: 0,
        de_pref: 0,
        strength: 500,
    };
    let b = BiasField {
        dt_pref: 300,
        ds_pref: 0,
        de_pref: 0,
        strength: 1500,
    };
    a.merge(&b);
    assert_eq!(a.dt_pref, 250);
    assert_eq!(a.strength, 2000);
}

#[test]
fn merge_of_two_empty_attractors_keeps_the_direction() {
    let mut a = BiasField {
        dt_pref: 40,
        ds_pref: -10,
        de_pref: 3,
        strength: 0,
    };
    let b = BiasField::new();
    a.merge(&b);
    assert_eq!(a.dt_pref, 40);
    assert_eq!(a.ds_pref, -10);
    assert_eq!(a.de_pref, 3);
    assert_eq!(a.strength, 0);
}

#[test]
fn dominant_of_an_empty_repertoire_is_an_error() {
    let rep = BiasRepertoire::new();
    assert_eq!(rep.dominant(), Err(EmptyRepertoireError));
}

#[test]
fn dominant_picks_the_strongest_and_earliest_on_a_tie() {
    let rep = BiasRepertoire {
        attractors: vec![
            BiasField { dt_pref: 1, ds_pref: 0, de_pref: 0, strength: 400 },
            BiasField { dt_pref: 2, ds_pref: 0, de_pref: 0, strength: 900 },
            BiasField { dt_pref: 3, ds_pref: 0, de_pref: 0, strength: 900 },
        ],
    };
    assert_eq!(rep.dominant().unwrap().dt_pref, 2);
}

#[test]
fn matching_experience_reinforces_instead_of_spawning() {
    let mut rep = BiasRepertoire::new();
    rep.record_experience(1620, 5, 495);
    assert_eq!(rep.attractors.len(), 1);
    assert_eq!(rep.attractors[0].strength, 500);
    rep.record_experience(1620, 5, 495);
    assert_eq!(rep.attractors.len(), 1);
    assert_eq!(rep.attractors[0].dt_pref, 324);
    assert_eq!(rep.attractors[0].de_pref, 98);
    assert_eq!(rep.attractors[0].strength, 1000);
}

#[test]
fn distant_experience_spawns_a_new_attractor() {
    let mut rep = BiasRepertoire::new();
    rep.record_experience(9000, 0, 0);
    rep.record_experience(-9000, 0, 0);
    assert_eq!(rep.attractors.len(), 2);
    assert_eq!(rep.attractors[0].dt_pref, 900);
    assert_eq!(rep.attractors[1].dt_pref, -900);
}

#[test]
fn consolidation_merges_near_duplicates() {
    let mut rep = BiasRepertoire {
        attractors: vec![
            BiasField { dt_pref: 100, ds_pref: 0, de_pref: 0, strength: 500 },
            BiasField { dt_pref: 5000, ds_pref: 0, de_pref: 0, strength: 700 },
            BiasField { dt_pref: 300, ds_pref: 0, de_pref: 0, strength: 1500 },
        ],
    };
    rep.consolidate();
    assert_eq!(rep.attractors.len(), 2);
    assert_eq!(rep.attractors[0].dt_pref, 250);
    assert_eq!(rep.attractors[0].strength, 2000);
    assert_eq!(rep.attractors[1].dt_pref, 5000);
}

#[test]
fn decay_all_touches_every_attractor() {
    let mut rep = BiasRepertoire {
        attractors: vec![
            BiasField { dt_pref: 1, ds_pref: 0, de_pref: 0, strength: 10000 },
            BiasField { dt_pref: 2, ds_pref: 0, de_pref: 0, strength: 100 },
        ],
    };
    rep.decay_all();
    assert_eq!(rep.attractors[0].strength, 9950);
    assert_eq!(rep.attractors[1].strength, 99);
}
