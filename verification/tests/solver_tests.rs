use std::collections::HashSet;

use ernst::solvers::{
    bit_position_changed, find_all_ground_states, gray_code, simulated_annealing,
    SimulatedAnnealingConfiguration,
};
use ernst::types::IsingError;

fn e(x: f32) -> u32 {
    x.to_bits()
}

fn f(x: u32) -> f32 {
    f32::from_bits(x)
}

fn states(pairs: Vec<(f32, Vec<bool>)>) -> Vec<(u32, Vec<bool>)> {
    pairs.into_iter().map(|(x, s)| (e(x), s)).collect()
}

#[test]
fn test_compute_all_states_and() {
    let s1 = 0;
    let s2 = 1;
    let s3 = 2;
    let s1_s3 = (s1, s3, e(1.0));
    let s2_s3 = (s2, s3, e(1.0));
    let s1_s2 = (s1, s2, e(-0.5));
    let interactions = vec![s1_s2, s1_s3, s2_s3];
    let external_magnetic_field = vec![e(0.5), e(0.5), e(-1.0)];
    let actual_states = find_all_ground_states(&interactions, &external_magnetic_field).unwrap();
    let expected_states = states(vec![
        (-1.5, vec![false, false, false]),
        (-1.5, vec![true, false, false]),
        (-1.5, vec![false, true, false]),
        (-1.5, vec![true, true, true]),
    ]);

    assert_eq!(expected_states, actual_states)
}

#[test]
fn test_compute_all_states_copy() {
    let s1 = 0;
    let s2 = 1;
    let interactions = vec![(s1, s2, e(1.0))];
    let external_magnetic_field = vec![e(0.0), e(0.0)];
    let actual_states = find_all_ground_states(&interactions, &external_magnetic_field).unwrap();
    let expected_states = states(vec![(-1.0, vec![false, false]), (-1.0, vec![true, true])]);

    assert_eq!(expected_states, actual_states)
}

#[test]
fn test_compute_all_states_copy_copy_copy() {
    let interactions = vec![(0, 1, e(1.0)), (1, 2, e(1.0)), (2, 3, e(1.0))];
    let external_magnetic_field = vec![e(0.0), e(0.0), e(0.0), e(0.0)];
    let actual_states = find_all_ground_states(&interactions, &external_magnetic_field).unwrap();
    let expected_states = states(vec![
        (-3.0, vec![false, false, false, false]),
        (-3.0, vec![true, true, true, true]),
    ]);

    assert_eq!(expected_states, actual_states)
}

#[test]
fn test_compute_all_states_copy_and_then_and() {
    let s1 = 0;
    let s1_prime = 1;
    let s2 = 2;
    let s2_prime = 3;
    let s3 = 4;
    let s3_prime = 5;
    let mut interactions = vec![(s1, s1_prime, e(1.0)), (s2, s2_prime, e(1.0))];
    interactions.push((s1_prime, s2_prime, e(-0.5)));
    interactions.push((s1_prime, s3, e(1.0)));
    interactions.push((s2_prime, s3, e(1.0)));
    interactions.push((s3, s3_prime, e(1.0)));
    let external_magnetic_field = vec![e(0.0), e(0.5), e(0.0), e(0.5), e(-1.0), e(0.0)];
    let actual_states = find_all_ground_states(&interactions, &external_magnetic_field).unwrap();
    let expected_states = states(vec![
        (-4.5, vec![false, false, false, false, false, false]),
        (-4.5, vec![true, true, false, false, false, false]),
        (-4.5, vec![false, false, true, true, false, false]),
        (-4.5, vec![true, true, true, true, true, true]),
    ]);

    assert_eq!(expected_states, actual_states)
}

#[test]
fn test_compute_all_states_or() {
    let s1 = 0;
    let s2 = 1;
    let s3 = 2;
    let s1_s3 = (s1, s3, e(1.0));
    let s2_s3 = (s2, s3, e(1.0));
    let s1_s2 = (s1, s2, e(-0.5));
    let interactions = vec![s1_s3, s2_s3, s1_s2];
    let external_magnetic_field = vec![e(-0.5), e(-0.5), e(1.0)];
    let actual_states = find_all_ground_states(&interactions, &external_magnetic_field).unwrap();
    let expected_states = states(vec![
        (-1.5, vec![false, false, false]),
        (-1.5, vec![false, true, true]),
        (-1.5, vec![true, true, true]),
        (-1.5, vec![true, false, true]),
    ]);

    assert_eq!(expected_states, actual_states)
}

#[test]
fn test_compute_all_states_ternary_or_chain() {
    let s1 = 0;
    let s2 = 1;
    let s3 = 2;
    let s3_prime = 3;
    let s4 = 4;
    let s5 = 5;
    let interactions = vec![
        (s1, s2, e(-0.5)),
        (s1, s3, e(1.0)),
        (s2, s3, e(1.0)),
        (s3, s3_prime, e(1.0)),
        (s3_prime, s4, e(-0.5)),
        (s4, s5, e(1.0)),
        (s3_prime, s5, e(1.0)),
    ];
    let external_magnetic_field = vec![e(-0.5), e(-0.5), e(1.0), e(-0.5), e(-0.5), e(1.0)];
    let actual_states = find_all_ground_states(&interactions, &external_magnetic_field).unwrap();
    let expected_states = states(vec![
        (-4.0, vec![false, false, false, false, false, false]),
        (-4.0, vec![false, false, false, false, true, true]),
        (-4.0, vec![true, false, true, true, true, true]),
        (-4.0, vec![true, true, true, true, true, true]),
        (-4.0, vec![false, true, true, true, true, true]),
        (-4.0, vec![false, true, true, true, false, true]),
        (-4.0, vec![true, true, true, true, false, true]),
        (-4.0, vec![true, false, true, true, false, true]),
    ]);

    assert_eq!(expected_states, actual_states)
}

#[test]
fn test_simulated_annealing_chained_or() {
    let s1 = 0;
    let s2 = 1;
    let s3 = 2;
    let s3_prime = 3;
    let s4 = 4;
    let s5 = 5;
    let interactions = vec![
        (s1, s2, e(-0.5)),
        (s1, s3, e(1.0)),
        (s2, s3, e(1.0)),
        (s3, s3_prime, e(1.0)),
        (s3_prime, s4, e(-0.5)),
        (s4, s5, e(1.0)),
        (s3_prime, s5, e(1.0)),
    ];
    let external_magnetic_field = vec![e(-0.5), e(-0.5), e(1.0), e(-0.5), e(-0.5), e(1.0)];
    let simulated_annealing_configuration = SimulatedAnnealingConfiguration {
        initial_temperature: e(1.0),
        final_temperature: e(0.001),
        sweeps: 10000,
        seed: 42,
        trace: false,
    };
    let actual_states: HashSet<Vec<bool>> = simulated_annealing(
        &interactions,
        &external_magnetic_field,
        Some(&simulated_annealing_configuration),
    )
    .unwrap()
    .into_iter()
    .map(|(_energy, state, _epoch)| state)
    .collect();

    let expected_states: HashSet<Vec<bool>> = vec![
        vec![false, false, false, false, false, false],
        vec![false, false, false, false, true, true],
        vec![true, false, true, true, true, true],
        vec![true, true, true, true, true, true],
        vec![false, true, true, true, true, true],
        vec![false, true, true, true, false, true],
        vec![true, true, true, true, false, true],
        vec![true, false, true, true, false, true],
    ]
    .into_iter()
    .collect();

    let actual_diff = expected_states.difference(&actual_states).collect::<Vec<_>>();
    let expected_diff: Vec<&Vec<bool>> = vec![];
    assert_eq!(actual_diff, expected_diff);
}

#[test]
fn gray_code_values() {
    assert_eq!(gray_code(0), 0);
    assert_eq!(gray_code(1), 1);
    assert_eq!(gray_code(2), 3);
    assert_eq!(gray_code(3), 2);
    assert_eq!(gray_code(4), 6);
}

#[test]
fn consecutive_gray_codes_differ_in_one_bit() {
    for i in 1usize..1024 {
        let d = gray_code(i - 1) ^ gray_code(i);
        assert!(d != 0 && d & (d - 1) == 0);
        let bit = bit_position_changed(gray_code(i - 1), gray_code(i)).unwrap();
        assert_eq!(d, 1usize << bit);
    }
    assert_eq!(bit_position_changed(5, 5), None);
    assert_eq!(bit_position_changed(4, 5), Some(0));
}

#[test]
fn field_only_problem_is_valid() {
    // No interactions at all: the field alone fixes the ground state.
    let actual = find_all_ground_states(&vec![], &vec![e(2.0)]).unwrap();
    assert_eq!(actual, states(vec![(-2.0, vec![true])]));
}

#[test]
fn solvers_reject_invalid_problems() {
    assert_eq!(
        find_all_ground_states(&vec![], &vec![]).err(),
        Some(IsingError::EmptyProblem)
    );
    assert_eq!(
        find_all_ground_states(&vec![(0, 0, e(1.0))], &vec![e(0.0)]).err(),
        Some(IsingError::MalformedInteraction)
    );
    assert_eq!(
        simulated_annealing(&vec![(0, 1, e(1.0)), (0, 1, e(1.0))], &vec![e(0.0), e(0.0)], None)
            .err(),
        Some(IsingError::MalformedInteraction)
    );
    assert_eq!(
        simulated_annealing(&vec![(0, 1, e(1.0))], &vec![e(0.0)], None).err(),
        Some(IsingError::ShapeMismatch)
    );
}

#[test]
fn annealing_is_deterministic() {
    // Two runs on the same problem and configuration are identical, bit for
    // bit and epoch for epoch.
    let interactions = vec![(0, 1, e(1.0)), (1, 2, e(-0.5)), (0, 2, e(0.75))];
    let field = vec![e(0.25), e(-0.5), e(1.0)];
    let config = SimulatedAnnealingConfiguration {
        initial_temperature: e(10.0),
        final_temperature: e(0.01),
        sweeps: 2000,
        seed: 7,
        trace: false,
    };
    let first = simulated_annealing(&interactions, &field, Some(&config)).unwrap();
    let second = simulated_annealing(&interactions, &field, Some(&config)).unwrap();
    assert_eq!(first, second);
}

#[test]
fn annealing_keeps_only_ties_with_best() {
    // Without trace, every returned energy ties with the best retained
    // energy within machine epsilon, the returned states are distinct, and
    // the energies are non-increasing in epoch order.
    let interactions = vec![(0, 1, e(1.0)), (1, 2, e(1.0))];
    let field = vec![e(0.0), e(0.0), e(0.0)];
    let config = SimulatedAnnealingConfiguration {
        initial_temperature: e(2.0),
        final_temperature: e(0.001),
        sweeps: 5000,
        seed: 3,
        trace: false,
    };
    let result = simulated_annealing(&interactions, &field, Some(&config)).unwrap();
    assert!(!result.is_empty());
    let best = result
        .iter()
        .map(|&(energy, _, _)| f(energy))
        .fold(f32::INFINITY, f32::min);
    let mut seen: Vec<&Vec<bool>> = Vec::new();
    let mut previous = f32::INFINITY;
    let mut previous_epoch = 0usize;
    for (energy, state, epoch) in result.iter() {
        assert!((f(*energy) - best).abs() <= f32::EPSILON);
        assert!(!seen.contains(&state));
        seen.push(state);
        assert!(f(*energy) <= previous || (f(*energy) - previous).abs() <= f32::EPSILON);
        assert!(*epoch >= previous_epoch);
        previous = f(*energy);
        previous_epoch = *epoch;
    }
}

#[test]
fn annealing_trace_keeps_improving_history() {
    // With trace, the retained sequence keeps every improving state; its
    // energies still end at the best one.
    let interactions = vec![(0, 1, e(1.0)), (1, 2, e(1.0))];
    let field = vec![e(0.5), e(0.0), e(-0.5)];
    let config = SimulatedAnnealingConfiguration {
        initial_temperature: e(2.0),
        final_temperature: e(0.001),
        sweeps: 3000,
        seed: 11,
        trace: true,
    };
    let result = simulated_annealing(&interactions, &field, Some(&config)).unwrap();
    assert!(!result.is_empty());
    let best = result
        .iter()
        .map(|&(energy, _, _)| f(energy))
        .fold(f32::INFINITY, f32::min);
    let last = f(result.last().unwrap().0);
    assert!((last - best).abs() <= f32::EPSILON);
    let mut previous_epoch = 0usize;
    for (_, _, epoch) in result.iter() {
        assert!(*epoch >= previous_epoch);
        previous_epoch = *epoch;
    }
}

#[test]
fn annealing_crosses_energy_barriers() {
    // Both aligned configurations of a strongly coupled pair are ground
    // states, but they are separated by a +40 energy barrier.  At a held
    // temperature of 10 the Boltzmann factor exp(-dE / T) accepts enough
    // uphill moves to cross it.
    let interactions = vec![(0, 1, e(10.0))];
    let field = vec![e(0.0), e(0.0)];
    let config = SimulatedAnnealingConfiguration {
        initial_temperature: e(10.0),
        final_temperature: e(10.0),
        sweeps: 5000,
        seed: 42,
        trace: false,
    };
    let found: HashSet<Vec<bool>> = simulated_annealing(&interactions, &field, Some(&config))
        .unwrap()
        .into_iter()
        .map(|(_, state, _)| state)
        .collect();
    assert!(found.contains(&vec![false, false]));
    assert!(found.contains(&vec![true, true]));
}

#[test]
fn default_configuration_values() {
    let config = SimulatedAnnealingConfiguration::default();
    assert_eq!(f(config.initial_temperature), 273.15);
    assert_eq!(f(config.final_temperature), 0.015);
    assert_eq!(config.sweeps, 1000);
    assert_eq!(config.seed, 42);
    assert!(!config.trace);
}
