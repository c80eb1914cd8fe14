use ernst::hamiltonian::TwoLocalHamiltonian;
use ernst::types::IsingError;

fn e(x: f32) -> u32 {
    x.to_bits()
}

fn f(x: u32) -> f32 {
    f32::from_bits(x)
}

#[test]
fn test_total_energy() {
    let interactions = vec![(0, 1, e(-1.0)), (1, 2, e(2.0)), (0, 2, e(2.0))];
    let external_magnetic_field = vec![e(-1.0), e(-1.0), e(-3.0)];

    let mut hamiltonian =
        TwoLocalHamiltonian::new(interactions, external_magnetic_field, None).unwrap();

    assert_eq!(e(-8.0), hamiltonian.current_energy());

    hamiltonian.flip_spin(0);
    assert_eq!(e(-4.0), hamiltonian.current_energy());

    hamiltonian.flip_spin(1);
    assert_eq!(e(4.0), hamiltonian.current_energy());

    hamiltonian.flip_spin(2);
    assert_eq!(e(2.0), hamiltonian.current_energy());
}

#[test]
fn energy_matches_direct_sum_after_flips() {
    // The incremental energy agrees with a from-scratch Ising sum over the
    // final configuration, within the single-precision machine epsilon
    // scaled by the magnitude of the sum.
    let couplings = [
        (0usize, 1usize, 0.75f32),
        (0, 2, -1.25),
        (1, 3, 2.5),
        (2, 3, -0.375),
        (1, 2, 1.5),
    ];
    let field = [0.5f32, -1.0, 0.25, -2.0];
    let interactions: Vec<(usize, usize, u32)> =
        couplings.iter().map(|&(i, j, c)| (i, j, e(c))).collect();
    let h_bits: Vec<u32> = field.iter().map(|&x| e(x)).collect();
    let mut hamiltonian = TwoLocalHamiltonian::new(interactions, h_bits, None).unwrap();

    let flips = [0usize, 2, 3, 2, 1, 0, 3, 3];
    let mut spins = [false; 4];
    for &i in flips.iter() {
        hamiltonian.flip_spin(i);
        spins[i] = !spins[i];
    }

    let sigma = |b: bool| if b { 1.0f32 } else { -1.0f32 };
    let mut direct = 0.0f32;
    for &(i, j, c) in couplings.iter() {
        direct -= c * sigma(spins[i]) * sigma(spins[j]);
    }
    for (i, &h) in field.iter().enumerate() {
        direct -= h * sigma(spins[i]);
    }

    let incremental = f(hamiltonian.current_energy());
    let tolerance = f32::EPSILON * (1.0 + direct.abs());
    assert!((incremental - direct).abs() <= tolerance);
}

#[test]
fn flip_twice_restores_energy() {
    // Flipping the same spin twice restores the energy exactly on this
    // problem, and the configuration always.
    let interactions = vec![(0, 1, e(1.0)), (1, 2, e(-0.5)), (0, 2, e(0.25))];
    let field = vec![e(0.5), e(-1.5), e(2.0)];
    let mut hamiltonian = TwoLocalHamiltonian::new(interactions, field, None).unwrap();

    let before = hamiltonian.current_energy();
    hamiltonian.flip_spin(1);
    hamiltonian.flip_spin(1);
    assert_eq!(before, hamiltonian.current_energy());
}

#[test]
fn initial_state_is_respected() {
    let interactions = vec![(0, 1, e(1.0))];
    let field = vec![e(0.0), e(0.0)];
    let mut hamiltonian = TwoLocalHamiltonian::new(
        interactions,
        field,
        Some(vec![true, false]),
    )
    .unwrap();
    // Anti-aligned spins under a ferromagnetic coupling: energy +1.
    assert_eq!(e(1.0), hamiltonian.current_energy());
    hamiltonian.flip_spin(1);
    // Aligned: energy -1.
    assert_eq!(e(-1.0), hamiltonian.current_energy());
}

#[test]
fn empty_problem_is_rejected() {
    let r = TwoLocalHamiltonian::new(vec![], vec![], None);
    assert_eq!(r.err(), Some(IsingError::EmptyProblem));
}

#[test]
fn field_length_mismatch_is_rejected() {
    let r = TwoLocalHamiltonian::new(vec![(0, 1, e(1.0))], vec![e(0.0)], None);
    assert_eq!(r.err(), Some(IsingError::ShapeMismatch));
}

#[test]
fn initial_state_length_mismatch_is_rejected() {
    let r = TwoLocalHamiltonian::new(
        vec![(0, 1, e(1.0))],
        vec![e(0.0), e(0.0)],
        Some(vec![false]),
    );
    assert_eq!(r.err(), Some(IsingError::ShapeMismatch));
}

#[test]
fn self_coupling_is_rejected() {
    let r = TwoLocalHamiltonian::new(vec![(1, 1, e(1.0))], vec![e(0.0), e(0.0)], None);
    assert_eq!(r.err(), Some(IsingError::MalformedInteraction));
}

#[test]
fn duplicate_pair_is_rejected() {
    let r = TwoLocalHamiltonian::new(
        vec![(0, 1, e(1.0)), (1, 0, e(2.0))],
        vec![e(0.0), e(0.0)],
        None,
    );
    assert_eq!(r.err(), Some(IsingError::MalformedInteraction));
}
