use ernst::nodelib::logic_gates::{AND, COPY, NAND, NOR, NOT, OR, XNOR, XOR};
use ernst::spin_network::SpinNetwork;

fn e(x: f32) -> u32 {
    x.to_bits()
}

fn states(pairs: Vec<(f32, Vec<bool>)>) -> Vec<(u32, Vec<bool>)> {
    pairs.into_iter().map(|(x, s)| (e(x), s)).collect()
}

#[test]
fn test_copy() {
    let mut spin_network = SpinNetwork::new();
    let s0 = spin_network.add_input_node(e(0.0));
    let copy_gate = COPY::new(e(0.0));
    let z = spin_network.add_unary_node(s0, &copy_gate);

    let actual_ground_states = spin_network.find_all_ground_states(Some(vec![s0, z])).unwrap();
    let expected_ground_states = states(vec![(-1.0, vec![false, false]), (-1.0, vec![true, true])]);

    assert_eq!(expected_ground_states, actual_ground_states)
}

#[test]
fn test_not() {
    let mut spin_network = SpinNetwork::new();
    let s0 = spin_network.add_input_node(e(0.0));
    let not_gate = NOT::default();
    let z = spin_network.add_unary_node(s0, &not_gate);

    let actual_ground_states = spin_network.find_all_ground_states(Some(vec![s0, z])).unwrap();
    let expected_ground_states = states(vec![(-1.0, vec![true, false]), (-1.0, vec![false, true])]);

    assert_eq!(expected_ground_states, actual_ground_states)
}

#[test]
fn test_and() {
    let mut spin_network = SpinNetwork::new();
    let s0 = spin_network.add_input_node(e(0.0));
    let s1 = spin_network.add_input_node(e(0.0));
    let and_gate = AND::default();
    let z = spin_network.add_binary_node(s0, s1, &and_gate);

    let actual_ground_states = spin_network.find_all_ground_states(Some(vec![s0, s1, z])).unwrap();
    let expected_ground_states = states(vec![
        (-3.5, vec![false, false, false]),
        (-3.5, vec![true, false, false]),
        (-3.5, vec![true, true, true]),
        (-3.5, vec![false, true, false]),
    ]);

    assert_eq!(expected_ground_states, actual_ground_states)
}

#[test]
fn test_or() {
    let mut spin_network = SpinNetwork::new();
    let s0 = spin_network.add_input_node(e(0.0));
    let s1 = spin_network.add_input_node(e(0.0));
    let or_gate = OR::default();
    let z = spin_network.add_binary_node(s0, s1, &or_gate);

    let actual_ground_states = spin_network.find_all_ground_states(Some(vec![s0, s1, z])).unwrap();
    let expected_ground_states = states(vec![
        (-3.5, vec![false, false, false]),
        (-3.5, vec![true, false, true]),
        (-3.5, vec![true, true, true]),
        (-3.5, vec![false, true, true]),
    ]);

    assert_eq!(expected_ground_states, actual_ground_states)
}

#[test]
fn test_nand() {
    let mut spin_network = SpinNetwork::new();
    let s0 = spin_network.add_input_node(e(0.0));
    let s1 = spin_network.add_input_node(e(0.0));
    let nand_gate = NAND::default();
    let z = spin_network.add_binary_node(s0, s1, &nand_gate);

    let actual_ground_states = spin_network.find_all_ground_states(Some(vec![s0, s1, z])).unwrap();
    let expected_ground_states = states(vec![
        (-3.5, vec![false, false, true]),
        (-3.5, vec![true, false, true]),
        (-3.5, vec![true, true, false]),
        (-3.5, vec![false, true, true]),
    ]);

    assert_eq!(expected_ground_states, actual_ground_states)
}

#[test]
fn test_nor() {
    let mut spin_network = SpinNetwork::new();
    let s0 = spin_network.add_input_node(e(0.0));
    let s1 = spin_network.add_input_node(e(0.0));
    let nand_gate = NOR::default();
    let z = spin_network.add_binary_node(s0, s1, &nand_gate);

    let actual_ground_states = spin_network.find_all_ground_states(Some(vec![s0, s1, z])).unwrap();
    let expected_ground_states = states(vec![
        (-3.5, vec![false, false, true]),
        (-3.5, vec![true, false, false]),
        (-3.5, vec![true, true, false]),
        (-3.5, vec![false, true, false]),
    ]);

    assert_eq!(expected_ground_states, actual_ground_states)
}

#[test]
fn test_xor() {
    let mut spin_network = SpinNetwork::new();
    let s0 = spin_network.add_input_node(e(0.0));
    let s1 = spin_network.add_input_node(e(0.0));
    let xor_gate = XOR::default();
    let z = spin_network.add_binary_node(s0, s1, &xor_gate);

    let actual_ground_states = spin_network.find_all_ground_states(Some(vec![s0, s1, z])).unwrap();
    let expected_ground_states = states(vec![
        (-4.0, vec![false, false, false]),
        (-4.0, vec![true, false, true]),
        (-4.0, vec![true, true, false]),
        (-4.0, vec![false, true, true]),
    ]);

    assert_eq!(expected_ground_states, actual_ground_states)
}

#[test]
fn test_xnor() {
    let mut spin_network = SpinNetwork::new();
    let s0 = spin_network.add_input_node(e(0.0));
    let s1 = spin_network.add_input_node(e(0.0));
    let xnor_gate = XNOR::default();
    let z = spin_network.add_binary_node(s0, s1, &xnor_gate);

    let actual_ground_states = spin_network.find_all_ground_states(Some(vec![s0, s1, z])).unwrap();
    let expected_ground_states = states(vec![
        (-4.0, vec![false, false, true]),
        (-4.0, vec![true, false, false]),
        (-4.0, vec![true, true, true]),
        (-4.0, vec![false, true, false]),
    ]);

    assert_eq!(expected_ground_states, actual_ground_states)
}

#[test]
fn test_ternary_or() {
    let mut spin_network = SpinNetwork::new();
    let s0 = spin_network.add_input_node(e(0.0));
    let s1 = spin_network.add_input_node(e(0.0));
    let s2 = spin_network.add_input_node(e(0.0));
    let or_gate = OR::default();
    let z_aux = spin_network.add_binary_node(s0, s1, &or_gate);
    let z = spin_network.add_binary_node(z_aux, s2, &or_gate);

    let actual_ground_states =
        spin_network.find_all_ground_states(Some(vec![s0, s1, s2, z])).unwrap();
    let expected_ground_states = states(vec![
        (-7.0, vec![false, false, false, false]),
        (-7.0, vec![true, false, false, true]),
        (-7.0, vec![true, true, false, true]),
        (-7.0, vec![false, true, false, true]),
        (-7.0, vec![false, true, true, true]),
        (-7.0, vec![true, true, true, true]),
        (-7.0, vec![true, false, true, true]),
        (-7.0, vec![false, false, true, true]),
    ]);

    assert_eq!(expected_ground_states, actual_ground_states)
}

#[test]
fn inverted_problem_flips_every_sign() {
    let mut spin_network = SpinNetwork::new();
    let s0 = spin_network.add_input_node(e(0.5));
    let s1 = spin_network.add_input_node(e(-1.0));
    spin_network.interactions.push((s0, s1, e(0.75)));

    assert_eq!(spin_network.inverted_external_magnetic_field(), vec![e(-0.5), e(1.0)]);
    assert_eq!(spin_network.inverted_interactions(), vec![(s0, s1, e(-0.75))]);
}
