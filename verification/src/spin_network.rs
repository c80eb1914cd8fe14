//! The network builder.
//!
//! A [`SpinNetwork`] accumulates nodes (inputs, auxiliaries, outputs), a
//! growing interaction list and a growing external field; gate compilers
//! plug into it through the node traits and append their fixed coefficient
//! patterns.  The built network is nothing but a flat `(interactions,
//! field)` pair handed to the solvers, with an optional projection of the
//! returned configurations onto chosen spins.

use vstd::prelude::*;
use crate::energy::Energy;
use crate::energy::ZERO;
use crate::energy::neg_of;
use crate::energy::neg_energy;
use crate::solvers::SimulatedAnnealingConfiguration;
use crate::solvers::anneal_model;
use crate::solvers::effective_configuration;
use crate::solvers::exact_model;
use crate::solvers::exact_start;
use crate::solvers::anneal_start;
use crate::solvers::lemma_anneal_run_lens;
use crate::solvers::lemma_exact_run_lens;
use crate::solvers::output_view;
use crate::solvers::triples_view;
use crate::types::BinaryNode;
use crate::types::Epoch;
use crate::types::ExternalMagneticField;
use crate::types::Interactions;
use crate::types::IsingError;
use crate::types::MagneticFieldStrength;
use crate::types::NAryNode;
use crate::types::SpinIndex;
use crate::types::State;
use crate::types::TernaryNode;
use crate::types::UnaryNode;

verus! {

/// The mathematical content of a network: the node index lists, the
/// interaction list, and the field.
#[verifier::ext_equal]
pub ghost struct NetworkView {
    pub inputs: Seq<SpinIndex>,
    pub auxiliaries: Seq<SpinIndex>,
    pub outputs: Seq<SpinIndex>,
    pub interactions: Seq<(SpinIndex, SpinIndex, Energy)>,
    pub field: Seq<Energy>,
}

/// A network with no nodes, no interactions and no field.
pub open spec fn empty_network() -> NetworkView {
    NetworkView {
        inputs: Seq::empty(),
        auxiliaries: Seq::empty(),
        outputs: Seq::empty(),
        interactions: Seq::empty(),
        field: Seq::empty(),
    }
}

/// The network after a fresh unclassified node with zero field, paired
/// with that node's index.
pub open spec fn with_free_node(net: NetworkView) -> (NetworkView, SpinIndex) {
    (NetworkView { field: net.field.push(ZERO), ..net }, net.field.len() as usize)
}

/// The network after a fresh output node with field `h`, paired with that
/// node's index.
pub open spec fn with_output_node(net: NetworkView, h: Energy) -> (NetworkView, SpinIndex) {
    let idx = net.field.len() as usize;
    (NetworkView { outputs: net.outputs.push(idx), field: net.field.push(h), ..net }, idx)
}

/// The network after a fresh auxiliary node with field `h`, paired with
/// that node's index.
pub open spec fn with_auxiliary_node(net: NetworkView, h: Energy) -> (NetworkView, SpinIndex) {
    let idx = net.field.len() as usize;
    (NetworkView { auxiliaries: net.auxiliaries.push(idx), field: net.field.push(h), ..net }, idx)
}

/// The network after a fresh input node with field `h`, paired with that
/// node's index.
pub open spec fn with_input_node(net: NetworkView, h: Energy) -> (NetworkView, SpinIndex) {
    let idx = net.field.len() as usize;
    (NetworkView { inputs: net.inputs.push(idx), field: net.field.push(h), ..net }, idx)
}

/// The contents of an optional spin ordering.
pub open spec fn ordering_view(o: Option<Vec<SpinIndex>>) -> Option<Seq<SpinIndex>> {
    match o {
        Some(v) => Some(v@),
        None => None,
    }
}

/// The solver results projected onto an ordering of chosen spins, when one
/// is given.
pub open spec fn projected_states(
    results: Seq<(Energy, Seq<bool>)>,
    ordering: Option<Seq<SpinIndex>>,
) -> Seq<(Energy, Seq<bool>)> {
    match ordering {
        None => results,
        Some(o) => Seq::new(
            results.len(),
            |i: int| (results[i].0, Seq::new(o.len(), |k: int| results[i].1[o[k] as int])),
        ),
    }
}

/// The annealer results projected onto an ordering of chosen spins, when
/// one is given.
pub open spec fn projected_triples(
    results: Seq<(Energy, Seq<bool>, Epoch)>,
    ordering: Option<Seq<SpinIndex>>,
) -> Seq<(Energy, Seq<bool>, Epoch)> {
    match ordering {
        None => results,
        Some(o) => Seq::new(
            results.len(),
            |i: int| (
                results[i].0,
                Seq::new(o.len(), |k: int| results[i].1[o[k] as int]),
                results[i].2,
            ),
        ),
    }
}

/// A spin glass under construction: nodes, interactions and field.
pub struct SpinNetwork {
    pub input_nodes: Vec<SpinIndex>,
    pub auxiliary_nodes: Vec<SpinIndex>,
    pub output_nodes: Vec<SpinIndex>,
    pub interactions: Interactions,
    pub external_magnetic_field: ExternalMagneticField,
}

impl View for SpinNetwork {
    type V = NetworkView;

    open spec fn view(&self) -> NetworkView {
        NetworkView {
            inputs: self.input_nodes@,
            auxiliaries: self.auxiliary_nodes@,
            outputs: self.output_nodes@,
            interactions: self.interactions@,
            field: self.external_magnetic_field@,
        }
    }
}

impl Default for SpinNetwork {
    /// Returns the empty network.
    fn default() -> (r: SpinNetwork)
        ensures
            r@ == empty_network(),
    {
        SpinNetwork::new()
    }
}

impl SpinNetwork {
    /// Creates a new network with no nodes, interactions or field.
    pub fn new() -> (r: SpinNetwork)
        ensures
            r@ == empty_network(),
    {
        let r = SpinNetwork {
            input_nodes: Vec::new(),
            auxiliary_nodes: Vec::new(),
            output_nodes: Vec::new(),
            interactions: Vec::new(),
            external_magnetic_field: Vec::new(),
        };
        proof {
            assert(r@ =~= empty_network());
        }
        r
    }

    /// Adds an unclassified node with zero field and returns its index.
    fn add_free_node(&mut self) -> (r: SpinIndex)
        ensures
            final(self)@ == with_free_node(old(self)@).0,
            r == with_free_node(old(self)@).1,
            r as int == old(self)@.field.len(),
    {
        self.external_magnetic_field.push(ZERO);
        proof {
            assert(self@ =~= with_free_node(old(self)@).0);
        }
        self.external_magnetic_field.len() - 1
    }

    /// Adds an output node carrying the given field strength and returns
    /// its index.
    pub fn add_output_node(&mut self, magnetic_field_strength: MagneticFieldStrength) -> (r:
        SpinIndex)
        ensures
            final(self)@ == with_output_node(old(self)@, magnetic_field_strength).0,
            r == with_output_node(old(self)@, magnetic_field_strength).1,
            r as int == old(self)@.field.len(),
    {
        let node_index = self.add_free_node();
        self.output_nodes.push(node_index);
        self.external_magnetic_field.set(node_index, magnetic_field_strength);
        proof {
            assert(self@.field =~= with_output_node(old(self)@, magnetic_field_strength).0.field);
            assert(self@ =~= with_output_node(old(self)@, magnetic_field_strength).0);
        }
        node_index
    }

    /// Adds an auxiliary node carrying the given field strength and returns
    /// its index.
    pub fn add_auxiliary_node(&mut self, magnetic_field_strength: MagneticFieldStrength) -> (r:
        SpinIndex)
        ensures
            final(self)@ == with_auxiliary_node(old(self)@, magnetic_field_strength).0,
            r == with_auxiliary_node(old(self)@, magnetic_field_strength).1,
            r as int == old(self)@.field.len(),
    {
        let node_index = self.add_free_node();
        self.auxiliary_nodes.push(node_index);
        self.external_magnetic_field.set(node_index, magnetic_field_strength);
        proof {
            assert(self@.field =~= with_auxiliary_node(
                old(self)@,
                magnetic_field_strength,
            ).0.field);
            assert(self@ =~= with_auxiliary_node(old(self)@, magnetic_field_strength).0);
        }
        node_index
    }

    /// Adds an input node carrying the given field strength and returns its
    /// index.  A positive field biases the input towards the up spin, as a
    /// classical circuit input set to one.
    pub fn add_input_node(&mut self, magnetic_field_strength: MagneticFieldStrength) -> (r:
        SpinIndex)
        ensures
            final(self)@ == with_input_node(old(self)@, magnetic_field_strength).0,
            r == with_input_node(old(self)@, magnetic_field_strength).1,
            r as int == old(self)@.field.len(),
    {
        let node_index = self.add_free_node();
        self.input_nodes.push(node_index);
        self.external_magnetic_field.set(node_index, magnetic_field_strength);
        proof {
            assert(self@.field =~= with_input_node(old(self)@, magnetic_field_strength).0.field);
            assert(self@ =~= with_input_node(old(self)@, magnetic_field_strength).0);
        }
        node_index
    }

    /// Connects a node with a single input and returns the index of its
    /// output node.
    pub fn add_unary_node(&mut self, input: SpinIndex, unary_node: &impl UnaryNode) -> (r:
        SpinIndex)
        ensures
            final(self)@ == unary_node.unary_effect(old(self)@, input).0,
            r == unary_node.unary_effect(old(self)@, input).1,
    {
        UnaryNode::connect_to_one(unary_node, self, input)
    }

    /// Connects a node with two inputs and returns the index of its output
    /// node.
    pub fn add_binary_node(
        &mut self,
        left_input: SpinIndex,
        right_input: SpinIndex,
        binary_node: &impl BinaryNode,
    ) -> (r: SpinIndex)
        ensures
            final(self)@ == binary_node.binary_effect(old(self)@, left_input, right_input).0,
            r == binary_node.binary_effect(old(self)@, left_input, right_input).1,
    {
        BinaryNode::connect_to_two(binary_node, self, left_input, right_input)
    }

    /// Connects a node with three inputs and returns the index of its
    /// output node.
    pub fn add_ternary_node(
        &mut self,
        first_input: SpinIndex,
        second_input: SpinIndex,
        third_input: SpinIndex,
        ternary_node: &impl TernaryNode,
    ) -> (r: SpinIndex)
        ensures
            final(self)@ == ternary_node.ternary_effect(
                old(self)@,
                first_input,
                second_input,
                third_input,
            ).0,
            r == ternary_node.ternary_effect(
                old(self)@,
                first_input,
                second_input,
                third_input,
            ).1,
    {
        TernaryNode::connect_to_three(ternary_node, self, first_input, second_input, third_input)
    }

    /// Connects a node with any number of inputs and returns the index of
    /// its output node.
    #[allow(non_snake_case)]
    pub fn add_NAry_node(&mut self, inputs: &Vec<SpinIndex>, nary_node: &impl NAryNode) -> (r:
        SpinIndex)
        ensures
            final(self)@ == nary_node.nary_effect(old(self)@, inputs@).0,
            r == nary_node.nary_effect(old(self)@, inputs@).1,
    {
        NAryNode::connect_to_n(nary_node, self, inputs)
    }

    /// Finds all ground states of the built spin glass; when a spin
    /// ordering is given, each configuration is projected onto those spins,
    /// in that order.
    pub fn find_all_ground_states(&self, spin_ordering: Option<Vec<SpinIndex>>) -> (r: Result<
        Vec<(Energy, State)>,
        IsingError,
    >)
        requires
            self@.field.len() < usize::BITS,
            (self@.field.len() as int) * (self@.field.len() as int - 1) <= usize::MAX as int,
            (match spin_ordering {
                Some(o) => forall|k: int| 0 <= k < o@.len() ==> #[trigger] o@[k] < self@.field.len(),
                None => true,
            }),
        ensures
            (match r {
                Ok(v) => exact_model(self@.interactions, self@.field) is Ok && output_view(v@)
                    == projected_states(
                    exact_model(self@.interactions, self@.field).unwrap(),
                    ordering_view(spin_ordering),
                ),
                Err(e) => exact_model(self@.interactions, self@.field) == Err::<
                    Seq<(Energy, Seq<bool>)>,
                    IsingError,
                >(e),
            }),
    {
        let base = match crate::solvers::find_all_ground_states(
            &self.interactions,
            &self.external_magnetic_field,
        ) {
            Ok(v) => v,
            Err(e) => {
                return Err(e);
            },
        };
        let ghost results: Seq<(Energy, Seq<bool>)> = exact_model(
            self@.interactions,
            self@.field,
        ).unwrap();
        proof {
            let n = self@.field.len();
            let h0 = crate::hamiltonian::build_model(
                self@.interactions,
                self@.field,
                Some(Seq::new(n, |i: int| false)),
            ).unwrap();
            lemma_exact_run_lens(exact_start(h0), 1, vstd::arithmetic::power2::pow2(n) as int, n);
        }
        match spin_ordering {
            None => Ok(base),
            Some(ordering) => {
                let mut out: Vec<(Energy, State)> = Vec::new();
                let mut i: usize = 0;
                while i < base.len()
                    invariant
                        i <= base@.len(),
                        output_view(base@) == results,
                        forall|k: int|
                            0 <= k < results.len() ==> (#[trigger] results[k]).1.len()
                                == self@.field.len(),
                        forall|k: int|
                            0 <= k < ordering@.len() ==> #[trigger] ordering@[k]
                                < self@.field.len(),
                        out@.len() == i,
                        output_view(out@) == projected_states(
                            results,
                            Some(ordering@),
                        ).subrange(0, i as int),
                    decreases base@.len() - i,
                {
                    let energy = base[i].0;
                    let mut proj: Vec<bool> = Vec::new();
                    let mut k: usize = 0;
                    proof {
                        assert(output_view(base@)[i as int] == results[i as int]);
                        assert(base@[i as int].1@ == results[i as int].1);
                    }
                    while k < ordering.len()
                        invariant
                            k <= ordering@.len(),
                            i < base@.len(),
                            base@[i as int].1@ == results[i as int].1,
                            results[i as int].1.len() == self@.field.len(),
                            forall|m: int|
                                0 <= m < ordering@.len() ==> #[trigger] ordering@[m]
                                    < self@.field.len(),
                            proj@ == Seq::new(
                                ordering@.len(),
                                |m: int| results[i as int].1[ordering@[m] as int],
                            ).subrange(0, k as int),
                        decreases ordering@.len() - k,
                    {
                        let idx = ordering[k];
                        proj.push(base[i].1[idx]);
                        proof {
                            assert(proj@ =~= Seq::new(
                                ordering@.len(),
                                |m: int| results[i as int].1[ordering@[m] as int],
                            ).subrange(0, k + 1 as int));
                        }
                        k = k + 1;
                    }
                    proof {
                        assert(proj@ =~= Seq::new(
                            ordering@.len(),
                            |m: int| results[i as int].1[ordering@[m] as int],
                        ));
                    }
                    out.push((energy, proj));
                    proof {
                        assert(output_view(out@) =~= projected_states(
                            results,
                            Some(ordering@),
                        ).subrange(0, i + 1 as int));
                    }
                    i = i + 1;
                }
                proof {
                    assert(output_view(out@) =~= projected_states(results, Some(ordering@)));
                }
                Ok(out)
            },
        }
    }

    /// Explores the energy landscape of the built spin glass by simulated
    /// annealing; when a spin ordering is given, each configuration is
    /// projected onto those spins, in that order.
    pub fn run_simulated_annealing(
        &self,
        configuration_override: Option<&SimulatedAnnealingConfiguration>,
        spin_ordering: Option<Vec<SpinIndex>>,
    ) -> (r: Result<Vec<(Energy, State, Epoch)>, IsingError>)
        requires
            (self@.field.len() as int) * (self@.field.len() as int - 1) <= usize::MAX as int,
            (match spin_ordering {
                Some(o) => forall|k: int| 0 <= k < o@.len() ==> #[trigger] o@[k] < self@.field.len(),
                None => true,
            }),
        ensures
            (match r {
                Ok(v) => anneal_model(
                    self@.interactions,
                    self@.field,
                    effective_configuration(configuration_override),
                ) is Ok && triples_view(v@) == projected_triples(
                    anneal_model(
                        self@.interactions,
                        self@.field,
                        effective_configuration(configuration_override),
                    ).unwrap(),
                    ordering_view(spin_ordering),
                ),
                Err(e) => anneal_model(
                    self@.interactions,
                    self@.field,
                    effective_configuration(configuration_override),
                ) == Err::<Seq<(Energy, Seq<bool>, Epoch)>, IsingError>(e),
            }),
    {
        let base = match crate::solvers::simulated_annealing(
            &self.interactions,
            &self.external_magnetic_field,
            configuration_override,
        ) {
            Ok(v) => v,
            Err(e) => {
                return Err(e);
            },
        };
        let ghost results: Seq<(Energy, Seq<bool>, Epoch)> = anneal_model(
            self@.interactions,
            self@.field,
            effective_configuration(configuration_override),
        ).unwrap();
        proof {
            let n = self@.field.len();
            let cfg = effective_configuration(configuration_override);
            let h0 = crate::hamiltonian::build_model(
                self@.interactions,
                self@.field,
                Some(Seq::new(n, |i: int| false)),
            ).unwrap();
            let cooling = crate::energy::pow_of(
                crate::energy::quot_of(cfg.final_temperature, cfg.initial_temperature),
                crate::energy::quot_of(crate::energy::ONE, crate::energy::float_of(
                    cfg.sweeps as u64,
                )),
            );
            lemma_anneal_run_lens(
                anneal_start(h0, cfg),
                1,
                cfg.sweeps as int,
                n as usize,
                cooling,
                cfg.trace,
                n,
            );
        }
        match spin_ordering {
            None => Ok(base),
            Some(ordering) => {
                let mut out: Vec<(Energy, State, Epoch)> = Vec::new();
                let mut i: usize = 0;
                while i < base.len()
                    invariant
                        i <= base@.len(),
                        triples_view(base@) == results,
                        forall|k: int|
                            0 <= k < results.len() ==> (#[trigger] results[k]).1.len()
                                == self@.field.len(),
                        forall|k: int|
                            0 <= k < ordering@.len() ==> #[trigger] ordering@[k]
                                < self@.field.len(),
                        out@.len() == i,
                        triples_view(out@) == projected_triples(
                            results,
                            Some(ordering@),
                        ).subrange(0, i as int),
                    decreases base@.len() - i,
                {
                    let energy = base[i].0;
                    let epoch = base[i].2;
                    let mut proj: Vec<bool> = Vec::new();
                    let mut k: usize = 0;
                    proof {
                        assert(triples_view(base@)[i as int] == results[i as int]);
                        assert(base@[i as int].1@ == results[i as int].1);
                    }
                    while k < ordering.len()
                        invariant
                            k <= ordering@.len(),
                            i < base@.len(),
                            base@[i as int].1@ == results[i as int].1,
                            results[i as int].1.len() == self@.field.len(),
                            forall|m: int|
                                0 <= m < ordering@.len() ==> #[trigger] ordering@[m]
                                    < self@.field.len(),
                            proj@ == Seq::new(
                                ordering@.len(),
                                |m: int| results[i as int].1[ordering@[m] as int],
                            ).subrange(0, k as int),
                        decreases ordering@.len() - k,
                    {
                        let idx = ordering[k];
                        proj.push(base[i].1[idx]);
                        proof {
                            assert(proj@ =~= Seq::new(
                                ordering@.len(),
                                |m: int| results[i as int].1[ordering@[m] as int],
                            ).subrange(0, k + 1 as int));
                        }
                        k = k + 1;
                    }
                    proof {
                        assert(proj@ =~= Seq::new(
                            ordering@.len(),
                            |m: int| results[i as int].1[ordering@[m] as int],
                        ));
                    }
                    out.push((energy, proj, epoch));
                    proof {
                        assert(triples_view(out@) =~= projected_triples(
                            results,
                            Some(ordering@),
                        ).subrange(0, i + 1 as int));
                    }
                    i = i + 1;
                }
                proof {
                    assert(triples_view(out@) =~= projected_triples(results, Some(ordering@)));
                }
                Ok(out)
            },
        }
    }

    /// Returns the external magnetic field with every sign flipped; with
    /// `inverted_interactions` this is the same problem in the opposite
    /// sign convention.
    pub fn inverted_external_magnetic_field(&self) -> (r: ExternalMagneticField)
        ensures
            r@ == Seq::new(self@.field.len(), |i: int| neg_of(self@.field[i])),
    {
        let mut r: ExternalMagneticField = Vec::new();
        let mut i: usize = 0;
        while i < self.external_magnetic_field.len()
            invariant
                i <= self@.field.len(),
                r@ == Seq::new(self@.field.len(), |m: int| neg_of(self@.field[m])).subrange(
                    0,
                    i as int,
                ),
            decreases self@.field.len() - i,
        {
            r.push(neg_energy(self.external_magnetic_field[i]));
            proof {
                assert(r@ =~= Seq::new(self@.field.len(), |m: int| neg_of(self@.field[m])).subrange(
                    0,
                    i + 1 as int,
                ));
            }
            i = i + 1;
        }
        proof {
            assert(r@ =~= Seq::new(self@.field.len(), |m: int| neg_of(self@.field[m])));
        }
        r
    }

    /// Returns the interaction list with every coupling's sign flipped;
    /// with `inverted_external_magnetic_field` this is the same problem in
    /// the opposite sign convention.
    pub fn inverted_interactions(&self) -> (r: Interactions)
        ensures
            r@ == Seq::new(
                self@.interactions.len(),
                |i: int| (self@.interactions[i].0, self@.interactions[i].1, neg_of(self@.interactions[i].2)),
            ),
    {
        let mut r: Interactions = Vec::new();
        let mut i: usize = 0;
        while i < self.interactions.len()
            invariant
                i <= self@.interactions.len(),
                r@ == Seq::new(
                    self@.interactions.len(),
                    |m: int| (
                        self@.interactions[m].0,
                        self@.interactions[m].1,
                        neg_of(self@.interactions[m].2),
                    ),
                ).subrange(0, i as int),
            decreases self@.interactions.len() - i,
        {
            let t = self.interactions[i];
            r.push((t.0, t.1, neg_energy(t.2)));
            proof {
                assert(r@ =~= Seq::new(
                    self@.interactions.len(),
                    |m: int| (
                        self@.interactions[m].0,
                        self@.interactions[m].1,
                        neg_of(self@.interactions[m].2),
                    ),
                ).subrange(0, i + 1 as int));
            }
            i = i + 1;
        }
        proof {
            assert(r@ =~= Seq::new(
                self@.interactions.len(),
                |m: int| (
                    self@.interactions[m].0,
                    self@.interactions[m].1,
                    neg_of(self@.interactions[m].2),
                ),
            ));
        }
        r
    }
}

} // verus!
