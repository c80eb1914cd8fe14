//! Shared vocabulary: index and scalar aliases, the error type, and the
//! node traits that gates implement to wire themselves into a network.

use vstd::prelude::*;
use crate::spin_network::NetworkView;
use crate::spin_network::SpinNetwork;

verus! {

pub use crate::energy::Energy;

/// The index of a spin; indices are dense and start at zero.
pub type SpinIndex = usize;

/// A pairwise coupling strength.
pub type InteractionStrength = Energy;

/// An unordered collection of couplings `(i, j, J)` with `i != j`; a given
/// unordered pair may appear at most once.
pub type Interactions = Vec<(SpinIndex, SpinIndex, InteractionStrength)>;

/// A per-spin magnetic field strength.
pub type MagneticFieldStrength = Energy;

/// The dense external magnetic field, one entry per spin.
pub type ExternalMagneticField = Vec<MagneticFieldStrength>;

/// A dense spin configuration: `true` is spin +1, `false` is spin -1.
pub type State = Vec<bool>;

/// The sweep index at which the annealer first observed a retained state.
pub type Epoch = usize;

/// Why a problem was rejected; every error is fatal and reported
/// immediately at construction.
#[derive(Clone, Copy, Debug, PartialEq, Eq, Structural)]
pub enum IsingError {
    /// The field length does not match the spin count inferred from the
    /// interactions (or from a supplied initial state).
    ShapeMismatch,
    /// An interaction couples a spin with itself, or an unordered pair
    /// appears twice.
    MalformedInteraction,
    /// There are no interactions and no field entries, so there is no spin.
    EmptyProblem,
}

/// Anything able to connect a fresh output node of its own to the network.
/// `connect_effect` is a gate's specification: the network it leaves
/// behind, paired with the index of the new node.
pub trait Node {
    /// The network after this gate adds its bare output node, paired with
    /// that node's index.
    spec fn connect_effect(&self, net: NetworkView) -> (NetworkView, SpinIndex);

    fn connect(&self, spin_network: &mut SpinNetwork) -> (r: SpinIndex)
        ensures
            final(spin_network)@ == self.connect_effect(old(spin_network)@).0,
            r == self.connect_effect(old(spin_network)@).1,
    ;
}

/// A node with a single input and one output.
pub trait UnaryNode: Node {
    /// The network after this gate connects to `input`, paired with the
    /// index of its output node.
    spec fn unary_effect(&self, net: NetworkView, input: SpinIndex) -> (NetworkView, SpinIndex);

    fn connect_to_one(&self, spin_network: &mut SpinNetwork, input: SpinIndex) -> (r: SpinIndex)
        ensures
            final(spin_network)@ == self.unary_effect(old(spin_network)@, input).0,
            r == self.unary_effect(old(spin_network)@, input).1,
    ;
}

/// A node with two inputs and one output.
pub trait BinaryNode: Node {
    /// The network after this gate connects to `left` and `right`, paired
    /// with the index of its output node.
    spec fn binary_effect(&self, net: NetworkView, left: SpinIndex, right: SpinIndex) -> (
        NetworkView,
        SpinIndex,
    );

    fn connect_to_two(
        &self,
        spin_network: &mut SpinNetwork,
        left_input: SpinIndex,
        right_input: SpinIndex,
    ) -> (r: SpinIndex)
        ensures
            final(spin_network)@ == self.binary_effect(old(spin_network)@, left_input, right_input).0,
            r == self.binary_effect(old(spin_network)@, left_input, right_input).1,
    ;
}

/// A node with three inputs and one output.
pub trait TernaryNode: Node {
    /// The network after this gate connects to the three inputs, paired
    /// with the index of its output node.
    spec fn ternary_effect(
        &self,
        net: NetworkView,
        first: SpinIndex,
        second: SpinIndex,
        third: SpinIndex,
    ) -> (NetworkView, SpinIndex);

    fn connect_to_three(
        &self,
        spin_network: &mut SpinNetwork,
        first_input: SpinIndex,
        second_input: SpinIndex,
        third_input: SpinIndex,
    ) -> (r: SpinIndex)
        ensures
            final(spin_network)@ == self.ternary_effect(
                old(spin_network)@,
                first_input,
                second_input,
                third_input,
            ).0,
            r == self.ternary_effect(
                old(spin_network)@,
                first_input,
                second_input,
                third_input,
            ).1,
    ;
}

/// A node with any number of inputs and one output, for gates supplied by
/// users of the crate.
pub trait NAryNode: Node {
    /// The network after this gate connects to `inputs`, paired with the
    /// index of its output node.
    spec fn nary_effect(&self, net: NetworkView, inputs: Seq<SpinIndex>) -> (
        NetworkView,
        SpinIndex,
    );

    fn connect_to_n(&self, spin_network: &mut SpinNetwork, inputs: &Vec<SpinIndex>) -> (r: SpinIndex)
        ensures
            final(spin_network)@ == self.nary_effect(old(spin_network)@, inputs@).0,
            r == self.nary_effect(old(spin_network)@, inputs@).1,
    ;
}

} // verus!
