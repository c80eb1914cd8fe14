//! The library of logic gates.
//!
//! Each gate is a fixed pattern of nodes, couplings and field adjustments
//! whose ground manifold realises a Boolean relation between its inputs and
//! a fresh output node.  Every gate's exact effect on the network is a spec
//! function, so connecting a gate is fully described by its contract: the
//! new node indices and the appended interaction terms, in order.
//!
//! The binary gates fan their inputs in through biased `COPY` nodes; the
//! parity gates (`XOR`, `XNOR`) add one auxiliary node besides.

use vstd::prelude::*;
use crate::energy::Energy;
use crate::energy::HALF;
use crate::energy::NEG_HALF;
use crate::energy::NEG_ONE;
use crate::energy::NEG_THIRD;
use crate::energy::ONE;
use crate::energy::ZERO;
use crate::spin_network::NetworkView;
use crate::spin_network::SpinNetwork;
use crate::spin_network::with_auxiliary_node;
use crate::spin_network::with_output_node;
use crate::types::BinaryNode;
use crate::types::MagneticFieldStrength;
use crate::types::Node;
use crate::types::SpinIndex;
use crate::types::TernaryNode;
use crate::types::UnaryNode;

verus! {

/// The network after a fresh output node with field `bias`, coupled to
/// `input` with strength `coupling`, paired with the new node's index.
pub open spec fn wired_output(
    net: NetworkView,
    input: SpinIndex,
    bias: Energy,
    coupling: Energy,
) -> (NetworkView, SpinIndex) {
    let (n1, out) = with_output_node(net, bias);
    (
        NetworkView { interactions: n1.interactions.push((input, out, coupling)), ..n1 },
        out,
    )
}

/// The effect of a `COPY` gate with field `bias`: a fresh output node
/// coupled to the input with strength one.
pub open spec fn copy_effect(net: NetworkView, input: SpinIndex, bias: Energy) -> (
    NetworkView,
    SpinIndex,
) {
    wired_output(net, input, bias, ONE)
}

/// The effect shared by the fan-in gates (`AND`, `OR`, `NAND`, `NOR`): an
/// output node with field `out_bias`, one biased copy of each input, a
/// `-0.5` coupling between the copies, and `out_coupling` from each copy to
/// the output.
pub open spec fn fanin_effect(
    net: NetworkView,
    left: SpinIndex,
    right: SpinIndex,
    out_bias: Energy,
    copy_bias: Energy,
    out_coupling: Energy,
) -> (NetworkView, SpinIndex) {
    let (n1, out) = with_output_node(net, out_bias);
    let (n2, left_copy) = copy_effect(n1, left, copy_bias);
    let (n3, right_copy) = copy_effect(n2, right, copy_bias);
    (
        NetworkView {
            interactions: n3.interactions.push((left_copy, right_copy, NEG_HALF)).push(
                (left_copy, out, out_coupling),
            ).push((right_copy, out, out_coupling)),
            ..n3
        },
        out,
    )
}

/// The effect shared by the parity gates (`XOR`, `XNOR`): an output node
/// with field `out_bias`, an auxiliary node with field `-1`, one `-0.5`
/// biased copy of each input, and the six couplings that tie copies,
/// auxiliary and output together.
pub open spec fn parity_effect(
    net: NetworkView,
    left: SpinIndex,
    right: SpinIndex,
    out_bias: Energy,
    out_coupling: Energy,
    aux_coupling: Energy,
) -> (NetworkView, SpinIndex) {
    let (n1, out) = with_output_node(net, out_bias);
    let (n2, aux) = with_auxiliary_node(n1, NEG_ONE);
    let (n3, left_copy) = copy_effect(n2, left, NEG_HALF);
    let (n4, right_copy) = copy_effect(n3, right, NEG_HALF);
    (
        NetworkView {
            interactions: n4.interactions.push((left_copy, right_copy, NEG_HALF)).push(
                (left_copy, aux, NEG_ONE),
            ).push((right_copy, aux, NEG_ONE)).push((left_copy, out, out_coupling)).push(
                (right_copy, out, out_coupling),
            ).push((aux, out, aux_coupling)),
            ..n4
        },
        out,
    )
}

/// The effect of the ternary `OR`: an output node with field `1`, a `-1/3`
/// biased copy of each of the three inputs, `-1/3` couplings among the
/// copies, and unit couplings from each copy to the output.
pub open spec fn ternary_or_effect(
    net: NetworkView,
    first: SpinIndex,
    second: SpinIndex,
    third: SpinIndex,
) -> (NetworkView, SpinIndex) {
    let (n1, out) = with_output_node(net, ONE);
    let (n2, first_copy) = copy_effect(n1, first, NEG_THIRD);
    let (n3, second_copy) = copy_effect(n2, second, NEG_THIRD);
    let (n4, third_copy) = copy_effect(n3, third, NEG_THIRD);
    (
        NetworkView {
            interactions: n4.interactions.push((first_copy, second_copy, NEG_THIRD)).push(
                (first_copy, third_copy, NEG_THIRD),
            ).push((second_copy, third_copy, NEG_THIRD)).push((first_copy, out, ONE)).push(
                (second_copy, out, ONE),
            ).push((third_copy, out, ONE)),
            ..n4
        },
        out,
    )
}

/// Repeats the input on a fresh output node, optionally biased by a field.
pub struct COPY {
    pub magnetic_field_strength: Energy,
}

impl COPY {
    /// A copy gate whose output node carries the given field.
    pub fn new(magnetic_field_strength: MagneticFieldStrength) -> (r: COPY)
        ensures
            r == (COPY { magnetic_field_strength }),
    {
        COPY { magnetic_field_strength }
    }
}

impl Default for COPY {
    /// An unbiased copy gate.
    fn default() -> (r: COPY)
        ensures
            r == (COPY { magnetic_field_strength: ZERO }),
    {
        COPY { magnetic_field_strength: ZERO }
    }
}

impl Node for COPY {
    open spec fn connect_effect(&self, net: NetworkView) -> (NetworkView, SpinIndex) {
        with_output_node(net, self.magnetic_field_strength)
    }

    fn connect(&self, spin_network: &mut SpinNetwork) -> (r: SpinIndex) {
        spin_network.add_output_node(self.magnetic_field_strength)
    }
}

impl UnaryNode for COPY {
    open spec fn unary_effect(&self, net: NetworkView, input: SpinIndex) -> (
        NetworkView,
        SpinIndex,
    ) {
        copy_effect(net, input, self.magnetic_field_strength)
    }

    fn connect_to_one(&self, spin_network: &mut SpinNetwork, input: SpinIndex) -> (r: SpinIndex) {
        let output_node_index = self.connect(spin_network);
        spin_network.interactions.push((input, output_node_index, ONE));
        proof {
            assert(spin_network@ =~= self.unary_effect(old(spin_network)@, input).0);
        }
        output_node_index
    }
}

/// Inverts the input on a fresh output node.
pub struct NOT {}

impl Default for NOT {
    fn default() -> (r: NOT)
        ensures
            r == (NOT {  }),
    {
        NOT {  }
    }
}

impl Node for NOT {
    open spec fn connect_effect(&self, net: NetworkView) -> (NetworkView, SpinIndex) {
        with_output_node(net, ZERO)
    }

    fn connect(&self, spin_network: &mut SpinNetwork) -> (r: SpinIndex) {
        spin_network.add_output_node(ZERO)
    }
}

impl UnaryNode for NOT {
    open spec fn unary_effect(&self, net: NetworkView, input: SpinIndex) -> (
        NetworkView,
        SpinIndex,
    ) {
        wired_output(net, input, ZERO, NEG_ONE)
    }

    fn connect_to_one(&self, spin_network: &mut SpinNetwork, input: SpinIndex) -> (r: SpinIndex) {
        let output_node_index = self.connect(spin_network);
        spin_network.interactions.push((input, output_node_index, NEG_ONE));
        proof {
            assert(spin_network@ =~= self.unary_effect(old(spin_network)@, input).0);
        }
        output_node_index
    }
}

/// The conjunction of two inputs on a fresh output node.
pub struct AND {}

impl Default for AND {
    fn default() -> (r: AND)
        ensures
            r == (AND {  }),
    {
        AND {  }
    }
}

impl Node for AND {
    open spec fn connect_effect(&self, net: NetworkView) -> (NetworkView, SpinIndex) {
        with_output_node(net, NEG_ONE)
    }

    fn connect(&self, spin_network: &mut SpinNetwork) -> (r: SpinIndex) {
        spin_network.add_output_node(NEG_ONE)
    }
}

impl BinaryNode for AND {
    open spec fn binary_effect(&self, net: NetworkView, left: SpinIndex, right: SpinIndex) -> (
        NetworkView,
        SpinIndex,
    ) {
        fanin_effect(net, left, right, NEG_ONE, HALF, ONE)
    }

    fn connect_to_two(
        &self,
        spin_network: &mut SpinNetwork,
        left_input: SpinIndex,
        right_input: SpinIndex,
    ) -> (r: SpinIndex) {
        let output_node_index = self.connect(spin_network);
        let copy_with_half = COPY::new(HALF);
        let left_copy_output_index = spin_network.add_unary_node(left_input, &copy_with_half);
        let right_copy_output_index = spin_network.add_unary_node(right_input, &copy_with_half);

        spin_network.interactions.push((left_copy_output_index, right_copy_output_index, NEG_HALF));
        spin_network.interactions.push((left_copy_output_index, output_node_index, ONE));
        spin_network.interactions.push((right_copy_output_index, output_node_index, ONE));
        proof {
            assert(spin_network@ =~= self.binary_effect(
                old(spin_network)@,
                left_input,
                right_input,
            ).0);
        }
        output_node_index
    }
}

/// The disjunction of two inputs on a fresh output node.
pub struct OR {}

impl Default for OR {
    fn default() -> (r: OR)
        ensures
            r == (OR {  }),
    {
        OR {  }
    }
}

impl Node for OR {
    open spec fn connect_effect(&self, net: NetworkView) -> (NetworkView, SpinIndex) {
        with_output_node(net, ONE)
    }

    fn connect(&self, spin_network: &mut SpinNetwork) -> (r: SpinIndex) {
        spin_network.add_output_node(ONE)
    }
}

impl BinaryNode for OR {
    open spec fn binary_effect(&self, net: NetworkView, left: SpinIndex, right: SpinIndex) -> (
        NetworkView,
        SpinIndex,
    ) {
        fanin_effect(net, left, right, ONE, NEG_HALF, ONE)
    }

    fn connect_to_two(
        &self,
        spin_network: &mut SpinNetwork,
        left_input: SpinIndex,
        right_input: SpinIndex,
    ) -> (r: SpinIndex) {
        let output_node_index = self.connect(spin_network);
        let copy_with_minus_half = COPY::new(NEG_HALF);
        let left_copy_output_index = spin_network.add_unary_node(left_input, &copy_with_minus_half);
        let right_copy_output_index = spin_network.add_unary_node(
            right_input,
            &copy_with_minus_half,
        );

        spin_network.interactions.push((left_copy_output_index, right_copy_output_index, NEG_HALF));
        spin_network.interactions.push((left_copy_output_index, output_node_index, ONE));
        spin_network.interactions.push((right_copy_output_index, output_node_index, ONE));
        proof {
            assert(spin_network@ =~= self.binary_effect(
                old(spin_network)@,
                left_input,
                right_input,
            ).0);
        }
        output_node_index
    }
}

impl TernaryNode for OR {
    open spec fn ternary_effect(
        &self,
        net: NetworkView,
        first: SpinIndex,
        second: SpinIndex,
        third: SpinIndex,
    ) -> (NetworkView, SpinIndex) {
        ternary_or_effect(net, first, second, third)
    }

    fn connect_to_three(
        &self,
        spin_network: &mut SpinNetwork,
        first_input: SpinIndex,
        second_input: SpinIndex,
        third_input: SpinIndex,
    ) -> (r: SpinIndex) {
        let output_node_index = self.connect(spin_network);
        let copy_with_minus_third = COPY::new(NEG_THIRD);
        let first_copy_output_index = spin_network.add_unary_node(
            first_input,
            &copy_with_minus_third,
        );
        let second_copy_output_index = spin_network.add_unary_node(
            second_input,
            &copy_with_minus_third,
        );
        let third_copy_output_index = spin_network.add_unary_node(
            third_input,
            &copy_with_minus_third,
        );

        spin_network.interactions.push(
            (first_copy_output_index, second_copy_output_index, NEG_THIRD),
        );
        spin_network.interactions.push(
            (first_copy_output_index, third_copy_output_index, NEG_THIRD),
        );
        spin_network.interactions.push(
            (second_copy_output_index, third_copy_output_index, NEG_THIRD),
        );
        spin_network.interactions.push((first_copy_output_index, output_node_index, ONE));
        spin_network.interactions.push((second_copy_output_index, output_node_index, ONE));
        spin_network.interactions.push((third_copy_output_index, output_node_index, ONE));
        proof {
            assert(spin_network@ =~= self.ternary_effect(
                old(spin_network)@,
                first_input,
                second_input,
                third_input,
            ).0);
        }
        output_node_index
    }
}

/// The negated conjunction of two inputs on a fresh output node.
pub struct NAND {}

impl Default for NAND {
    fn default() -> (r: NAND)
        ensures
            r == (NAND {  }),
    {
        NAND {  }
    }
}

impl Node for NAND {
    open spec fn connect_effect(&self, net: NetworkView) -> (NetworkView, SpinIndex) {
        with_output_node(net, ONE)
    }

    fn connect(&self, spin_network: &mut SpinNetwork) -> (r: SpinIndex) {
        spin_network.add_output_node(ONE)
    }
}

impl BinaryNode for NAND {
    open spec fn binary_effect(&self, net: NetworkView, left: SpinIndex, right: SpinIndex) -> (
        NetworkView,
        SpinIndex,
    ) {
        fanin_effect(net, left, right, ONE, HALF, NEG_ONE)
    }

    fn connect_to_two(
        &self,
        spin_network: &mut SpinNetwork,
        left_input: SpinIndex,
        right_input: SpinIndex,
    ) -> (r: SpinIndex) {
        let output_node_index = self.connect(spin_network);
        let copy_with_half = COPY::new(HALF);
        let left_copy_output_index = spin_network.add_unary_node(left_input, &copy_with_half);
        let right_copy_output_index = spin_network.add_unary_node(right_input, &copy_with_half);

        spin_network.interactions.push((left_copy_output_index, right_copy_output_index, NEG_HALF));
        spin_network.interactions.push((left_copy_output_index, output_node_index, NEG_ONE));
        spin_network.interactions.push((right_copy_output_index, output_node_index, NEG_ONE));
        proof {
            assert(spin_network@ =~= self.binary_effect(
                old(spin_network)@,
                left_input,
                right_input,
            ).0);
        }
        output_node_index
    }
}

/// The negated disjunction of two inputs on a fresh output node.
pub struct NOR {}

impl Default for NOR {
    fn default() -> (r: NOR)
        ensures
            r == (NOR {  }),
    {
        NOR {  }
    }
}

impl Node for NOR {
    open spec fn connect_effect(&self, net: NetworkView) -> (NetworkView, SpinIndex) {
        with_output_node(net, NEG_ONE)
    }

    fn connect(&self, spin_network: &mut SpinNetwork) -> (r: SpinIndex) {
        spin_network.add_output_node(NEG_ONE)
    }
}

impl BinaryNode for NOR {
    open spec fn binary_effect(&self, net: NetworkView, left: SpinIndex, right: SpinIndex) -> (
        NetworkView,
        SpinIndex,
    ) {
        fanin_effect(net, left, right, NEG_ONE, NEG_HALF, NEG_ONE)
    }

    fn connect_to_two(
        &self,
        spin_network: &mut SpinNetwork,
        left_input: SpinIndex,
        right_input: SpinIndex,
    ) -> (r: SpinIndex) {
        let output_node_index = self.connect(spin_network);
        let copy_with_minus_half = COPY::new(NEG_HALF);
        let left_copy_output_index = spin_network.add_unary_node(left_input, &copy_with_minus_half);
        let right_copy_output_index = spin_network.add_unary_node(
            right_input,
            &copy_with_minus_half,
        );

        spin_network.interactions.push((left_copy_output_index, right_copy_output_index, NEG_HALF));
        spin_network.interactions.push((left_copy_output_index, output_node_index, NEG_ONE));
        spin_network.interactions.push((right_copy_output_index, output_node_index, NEG_ONE));
        proof {
            assert(spin_network@ =~= self.binary_effect(
                old(spin_network)@,
                left_input,
                right_input,
            ).0);
        }
        output_node_index
    }
}

/// The exclusive disjunction of two inputs on a fresh output node.
pub struct XOR {}

impl Default for XOR {
    fn default() -> (r: XOR)
        ensures
            r == (XOR {  }),
    {
        XOR {  }
    }
}

impl Node for XOR {
    open spec fn connect_effect(&self, net: NetworkView) -> (NetworkView, SpinIndex) {
        with_output_node(net, NEG_HALF)
    }

    fn connect(&self, spin_network: &mut SpinNetwork) -> (r: SpinIndex) {
        spin_network.add_output_node(NEG_HALF)
    }
}

impl BinaryNode for XOR {
    open spec fn binary_effect(&self, net: NetworkView, left: SpinIndex, right: SpinIndex) -> (
        NetworkView,
        SpinIndex,
    ) {
        parity_effect(net, left, right, NEG_HALF, NEG_HALF, NEG_ONE)
    }

    fn connect_to_two(
        &self,
        spin_network: &mut SpinNetwork,
        left_input: SpinIndex,
        right_input: SpinIndex,
    ) -> (r: SpinIndex) {
        let output_node_index = self.connect(spin_network);
        let aux_node_index = spin_network.add_auxiliary_node(NEG_ONE);
        let copy_with_minus_half = COPY::new(NEG_HALF);
        let left_copy_output_index = spin_network.add_unary_node(left_input, &copy_with_minus_half);
        let right_copy_output_index = spin_network.add_unary_node(
            right_input,
            &copy_with_minus_half,
        );

        spin_network.interactions.push((left_copy_output_index, right_copy_output_index, NEG_HALF));
        spin_network.interactions.push((left_copy_output_index, aux_node_index, NEG_ONE));
        spin_network.interactions.push((right_copy_output_index, aux_node_index, NEG_ONE));
        spin_network.interactions.push((left_copy_output_index, output_node_index, NEG_HALF));
        spin_network.interactions.push((right_copy_output_index, output_node_index, NEG_HALF));
        spin_network.interactions.push((aux_node_index, output_node_index, NEG_ONE));
        proof {
            assert(spin_network@ =~= self.binary_effect(
                old(spin_network)@,
                left_input,
                right_input,
            ).0);
        }
        output_node_index
    }
}

/// The negated exclusive disjunction of two inputs on a fresh output node.
pub struct XNOR {}

impl Default for XNOR {
    fn default() -> (r: XNOR)
        ensures
            r == (XNOR {  }),
    {
        XNOR {  }
    }
}

impl Node for XNOR {
    open spec fn connect_effect(&self, net: NetworkView) -> (NetworkView, SpinIndex) {
        with_output_node(net, HALF)
    }

    fn connect(&self, spin_network: &mut SpinNetwork) -> (r: SpinIndex) {
        spin_network.add_output_node(HALF)
    }
}

impl BinaryNode for XNOR {
    open spec fn binary_effect(&self, net: NetworkView, left: SpinIndex, right: SpinIndex) -> (
        NetworkView,
        SpinIndex,
    ) {
        parity_effect(net, left, right, HALF, HALF, ONE)
    }

    fn connect_to_two(
        &self,
        spin_network: &mut SpinNetwork,
        left_input: SpinIndex,
        right_input: SpinIndex,
    ) -> (r: SpinIndex) {
        let output_node_index = self.connect(spin_network);
        let aux_node_index = spin_network.add_auxiliary_node(NEG_ONE);
        let copy_with_minus_half = COPY::new(NEG_HALF);
        let left_copy_output_index = spin_network.add_unary_node(left_input, &copy_with_minus_half);
        let right_copy_output_index = spin_network.add_unary_node(
            right_input,
            &copy_with_minus_half,
        );

        spin_network.interactions.push((left_copy_output_index, right_copy_output_index, NEG_HALF));
        spin_network.interactions.push((left_copy_output_index, aux_node_index, NEG_ONE));
        spin_network.interactions.push((right_copy_output_index, aux_node_index, NEG_ONE));
        spin_network.interactions.push((left_copy_output_index, output_node_index, HALF));
        spin_network.interactions.push((right_copy_output_index, output_node_index, HALF));
        spin_network.interactions.push((aux_node_index, output_node_index, ONE));
        proof {
            assert(spin_network@ =~= self.binary_effect(
                old(spin_network)@,
                left_input,
                right_input,
            ).0);
        }
        output_node_index
    }
}

} // verus!
