//! The structured form of a boolean circuit: counts from its header and the
//! ordered gate sequence.

use vstd::prelude::*;

verus! {

/// One gate of a circuit; every field is a wire index.
#[derive(Debug, Clone, Copy, PartialEq, Eq, Structural)]
pub enum GateDef {
    And { in0: usize, in1: usize, out: usize },
    Xor { in0: usize, in1: usize, out: usize },
    Not { input: usize, out: usize },
}

impl GateDef {
    /// The wire that this gate assigns.
    pub open spec fn output(self) -> usize {
        match self {
            GateDef::And { out, .. } => out,
            GateDef::Xor { out, .. } => out,
            GateDef::Not { out, .. } => out,
        }
    }

    /// Whether garbling this gate consumes an inner label and emits a table:
    /// true of AND and NOT, false of XOR.
    pub open spec fn takes_label(self) -> bool {
        !(self is Xor)
    }
}

/// A circuit as the loader delivers it. The counts are those that the
/// description declares; nothing ties them to `gates`.
#[derive(Debug, Clone, PartialEq, Eq)]
pub struct CircuitInput {
    pub total_gate_count: usize,
    pub and_gate_count: usize,
    pub xor_gate_count: usize,
    pub not_gate_count: usize,
    pub total_wire_count: usize,
    pub input1_count: usize,
    pub input2_count: usize,
    pub output_wire_count: usize,
    pub gates: Vec<GateDef>,
}

/// Mathematical model of a [`CircuitInput`].
pub struct Circuit {
    pub total_gate_count: usize,
    pub and_gate_count: usize,
    pub xor_gate_count: usize,
    pub not_gate_count: usize,
    pub total_wire_count: usize,
    pub input1_count: usize,
    pub input2_count: usize,
    pub output_wire_count: usize,
    pub gates: Seq<GateDef>,
}

impl Circuit {
    /// Number of primary input wires: garbler inputs plus evaluator inputs.
    pub open spec fn input_wire_count(self) -> int {
        self.input1_count + self.input2_count
    }

    /// Number of inner labels that the header asks for: one per AND and one
    /// per NOT gate.
    pub open spec fn inner_wire_label_count(self) -> int {
        self.and_gate_count + self.not_gate_count
    }
}

impl View for CircuitInput {
    type V = Circuit;

    open spec fn view(&self) -> Circuit {
        Circuit {
            total_gate_count: self.total_gate_count,
            and_gate_count: self.and_gate_count,
            xor_gate_count: self.xor_gate_count,
            not_gate_count: self.not_gate_count,
            total_wire_count: self.total_wire_count,
            input1_count: self.input1_count,
            input2_count: self.input2_count,
            output_wire_count: self.output_wire_count,
            gates: self.gates@,
        }
    }
}

impl Default for CircuitInput {
    /// The empty circuit: every count zero, no gate.
    fn default() -> (c: CircuitInput)
        ensures
            c@ == (Circuit {
                total_gate_count: 0,
                and_gate_count: 0,
                xor_gate_count: 0,
                not_gate_count: 0,
                total_wire_count: 0,
                input1_count: 0,
                input2_count: 0,
                output_wire_count: 0,
                gates: Seq::empty(),
            }),
    {
        CircuitInput {
            total_gate_count: 0,
            and_gate_count: 0,
            xor_gate_count: 0,
            not_gate_count: 0,
            total_wire_count: 0,
            input1_count: 0,
            input2_count: 0,
            output_wire_count: 0,
            gates: Vec::new(),
        }
    }
}

impl CircuitInput {
    /// Number of primary input wires = garbler + evaluator inputs.
    pub fn get_input_wire_count(&self) -> (n: usize)
        requires
            self@.input_wire_count() <= usize::MAX,
        ensures
            n == self@.input_wire_count(),
    {
        self.input1_count + self.input2_count
    }

    /// Number of inner labels to supply: one per AND and one per NOT.
    pub fn get_inner_wire_label_count(&self) -> (n: usize)
        requires
            self@.inner_wire_label_count() <= usize::MAX,
        ensures
            n == self@.inner_wire_label_count(),
    {
        self.and_gate_count + self.not_gate_count
    }
}

} // verus!
