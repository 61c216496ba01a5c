//! A pass over a circuit and its labels that decides, before any label is
//! derived, whether garbling can run to the end.

use vstd::prelude::*;
use crate::circuit::{Circuit, CircuitInput, GateDef};
use crate::garble::{
    garble_ckt, garble_spec, garbleable, gate_supplied, gate_wired, inputs_match, labels_needed,
    populated, GarbledOutput, LabelInputs, Labels,
};

verus! {

/// Why a circuit cannot be garbled with a set of labels.
#[derive(Debug, Clone, Copy, PartialEq, Eq, Structural)]
pub enum GarbleError {
    /// The number of input labels is not the number of primary input wires,
    /// or the circuit declares more input wires than wires.
    InputMismatch,
    /// Gate `gate` reads a wire that nothing has assigned, or names a wire
    /// that does not exist.
    BrokenTopologicalOrder { gate: usize },
    /// No inner label is left for gate `gate`.
    ExhaustedLabelSupply { gate: usize },
}

/// All gates before `g` are wired and supplied.
pub open spec fn prefix_ready(c: Circuit, l: Labels, g: int) -> bool {
    &&& forall|h: int| 0 <= h < g ==> #[trigger] gate_wired(c, h)
    &&& forall|h: int| 0 <= h < g ==> #[trigger] gate_supplied(c, l, h)
}

/// What [`validate`] answers: `Ok` exactly for what can be garbled, and
/// otherwise the first obstacle in processing order.
pub open spec fn verdict(c: Circuit, l: Labels, r: Result<(), GarbleError>) -> bool {
    match r {
        Ok(_) => garbleable(c, l),
        Err(GarbleError::InputMismatch) => !inputs_match(c, l),
        Err(GarbleError::BrokenTopologicalOrder { gate }) => {
            &&& inputs_match(c, l)
            &&& gate < c.gates.len()
            &&& prefix_ready(c, l, gate as int)
            &&& !gate_wired(c, gate as int)
        },
        Err(GarbleError::ExhaustedLabelSupply { gate }) => {
            &&& inputs_match(c, l)
            &&& gate < c.gates.len()
            &&& prefix_ready(c, l, gate as int)
            &&& gate_wired(c, gate as int)
            &&& !gate_supplied(c, l, gate as int)
        },
    }
}

/// Whether slot `w` exists and is marked in `ready`.
fn is_ready(ready: &Vec<bool>, w: usize) -> (b: bool)
    ensures
        b == crate::garble::holds(ready@, w),
{
    w < ready.len() && ready[w]
}

/// Decides whether `ckt` can be garbled with `labels`, and names the first
/// gate that stands in the way if it cannot.
pub fn validate(ckt: &CircuitInput, labels: &LabelInputs) -> (r: Result<(), GarbleError>)
    ensures
        verdict(ckt@, labels@, r),
{
    let ghost c = ckt@;
    let ghost l = labels@;
    let n_in = labels.input_labels.len();
    let wcnt = ckt.total_wire_count;
    if ckt.input1_count > usize::MAX - ckt.input2_count {
        return Err(GarbleError::InputMismatch);
    }
    let declared = ckt.input1_count + ckt.input2_count;
    if declared != n_in || declared > wcnt {
        return Err(GarbleError::InputMismatch);
    }
    let mut ready: Vec<bool> = Vec::new();
    let mut w: usize = 0;
    while w < wcnt
        invariant
            w <= wcnt,
            ready.len() == w,
            forall|j: int| 0 <= j < w ==> ready@[j] == (j < declared),
        decreases wcnt - w,
    {
        ready.push(w < declared);
        w += 1;
    }
    assert(ready@ =~= populated(c, 0));
    let n_gates = ckt.gates.len();
    let n_inner = labels.inner_labels.len();
    let mut used: usize = 0;
    let mut idx: usize = 0;
    while idx < n_gates
        invariant
            idx <= n_gates,
            n_gates == ckt.gates.len(),
            n_inner == labels.inner_labels.len(),
            c == ckt@,
            l == labels@,
            inputs_match(c, l),
            ready@ == populated(c, idx as nat),
            ready.len() == ckt.total_wire_count,
            used == labels_needed(c, idx as nat),
            used <= n_inner,
            prefix_ready(c, l, idx as int),
        decreases n_gates - idx,
    {
        let gate = ckt.gates[idx];
        let (wired, out, takes) = match gate {
            GateDef::And { in0, in1, out } => (
                is_ready(&ready, in0) && is_ready(&ready, in1) && out < ready.len(),
                out,
                true,
            ),
            GateDef::Xor { in0, in1, out } => (
                is_ready(&ready, in0) && is_ready(&ready, in1) && out < ready.len(),
                out,
                false,
            ),
            GateDef::Not { input, out } => (is_ready(&ready, input) && out < ready.len(), out, true),
        };
        assert(wired == gate_wired(c, idx as int));
        assert(out == c.gates[idx as int].output());
        assert(takes == c.gates[idx as int].takes_label());
        if !wired {
            return Err(GarbleError::BrokenTopologicalOrder { gate: idx });
        }
        if takes {
            if used >= n_inner {
                return Err(GarbleError::ExhaustedLabelSupply { gate: idx });
            }
            used += 1;
        }
        assert(gate_supplied(c, l, idx as int));
        ready.set(out, true);
        idx += 1;
    }
    Ok(())
}

/// Garbles `ckt_inputs` with `label_inputs` if that can run to the end, and
/// says why not otherwise.
pub fn try_garble(ckt_inputs: CircuitInput, label_inputs: LabelInputs) -> (r: Result<
    GarbledOutput,
    GarbleError,
>)
    ensures
        match r {
            Ok(out) => garbleable(ckt_inputs@, label_inputs@) && out@ == garble_spec(
                ckt_inputs@,
                label_inputs@,
            ),
            Err(e) => verdict(ckt_inputs@, label_inputs@, Err(e)),
        },
{
    match validate(&ckt_inputs, &label_inputs) {
        Ok(_) => Ok(garble_ckt(ckt_inputs, label_inputs)),
        Err(e) => Err(e),
    }
}

} // verus!
