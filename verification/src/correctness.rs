//! What holds of every garbling run: the Free-XOR invariant, the counts of
//! what is emitted and consumed, and the equations by which an evaluator
//! opens a table row.

use vstd::prelude::*;
use crate::circuit::{Circuit, CircuitInput};
use crate::garble::{
    and_row, garble_spec, garbleable, gate_supplied, gate_wired, lemma_run_shape, not_row, run,
    GarbledOutput, Labels, LabelInputs, WirePair,
};
use crate::label::{is_label, lemma_xor_cancel, xor_spec};
use crate::pad::pad_spec;

verus! {

/// Number of AND gates among the first `n` gates of `c`.
pub open spec fn and_gates(c: Circuit, n: nat) -> nat
    decreases n,
{
    if n == 0 {
        0
    } else {
        and_gates(c, (n - 1) as nat) + if c.gates[n - 1] is And {
            1nat
        } else {
            0nat
        }
    }
}

/// Number of NOT gates among the first `n` gates of `c`.
pub open spec fn not_gates(c: Circuit, n: nat) -> nat
    decreases n,
{
    if n == 0 {
        0
    } else {
        not_gates(c, (n - 1) as nat) + if c.gates[n - 1] is Not {
            1nat
        } else {
            0nat
        }
    }
}

/// Position of the row for operand bits `(a, b)` in an AND table.
pub open spec fn and_row_index(a: bool, b: bool) -> int {
    (if a { 2int } else { 0int }) + (if b { 1int } else { 0int })
}

/// Position of the row for operand bit `a` in a NOT table.
pub open spec fn not_row_index(a: bool) -> int {
    if a { 1 } else { 0 }
}

/// Free-XOR invariant: in the state after any number of gates, the two labels
/// of every populated wire differ by the global offset.
pub proof fn lemma_free_xor_invariant(c: Circuit, l: Labels, n: nat, w: int)
    requires
        0 <= w < run(c, l, n).wires.len(),
        run(c, l, n).wires[w] is Some,
    ensures
        run(c, l, n).wires[w]->0.tied_by(l.delta),
    decreases n,
{
    if n > 0 {
        let prev = run(c, l, (n - 1) as nat);
        let out = c.gates[n - 1].output();
        if out < prev.wires.len() {
            if w != out {
                lemma_free_xor_invariant(c, l, (n - 1) as nat, w);
            }
        } else {
            lemma_free_xor_invariant(c, l, (n - 1) as nat, w);
        }
    }
}

/// Determinism: two outputs that garbling gives for equal circuits and equal
/// labels are equal, table by table and byte by byte.
pub proof fn lemma_garbling_deterministic(
    c1: CircuitInput,
    l1: LabelInputs,
    o1: GarbledOutput,
    c2: CircuitInput,
    l2: LabelInputs,
    o2: GarbledOutput,
)
    requires
        c1@ == c2@,
        l1@ == l2@,
        o1@ == garble_spec(c1@, l1@),
        o2@ == garble_spec(c2@, l2@),
    ensures
        o1@ == o2@,
{
}

/// After the first `n` gates there is one AND table per AND gate, one NOT
/// table per NOT gate, and one inner label consumed per table.
pub proof fn lemma_emitted_counts(c: Circuit, l: Labels, n: nat)
    ensures
        run(c, l, n).and_tables.len() == and_gates(c, n),
        run(c, l, n).not_tables.len() == not_gates(c, n),
        run(c, l, n).used == and_gates(c, n) + not_gates(c, n),
    decreases n,
{
    if n > 0 {
        lemma_emitted_counts(c, l, (n - 1) as nat);
    }
}

/// Conservation: where the header counts of `c` are those of its gates and
/// the inner labels are as many as the header asks for, garbling emits
/// `and_gate_count` AND tables and `not_gate_count` NOT tables and consumes
/// every inner label.
pub proof fn lemma_conservation(c: Circuit, l: Labels)
    requires
        c.and_gate_count == and_gates(c, c.gates.len()),
        c.not_gate_count == not_gates(c, c.gates.len()),
        l.inner_labels.len() == c.inner_wire_label_count(),
    ensures
        garble_spec(c, l).and_tables.len() == c.and_gate_count,
        garble_spec(c, l).not_tables.len() == c.not_gate_count,
        run(c, l, c.gates.len()).used == l.inner_labels.len(),
{
    lemma_emitted_counts(c, l, c.gates.len());
}

/// Tables are only ever appended: what the first `m` gates emitted stays in
/// place while the gates up to `n` are processed.
pub proof fn lemma_tables_kept(c: Circuit, l: Labels, m: nat, n: nat)
    requires
        m <= n,
    ensures
        run(c, l, m).and_tables.len() <= run(c, l, n).and_tables.len(),
        run(c, l, m).not_tables.len() <= run(c, l, n).not_tables.len(),
        forall|i: int|
            0 <= i < run(c, l, m).and_tables.len() ==> run(c, l, n).and_tables[i] == run(
                c,
                l,
                m,
            ).and_tables[i],
        forall|i: int|
            0 <= i < run(c, l, m).not_tables.len() ==> run(c, l, n).not_tables[i] == run(
                c,
                l,
                m,
            ).not_tables[i],
    decreases n,
{
    if m < n {
        lemma_tables_kept(c, l, m, (n - 1) as nat);
    }
}

/// AND correctness: for every AND gate `g` the output holds a table at the
/// gate's place in AND order that names this gate and its wires, and for all
/// operand bits `(a, b)` the pad of the operand labels opens row `(a, b)` to
/// the output label for `a && b`.
pub proof fn lemma_and_correct(c: Circuit, l: Labels, g: int, a: bool, b: bool)
    requires
        l.well_formed(),
        garbleable(c, l),
        0 <= g < c.gates.len(),
        c.gates[g] is And,
    ensures
        ({
            let before = run(c, l, g as nat);
            let after = run(c, l, (g + 1) as nat);
            let pos = and_gates(c, g as nat) as int;
            let t = garble_spec(c, l).and_tables[pos];
            let lu = before.wires[c.gates[g]->And_in0 as int]->0;
            let lv = before.wires[c.gates[g]->And_in1 as int]->0;
            let lo = after.wires[c.gates[g]->And_out as int]->0;
            &&& pos < garble_spec(c, l).and_tables.len()
            &&& t.gate == g
            &&& t.in0 == c.gates[g]->And_in0
            &&& t.in1 == c.gates[g]->And_in1
            &&& t.out == c.gates[g]->And_out
            &&& t.rows.len() == 4
            &&& t.rows[and_row_index(a, b)] == and_row(lu, lv, lo, a, b)
            &&& xor_spec(pad_spec(lu.select(a), lv.select(b)), t.rows[and_row_index(a, b)])
                == lo.select(a && b)
        }),
{
    let before = run(c, l, g as nat);
    let after = run(c, l, (g + 1) as nat);
    lemma_run_shape(c, l, g as nat);
    lemma_emitted_counts(c, l, g as nat);
    lemma_tables_kept(c, l, (g + 1) as nat, c.gates.len());
    assert(gate_wired(c, g));
    assert(gate_supplied(c, l, g));
    let lo = after.wires[c.gates[g]->And_out as int]->0;
    assert(lo == WirePair::from_zero(l.inner_labels[before.used as int], l.delta));
    assert(is_label(lo.select(a && b)));
    let lu = before.wires[c.gates[g]->And_in0 as int]->0;
    let lv = before.wires[c.gates[g]->And_in1 as int]->0;
    lemma_xor_cancel(lo.select(a && b), pad_spec(lu.select(a), lv.select(b)));
}

/// NOT correctness: for every NOT gate `g` the output holds a table at the
/// gate's place in NOT order that names this gate and its wires, and for each
/// operand bit `a` the pad of the operand label, taken twice, opens row `a`
/// to the output label for `!a`.
pub proof fn lemma_not_correct(c: Circuit, l: Labels, g: int, a: bool)
    requires
        l.well_formed(),
        garbleable(c, l),
        0 <= g < c.gates.len(),
        c.gates[g] is Not,
    ensures
        ({
            let before = run(c, l, g as nat);
            let after = run(c, l, (g + 1) as nat);
            let pos = not_gates(c, g as nat) as int;
            let t = garble_spec(c, l).not_tables[pos];
            let lu = before.wires[c.gates[g]->Not_input as int]->0;
            let lo = after.wires[c.gates[g]->Not_out as int]->0;
            &&& pos < garble_spec(c, l).not_tables.len()
            &&& t.gate == g
            &&& t.input == c.gates[g]->Not_input
            &&& t.out == c.gates[g]->Not_out
            &&& t.rows.len() == 2
            &&& t.rows[not_row_index(a)] == not_row(lu, lo, a)
            &&& xor_spec(pad_spec(lu.select(a), lu.select(a)), t.rows[not_row_index(a)])
                == lo.select(!a)
        }),
{
    let before = run(c, l, g as nat);
    let after = run(c, l, (g + 1) as nat);
    lemma_run_shape(c, l, g as nat);
    lemma_emitted_counts(c, l, g as nat);
    lemma_tables_kept(c, l, (g + 1) as nat, c.gates.len());
    assert(gate_wired(c, g));
    assert(gate_supplied(c, l, g));
    let lo = after.wires[c.gates[g]->Not_out as int]->0;
    assert(lo == WirePair::from_zero(l.inner_labels[before.used as int], l.delta));
    assert(is_label(lo.select(!a)));
    let lu = before.wires[c.gates[g]->Not_input as int]->0;
    lemma_xor_cancel(lo.select(!a), pad_spec(lu.select(a), lu.select(a)));
}

/// XOR linearity: an XOR gate gives its output the XOR of the operands'
/// zero-labels, emits no table and consumes no inner label.
pub proof fn lemma_xor_linear(c: Circuit, l: Labels, g: int)
    requires
        garbleable(c, l),
        0 <= g < c.gates.len(),
        c.gates[g] is Xor,
    ensures
        ({
            let before = run(c, l, g as nat);
            let after = run(c, l, (g + 1) as nat);
            let lu = before.wires[c.gates[g]->Xor_in0 as int]->0;
            let lv = before.wires[c.gates[g]->Xor_in1 as int]->0;
            let lo = after.wires[c.gates[g]->Xor_out as int];
            &&& lo is Some
            &&& lo->0.k0 == xor_spec(lu.k0, lv.k0)
            &&& after.and_tables == before.and_tables
            &&& after.not_tables == before.not_tables
            &&& after.used == before.used
        }),
{
    lemma_run_shape(c, l, g as nat);
    assert(gate_wired(c, g));
}

} // verus!
