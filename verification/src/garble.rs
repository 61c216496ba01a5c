//! The garbling engine: walks the sequence of gates, derives the label pair of
//! every wire, and emits a garbled table for each AND and NOT gate.

use vstd::prelude::*;
use crate::circuit::{Circuit, CircuitInput, GateDef};
use crate::label::{xor_labels, xor_spec, Label};
use crate::pad::{pad_sha, pad_spec};

verus! {

/// The secrets of one garbling run.
#[derive(Debug, Clone, PartialEq, Eq)]
pub struct LabelInputs {
    /// Global offset for Free-XOR, shared by all wires.
    pub delta: Label,
    /// Zero-labels of the primary input wires, in input order.
    pub input_labels: Vec<Label>,
    /// Zero-labels for the outputs of AND and NOT gates, in the order in
    /// which the gates are processed.
    pub inner_labels: Vec<Label>,
}

/// Mathematical model of [`LabelInputs`].
pub struct Labels {
    pub delta: Seq<u8>,
    pub input_labels: Seq<Seq<u8>>,
    pub inner_labels: Seq<Seq<u8>>,
}

/// The byte sequences of a list of labels.
pub open spec fn labels_view(v: Seq<Label>) -> Seq<Seq<u8>> {
    Seq::new(v.len(), |i: int| v[i]@)
}

impl View for LabelInputs {
    type V = Labels;

    open spec fn view(&self) -> Labels {
        Labels {
            delta: self.delta@,
            input_labels: labels_view(self.input_labels@),
            inner_labels: labels_view(self.inner_labels@),
        }
    }
}

impl Labels {
    /// Every label, the offset included, is 128 bits wide.
    pub open spec fn well_formed(self) -> bool {
        &&& self.delta.len() == 16
        &&& forall|i: int| 0 <= i < self.input_labels.len() ==> (#[trigger] self.input_labels[i]).len() == 16
        &&& forall|i: int| 0 <= i < self.inner_labels.len() ==> (#[trigger] self.inner_labels[i]).len() == 16
    }
}

/// The two labels of a wire: `k0` stands for false, `k1` for true.
#[derive(Debug, Clone, Copy, PartialEq, Eq)]
pub struct WireLabels {
    pub k0: Label,
    pub k1: Label,
}

/// Mathematical model of [`WireLabels`].
pub struct WirePair {
    pub k0: Seq<u8>,
    pub k1: Seq<u8>,
}

impl View for WireLabels {
    type V = WirePair;

    open spec fn view(&self) -> WirePair {
        WirePair { k0: self.k0@, k1: self.k1@ }
    }
}

impl WirePair {
    /// The pair whose zero-label is `k0` under the global offset `delta`.
    pub open spec fn from_zero(k0: Seq<u8>, delta: Seq<u8>) -> WirePair {
        WirePair { k0, k1: xor_spec(k0, delta) }
    }

    /// Whether the two labels differ by `delta`.
    pub open spec fn tied_by(self, delta: Seq<u8>) -> bool {
        self.k1 == xor_spec(self.k0, delta)
    }

    /// The label that stands for `bit`.
    pub open spec fn select(self, bit: bool) -> Seq<u8> {
        if bit {
            self.k1
        } else {
            self.k0
        }
    }
}

/// Garbled table of one AND gate.
#[derive(Debug, Clone, PartialEq, Eq)]
pub struct AndGateTable {
    pub gate: usize,
    pub in0: usize,
    pub in1: usize,
    pub out: usize,
    /// Four ciphertexts ordered (a=0,b=0), (0,1), (1,0), (1,1).
    pub table: [Label; 4],
}

/// Garbled table of one NOT gate.
#[derive(Debug, Clone, PartialEq, Eq)]
pub struct NotGateTable {
    pub gate: usize,
    pub input: usize,
    pub out: usize,
    /// Two ciphertexts ordered a=0, a=1.
    pub table: [Label; 2],
}

/// Mathematical model of an [`AndGateTable`].
pub struct AndTable {
    pub gate: int,
    pub in0: usize,
    pub in1: usize,
    pub out: usize,
    pub rows: Seq<Seq<u8>>,
}

/// Mathematical model of a [`NotGateTable`].
pub struct NotTable {
    pub gate: int,
    pub input: usize,
    pub out: usize,
    pub rows: Seq<Seq<u8>>,
}

impl View for AndGateTable {
    type V = AndTable;

    open spec fn view(&self) -> AndTable {
        AndTable {
            gate: self.gate as int,
            in0: self.in0,
            in1: self.in1,
            out: self.out,
            rows: labels_view(self.table@),
        }
    }
}

impl View for NotGateTable {
    type V = NotTable;

    open spec fn view(&self) -> NotTable {
        NotTable {
            gate: self.gate as int,
            input: self.input,
            out: self.out,
            rows: labels_view(self.table@),
        }
    }
}

/// What garbling hands to the evaluator: the AND tables in AND order and the
/// NOT tables in NOT order, each with the index of its gate.
#[derive(Debug, Clone, PartialEq, Eq)]
pub struct GarbledOutput {
    pub and_tables: Vec<AndGateTable>,
    pub not_tables: Vec<NotGateTable>,
}

/// Mathematical model of a [`GarbledOutput`].
pub struct Garbled {
    pub and_tables: Seq<AndTable>,
    pub not_tables: Seq<NotTable>,
}

impl View for GarbledOutput {
    type V = Garbled;

    open spec fn view(&self) -> Garbled {
        Garbled {
            and_tables: and_tables_view(self.and_tables@),
            not_tables: not_tables_view(self.not_tables@),
        }
    }
}

/// Row (a, b) of an AND table: the pad of the operand labels for `a` and `b`
/// masks the output label for `a && b`.
pub open spec fn and_row(lu: WirePair, lv: WirePair, lo: WirePair, a: bool, b: bool) -> Seq<u8> {
    xor_spec(pad_spec(lu.select(a), lv.select(b)), lo.select(a && b))
}

/// The four rows of an AND table, ordered (0,0), (0,1), (1,0), (1,1).
pub open spec fn and_rows(lu: WirePair, lv: WirePair, lo: WirePair) -> Seq<Seq<u8>> {
    seq![
        and_row(lu, lv, lo, false, false),
        and_row(lu, lv, lo, false, true),
        and_row(lu, lv, lo, true, false),
        and_row(lu, lv, lo, true, true),
    ]
}

/// Row `a` of a NOT table: the pad of the operand label for `a`, taken twice,
/// masks the output label for `!a`.
pub open spec fn not_row(lu: WirePair, lo: WirePair, a: bool) -> Seq<u8> {
    xor_spec(pad_spec(lu.select(a), lu.select(a)), lo.select(!a))
}

/// The two rows of a NOT table, ordered 0, 1.
pub open spec fn not_rows(lu: WirePair, lo: WirePair) -> Seq<Seq<u8>> {
    seq![not_row(lu, lo, false), not_row(lu, lo, true)]
}

/// The scratch state of a garbling pass.
pub struct GarbleState {
    /// One slot per wire, empty or holding the wire's labels.
    pub wires: Seq<Option<WirePair>>,
    /// Number of inner labels consumed so far.
    pub used: nat,
    pub and_tables: Seq<AndTable>,
    pub not_tables: Seq<NotTable>,
}

/// `wires` with slot `w` filled; unchanged where `w` is no slot.
pub open spec fn assign(wires: Seq<Option<WirePair>>, w: usize, pair: WirePair) -> Seq<Option<WirePair>> {
    if w < wires.len() {
        wires.update(w as int, Some(pair))
    } else {
        wires
    }
}

/// The state before the first gate: the primary input wires hold their
/// labels, every other slot is empty, nothing is consumed or emitted.
pub open spec fn initial_state(c: Circuit, l: Labels) -> GarbleState {
    GarbleState {
        wires: Seq::new(
            c.total_wire_count as nat,
            |w: int|
                if w < l.input_labels.len() {
                    Some(WirePair::from_zero(l.input_labels[w], l.delta))
                } else {
                    None
                },
        ),
        used: 0,
        and_tables: Seq::empty(),
        not_tables: Seq::empty(),
    }
}

/// The state after gate `gate`, which has index `idx`, is processed in `st`.
pub open spec fn step(st: GarbleState, idx: int, gate: GateDef, l: Labels) -> GarbleState {
    match gate {
        GateDef::Xor { in0, in1, out } => {
            let k0 = xor_spec(st.wires[in0 as int]->0.k0, st.wires[in1 as int]->0.k0);
            GarbleState { wires: assign(st.wires, out, WirePair::from_zero(k0, l.delta)), ..st }
        },
        GateDef::And { in0, in1, out } => {
            let lo = WirePair::from_zero(l.inner_labels[st.used as int], l.delta);
            let rows = and_rows(st.wires[in0 as int]->0, st.wires[in1 as int]->0, lo);
            GarbleState {
                wires: assign(st.wires, out, lo),
                used: st.used + 1,
                and_tables: st.and_tables.push(AndTable { gate: idx, in0, in1, out, rows }),
                not_tables: st.not_tables,
            }
        },
        GateDef::Not { input, out } => {
            let lo = WirePair::from_zero(l.inner_labels[st.used as int], l.delta);
            let rows = not_rows(st.wires[input as int]->0, lo);
            GarbleState {
                wires: assign(st.wires, out, lo),
                used: st.used + 1,
                and_tables: st.and_tables,
                not_tables: st.not_tables.push(NotTable { gate: idx, input, out, rows }),
            }
        },
    }
}

/// The state after the first `n` gates of `c`.
pub open spec fn run(c: Circuit, l: Labels, n: nat) -> GarbleState
    decreases n,
{
    if n == 0 {
        initial_state(c, l)
    } else {
        step(run(c, l, (n - 1) as nat), n - 1, c.gates[n - 1], l)
    }
}

/// The garbled circuit: the tables emitted over the whole gate sequence.
pub open spec fn garble_spec(c: Circuit, l: Labels) -> Garbled {
    let st = run(c, l, c.gates.len());
    Garbled { and_tables: st.and_tables, not_tables: st.not_tables }
}

/// Which wires hold labels after the first `n` gates of `c`.
pub open spec fn populated(c: Circuit, n: nat) -> Seq<bool>
    decreases n,
{
    if n == 0 {
        Seq::new(c.total_wire_count as nat, |w: int| w < c.input_wire_count())
    } else {
        let prev = populated(c, (n - 1) as nat);
        let out = c.gates[n - 1].output();
        if out < prev.len() {
            prev.update(out as int, true)
        } else {
            prev
        }
    }
}

/// Number of inner labels that the first `n` gates of `c` consume.
pub open spec fn labels_needed(c: Circuit, n: nat) -> nat
    decreases n,
{
    if n == 0 {
        0
    } else {
        labels_needed(c, (n - 1) as nat) + if c.gates[n - 1].takes_label() {
            1nat
        } else {
            0nat
        }
    }
}

/// Whether wire `w` is a slot that holds labels in `ready`.
pub open spec fn holds(ready: Seq<bool>, w: usize) -> bool {
    w < ready.len() && ready[w as int]
}

/// Whether gate `g` of `c` reads only wires that earlier gates or the inputs
/// have assigned, and assigns a wire that exists.
pub open spec fn gate_wired(c: Circuit, g: int) -> bool {
    let ready = populated(c, g as nat);
    match c.gates[g] {
        GateDef::And { in0, in1, out } => holds(ready, in0) && holds(ready, in1) && out < ready.len(),
        GateDef::Xor { in0, in1, out } => holds(ready, in0) && holds(ready, in1) && out < ready.len(),
        GateDef::Not { input, out } => holds(ready, input) && out < ready.len(),
    }
}

/// Whether an inner label is left for gate `g` of `c`, if it takes one.
pub open spec fn gate_supplied(c: Circuit, l: Labels, g: int) -> bool {
    c.gates[g].takes_label() ==> labels_needed(c, g as nat) < l.inner_labels.len()
}

/// Whether the labels cover the primary inputs of `c`: one input label per
/// input wire, and no more input wires than wires.
pub open spec fn inputs_match(c: Circuit, l: Labels) -> bool {
    l.input_labels.len() == c.input_wire_count() && c.input_wire_count() <= c.total_wire_count
}

/// Whether `c` can be garbled with `l`: the inputs match, the order of gates is
/// topological over wires that exist, and the inner labels suffice.
pub open spec fn garbleable(c: Circuit, l: Labels) -> bool {
    &&& inputs_match(c, l)
    &&& forall|g: int| 0 <= g < c.gates.len() ==> #[trigger] gate_wired(c, g)
    &&& forall|g: int| 0 <= g < c.gates.len() ==> #[trigger] gate_supplied(c, l, g)
}

/// The slots of a wire table as label pairs.
pub open spec fn slots_view(v: Seq<Option<WireLabels>>) -> Seq<Option<WirePair>> {
    Seq::new(
        v.len(),
        |i: int|
            match v[i] {
                Some(w) => Some(w@),
                None => None,
            },
    )
}

/// The tables of a list of AND tables.
pub open spec fn and_tables_view(v: Seq<AndGateTable>) -> Seq<AndTable> {
    Seq::new(v.len(), |i: int| v[i]@)
}

/// The tables of a list of NOT tables.
pub open spec fn not_tables_view(v: Seq<NotGateTable>) -> Seq<NotTable> {
    Seq::new(v.len(), |i: int| v[i]@)
}

/// After any prefix of the gates the wire table has one slot per wire, the
/// filled slots are those that `populated` names, and the labels consumed are
/// those that `labels_needed` counts.
pub proof fn lemma_run_shape(c: Circuit, l: Labels, n: nat)
    requires
        inputs_match(c, l),
        n <= c.gates.len(),
    ensures
        run(c, l, n).wires.len() == c.total_wire_count,
        populated(c, n).len() == c.total_wire_count,
        forall|w: int|
            0 <= w < c.total_wire_count ==> (#[trigger] run(c, l, n).wires[w] is Some) == populated(
                c,
                n,
            )[w],
        run(c, l, n).used == labels_needed(c, n),
    decreases n,
{
    if n > 0 {
        lemma_run_shape(c, l, (n - 1) as nat);
    }
}

impl WireLabels {
    /// The pair whose zero-label is `k0` under the global offset `delta`.
    pub fn from_zero(k0: Label, delta: &Label) -> (w: WireLabels)
        ensures
            w@ == WirePair::from_zero(k0@, delta@),
            w@.tied_by(delta@),
    {
        let k1 = xor_labels(&k0, delta);
        WireLabels { k0, k1 }
    }
}

/// Garbles one AND gate whose operands carry `lu` and `lv` and whose output
/// carries `lo`.
pub fn garble_and(lu: &WireLabels, lv: &WireLabels, lo: &WireLabels) -> (table: [Label; 4])
    ensures
        labels_view(table@) == and_rows(lu@, lv@, lo@),
{
    let r00 = xor_labels(&pad_sha(&lu.k0, &lv.k0), &lo.k0);
    let r01 = xor_labels(&pad_sha(&lu.k0, &lv.k1), &lo.k0);
    let r10 = xor_labels(&pad_sha(&lu.k1, &lv.k0), &lo.k0);
    let r11 = xor_labels(&pad_sha(&lu.k1, &lv.k1), &lo.k1);
    let table = [r00, r01, r10, r11];
    assert(labels_view(table@) =~= and_rows(lu@, lv@, lo@));
    table
}

/// Garbles one NOT gate whose operand carries `lu` and whose output carries
/// `lo`.
pub fn garble_not(lu: &WireLabels, lo: &WireLabels) -> (table: [Label; 2])
    ensures
        labels_view(table@) == not_rows(lu@, lo@),
{
    let r0 = xor_labels(&pad_sha(&lu.k0, &lu.k0), &lo.k1);
    let r1 = xor_labels(&pad_sha(&lu.k1, &lu.k1), &lo.k0);
    let table = [r0, r1];
    assert(labels_view(table@) =~= not_rows(lu@, lo@));
    table
}

/// The wire table before the first gate.
fn initial_wires(ckt: &CircuitInput, labels: &LabelInputs) -> (wires: Vec<Option<WireLabels>>)
    requires
        inputs_match(ckt@, labels@),
    ensures
        slots_view(wires@) == initial_state(ckt@, labels@).wires,
{
    let n_in = labels.input_labels.len();
    let wcnt = ckt.total_wire_count;
    let mut wires: Vec<Option<WireLabels>> = Vec::new();
    let mut i: usize = 0;
    while i < n_in
        invariant
            i <= n_in,
            n_in == labels.input_labels.len(),
            wires.len() == i,
            forall|w: int|
                0 <= w < i ==> wires@[w] is Some && (#[trigger] wires@[w])->0@ == WirePair::from_zero(
                    labels@.input_labels[w],
                    labels@.delta,
                ),
        decreases n_in - i,
    {
        let pair = WireLabels::from_zero(labels.input_labels[i], &labels.delta);
        wires.push(Some(pair));
        i += 1;
    }
    while i < wcnt
        invariant
            n_in <= i <= wcnt,
            n_in == labels.input_labels.len(),
            wires.len() == i,
            forall|w: int|
                0 <= w < n_in ==> wires@[w] is Some && (#[trigger] wires@[w])->0@ == WirePair::from_zero(
                    labels@.input_labels[w],
                    labels@.delta,
                ),
            forall|w: int| n_in <= w < i ==> wires@[w] is None,
        decreases wcnt - i,
    {
        wires.push(None);
        i += 1;
    }
    assert(slots_view(wires@) =~= initial_state(ckt@, labels@).wires);
    wires
}

/// Garbles `ckt_inputs` with `label_inputs`: processes the gates in order,
/// gives every assigned wire its label pair, and returns the tables of the
/// AND and NOT gates. Circuits whose gates read unassigned wires, and label
/// sets that run out, are excluded by `garbleable`; [`try_garble`] tests it.
pub fn garble_ckt(ckt_inputs: CircuitInput, label_inputs: LabelInputs) -> (out: GarbledOutput)
    requires
        garbleable(ckt_inputs@, label_inputs@),
    ensures
        out@ == garble_spec(ckt_inputs@, label_inputs@),
{
    let ghost c = ckt_inputs@;
    let ghost l = label_inputs@;
    let mut wires = initial_wires(&ckt_inputs, &label_inputs);
    let mut and_tables: Vec<AndGateTable> = Vec::new();
    let mut not_tables: Vec<NotGateTable> = Vec::new();
    let n_gates = ckt_inputs.gates.len();
    let mut used: usize = 0;
    let mut idx: usize = 0;
    assert(and_tables_view(and_tables@) =~= run(c, l, 0).and_tables);
    assert(not_tables_view(not_tables@) =~= run(c, l, 0).not_tables);
    while idx < n_gates
        invariant
            idx <= n_gates,
            n_gates == ckt_inputs.gates.len(),
            c == ckt_inputs@,
            l == label_inputs@,
            garbleable(c, l),
            l.inner_labels.len() == label_inputs.inner_labels.len(),
            slots_view(wires@) == run(c, l, idx as nat).wires,
            used == run(c, l, idx as nat).used,
            and_tables_view(and_tables@) == run(c, l, idx as nat).and_tables,
            not_tables_view(not_tables@) == run(c, l, idx as nat).not_tables,
        decreases n_gates - idx,
    {
        proof {
            lemma_run_shape(c, l, idx as nat);
            assert(gate_wired(c, idx as int));
            assert(gate_supplied(c, l, idx as int));
        }
        let ghost before = run(c, l, idx as nat);
        let ghost old_wires = wires@;
        assert(wires@.len() == slots_view(wires@).len());
        match ckt_inputs.gates[idx] {
            GateDef::Xor { in0, in1, out } => {
                assert(before.wires[in0 as int] is Some);
                assert(before.wires[in1 as int] is Some);
                let lu = wires[in0].unwrap();
                let lv = wires[in1].unwrap();
                let k0 = xor_labels(&lu.k0, &lv.k0);
                let lo = WireLabels::from_zero(k0, &label_inputs.delta);
                wires.set(out, Some(lo));
                assert(slots_view(wires@) =~= assign(slots_view(old_wires), out, lo@));
            },
            GateDef::And { in0, in1, out } => {
                assert(before.wires[in0 as int] is Some);
                assert(before.wires[in1 as int] is Some);
                let lu = wires[in0].unwrap();
                let lv = wires[in1].unwrap();
                let lo = WireLabels::from_zero(label_inputs.inner_labels[used], &label_inputs.delta);
                used += 1;
                wires.set(out, Some(lo));
                assert(slots_view(wires@) =~= assign(slots_view(old_wires), out, lo@));
                let table = garble_and(&lu, &lv, &lo);
                let entry = AndGateTable { gate: idx, in0, in1, out, table };
                let ghost old_tables = and_tables@;
                and_tables.push(entry);
                assert(and_tables_view(and_tables@) =~= and_tables_view(old_tables).push(entry@));
            },
            GateDef::Not { input, out } => {
                assert(before.wires[input as int] is Some);
                let lu = wires[input].unwrap();
                let lo = WireLabels::from_zero(label_inputs.inner_labels[used], &label_inputs.delta);
                used += 1;
                wires.set(out, Some(lo));
                assert(slots_view(wires@) =~= assign(slots_view(old_wires), out, lo@));
                let table = garble_not(&lu, &lo);
                let entry = NotGateTable { gate: idx, input, out, table };
                let ghost old_tables = not_tables@;
                not_tables.push(entry);
                assert(not_tables_view(not_tables@) =~= not_tables_view(old_tables).push(entry@));
            },
        }
        idx += 1;
    }
    let out = GarbledOutput { and_tables, not_tables };
    assert(out@.and_tables =~= and_tables_view(out.and_tables@));
    assert(out@.not_tables =~= not_tables_view(out.not_tables@));
    out
}

} // verus!
