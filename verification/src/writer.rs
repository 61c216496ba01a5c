//! The writer of Bristol descriptions: the text that the loader reads back
//! as the same circuit.

use vstd::prelude::*;
use crate::bristol::{op_and, op_inv, op_xor, parse_spec, Fault};
use crate::roundtrip::lemma_roundtrip;
use crate::circuit::{Circuit, CircuitInput, GateDef};

verus! {

/// The decimal digits of `n`, without leading zeros.
pub open spec fn decimal(n: nat) -> Seq<u8>
    decreases n,
{
    if n < 10 {
        seq![(0x30 + n) as u8]
    } else {
        decimal(n / 10).push((0x30 + n % 10) as u8)
    }
}

/// Three fields on one line, a blank between neighbours.
pub open spec fn fields3(a: Seq<u8>, b: Seq<u8>, c: Seq<u8>) -> Seq<u8> {
    a + seq![0x20u8] + b + seq![0x20u8] + c
}

/// Four fields on one line, a blank between neighbours.
pub open spec fn fields4(a: Seq<u8>, b: Seq<u8>, c: Seq<u8>, d: Seq<u8>) -> Seq<u8> {
    a + seq![0x20u8] + b + seq![0x20u8] + c + seq![0x20u8] + d
}

/// A header line without its line feed.
pub open spec fn header_body(a: usize, b: usize, c: usize, d: usize) -> Seq<u8> {
    fields4(decimal(a as nat), decimal(b as nat), decimal(c as nat), decimal(d as nat))
}

/// The line of a gate, without its line feed.
pub open spec fn gate_body(g: GateDef) -> Seq<u8> {
    match g {
        GateDef::And { in0, in1, out } => fields4(
            op_and(),
            decimal(in0 as nat),
            decimal(in1 as nat),
            decimal(out as nat),
        ),
        GateDef::Xor { in0, in1, out } => fields4(
            op_xor(),
            decimal(in0 as nat),
            decimal(in1 as nat),
            decimal(out as nat),
        ),
        GateDef::Not { input, out } => fields3(op_inv(), decimal(input as nat), decimal(out as nat)),
    }
}

/// The lines of a gate sequence, each ended by a line feed.
pub open spec fn gates_text(gates: Seq<GateDef>) -> Seq<u8>
    decreases gates.len(),
{
    if gates.len() == 0 {
        Seq::empty()
    } else {
        gates_text(gates.drop_last()) + gate_body(gates.last()).push(0x0A)
    }
}

/// The description of `c`: the two header lines with the counts of `c`, then
/// one line per gate in sequence order.
pub open spec fn bristol_text(c: Circuit) -> Seq<u8> {
    header_body(c.total_gate_count, c.and_gate_count, c.xor_gate_count, c.not_gate_count).push(
        0x0A,
    ) + header_body(
        c.total_wire_count,
        c.input1_count,
        c.input2_count,
        c.output_wire_count,
    ).push(0x0A) + gates_text(c.gates)
}

/// Appends the decimal digits of `n` to `out`.
fn push_decimal(out: &mut Vec<u8>, n: usize)
    ensures
        final(out)@ == old(out)@ + decimal(n as nat),
    decreases n,
{
    if n >= 10 {
        push_decimal(out, n / 10);
    }
    let digit = (n % 10) as u8;
    out.push(0x30 + digit);
    assert(out@ =~= old(out)@ + decimal(n as nat));
}

/// Appends a blank and the decimal digits of `n` to `out`.
fn push_field(out: &mut Vec<u8>, n: usize)
    ensures
        final(out)@ == old(out)@ + seq![0x20u8] + decimal(n as nat),
{
    out.push(0x20);
    push_decimal(out, n);
    assert(out@ =~= old(out)@ + seq![0x20u8] + decimal(n as nat));
}

/// Appends a header line to `out`.
fn push_header(out: &mut Vec<u8>, a: usize, b: usize, c: usize, d: usize)
    ensures
        final(out)@ == old(out)@ + header_body(a, b, c, d).push(0x0A),
{
    push_decimal(out, a);
    push_field(out, b);
    push_field(out, c);
    push_field(out, d);
    out.push(0x0A);
    assert(out@ =~= old(out)@ + header_body(a, b, c, d).push(0x0A));
}

/// Appends the three bytes of an opcode to `out`.
fn push_word(out: &mut Vec<u8>, w0: u8, w1: u8, w2: u8)
    ensures
        final(out)@ == old(out)@ + seq![w0, w1, w2],
{
    out.push(w0);
    out.push(w1);
    out.push(w2);
    assert(out@ =~= old(out)@ + seq![w0, w1, w2]);
}

/// Appends the line of `g` to `out`.
fn push_gate(out: &mut Vec<u8>, g: GateDef)
    ensures
        final(out)@ == old(out)@ + gate_body(g).push(0x0A),
{
    match g {
        GateDef::And { in0, in1, out: o } => {
            push_word(out, 0x41, 0x4E, 0x44);
            push_field(out, in0);
            push_field(out, in1);
            push_field(out, o);
        },
        GateDef::Xor { in0, in1, out: o } => {
            push_word(out, 0x58, 0x4F, 0x52);
            push_field(out, in0);
            push_field(out, in1);
            push_field(out, o);
        },
        GateDef::Not { input, out: o } => {
            push_word(out, 0x49, 0x4E, 0x56);
            push_field(out, input);
            push_field(out, o);
        },
    }
    out.push(0x0A);
    assert(out@ =~= old(out)@ + gate_body(g).push(0x0A));
}

/// Writes `ckt` as a Bristol description: the counts as they stand in `ckt`
/// and every gate of `ckt.gates`, in order. [`parse_bristol`] reads the text
/// back as `ckt` where `total_gate_count` is the number of gates.
///
/// [`parse_bristol`]: crate::loader::parse_bristol
pub fn write_bristol(ckt: &CircuitInput) -> (text: Vec<u8>)
    ensures
        text@ == bristol_text(ckt@),
        ckt@.gates.len() == ckt@.total_gate_count ==> parse_spec(text@) == Ok::<Circuit, Fault>(
            ckt@,
        ),
{
    let mut text: Vec<u8> = Vec::new();
    push_header(
        &mut text,
        ckt.total_gate_count,
        ckt.and_gate_count,
        ckt.xor_gate_count,
        ckt.not_gate_count,
    );
    push_header(
        &mut text,
        ckt.total_wire_count,
        ckt.input1_count,
        ckt.input2_count,
        ckt.output_wire_count,
    );
    let ghost head = text@;
    let n = ckt.gates.len();
    let mut i: usize = 0;
    assert(ckt.gates@.subrange(0, 0) =~= Seq::<GateDef>::empty());
    assert(text@ =~= head + gates_text(ckt.gates@.subrange(0, 0)));
    while i < n
        invariant
            i <= n,
            n == ckt.gates.len(),
            text@ == head + gates_text(ckt.gates@.subrange(0, i as int)),
        decreases n - i,
    {
        let ghost before = ckt.gates@.subrange(0, i as int);
        let ghost after = ckt.gates@.subrange(0, i + 1);
        assert(after.drop_last() =~= before);
        assert(after.last() == ckt.gates@[i as int]);
        push_gate(&mut text, ckt.gates[i]);
        assert(text@ =~= head + gates_text(after));
        i += 1;
    }
    assert(ckt.gates@.subrange(0, n as int) =~= ckt.gates@);
    assert(text@ =~= bristol_text(ckt@));
    proof {
        if ckt@.gates.len() == ckt@.total_gate_count {
            lemma_roundtrip(ckt@);
        }
    }
    text
}

} // verus!
