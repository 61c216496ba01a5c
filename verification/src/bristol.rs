//! The Bristol text format of a circuit and its loader.
//!
//! A description is a sequence of lines, each ended by a line feed. The first
//! line holds `<total_gates> <and_gates> <xor_gates> <not_gates>`, the second
//! `<total_wires> <garbler_inputs> <evaluator_inputs> <output_wires>`, and
//! each of the next `total_gates` lines one gate: `AND u v o`, `XOR u v o` or
//! `INV u o`. Fields are separated by white space; what follows the last
//! field of a line is ignored. The loader checks neither that the declared
//! counts are those of the gates nor that the order of gates is topological.

use vstd::prelude::*;
use crate::circuit::{Circuit, GateDef};

verus! {

/// Why a description could not be loaded. Lines are counted from zero.
#[derive(Debug, Clone, PartialEq, Eq)]
pub enum ParseError {
    /// Line `line` ends before all of its fields were read.
    MissingField { line: usize },
    /// On line `line`, `token` stands where an unsigned decimal number that
    /// fits the machine word is expected.
    InvalidNumber { line: usize, token: Vec<u8> },
    /// Line `line` is a gate line whose first field, `token`, is none of
    /// `AND`, `XOR`, `INV`.
    UnknownGate { line: usize, token: Vec<u8> },
}

/// Mathematical model of a [`ParseError`].
pub enum Fault {
    MissingField { line: int },
    InvalidNumber { line: int, token: Seq<u8> },
    UnknownGate { line: int, token: Seq<u8> },
}

impl View for ParseError {
    type V = Fault;

    open spec fn view(&self) -> Fault {
        match *self {
            ParseError::MissingField { line } => Fault::MissingField { line: line as int },
            ParseError::InvalidNumber { line, token } => Fault::InvalidNumber {
                line: line as int,
                token: token@,
            },
            ParseError::UnknownGate { line, token } => Fault::UnknownGate {
                line: line as int,
                token: token@,
            },
        }
    }
}

/// Whether three bytes encode one of the white-space characters U+1680,
/// U+2000 to U+200A, U+2028, U+2029, U+202F, U+205F, U+3000 in UTF-8.
pub open spec fn wide_space(b0: u8, b1: u8, b2: u8) -> bool {
    ||| b0 == 0xE1 && b1 == 0x9A && b2 == 0x80
    ||| b0 == 0xE2 && b1 == 0x80 && (0x80 <= b2 <= 0x8A || b2 == 0xA8 || b2 == 0xA9 || b2 == 0xAF)
    ||| b0 == 0xE2 && b1 == 0x81 && b2 == 0x9F
    ||| b0 == 0xE3 && b1 == 0x80 && b2 == 0x80
}

/// Number of bytes of the white-space character that starts at `i` in `s`,
/// and 0 where none starts there. White space is what Unicode calls so:
/// U+0009 to U+000D, the blank, U+0085, U+00A0 and the characters of
/// [`wide_space`], each in its UTF-8 encoding.
pub open spec fn space_len(s: Seq<u8>, i: int) -> int {
    if i < 0 || i >= s.len() {
        0
    } else if s[i] == 0x20 || 0x09 <= s[i] <= 0x0D {
        1
    } else if i + 1 < s.len() && s[i] == 0xC2 && (s[i + 1] == 0x85 || s[i + 1] == 0xA0) {
        2
    } else if i + 2 < s.len() && wide_space(s[i], s[i + 1], s[i + 2]) {
        3
    } else {
        0
    }
}

/// The first position at or after `i` where no white space starts.
pub open spec fn skip_spaces(s: Seq<u8>, i: int) -> int
    decreases s.len() - i,
{
    if space_len(s, i) > 0 {
        skip_spaces(s, i + space_len(s, i))
    } else {
        i
    }
}

/// The first position at or after `i` where white space starts or `s` ends.
pub open spec fn token_end(s: Seq<u8>, i: int) -> int
    decreases s.len() - i,
{
    if i < 0 || i >= s.len() || space_len(s, i) > 0 {
        i
    } else {
        token_end(s, i + 1)
    }
}

/// The position in `s` from which field `k` is looked for: the start of `s`
/// for the first field, the end of the field before for the others.
pub open spec fn cursor(s: Seq<u8>, k: nat) -> int
    decreases k,
{
    if k == 0 {
        0
    } else {
        token_end(s, skip_spaces(s, cursor(s, (k - 1) as nat)))
    }
}

/// Field `k` of the line `s`: its `k`-th maximal run of bytes free of white
/// space, counted from zero; `None` where the line has no such field.
pub open spec fn token(s: Seq<u8>, k: nat) -> Option<Seq<u8>> {
    let start = skip_spaces(s, cursor(s, k));
    if start < s.len() {
        Some(s.subrange(start, token_end(s, start)))
    } else {
        None
    }
}

/// Whether `b` is an ASCII decimal digit.
pub open spec fn is_digit(b: u8) -> bool {
    0x30 <= b <= 0x39
}

/// The value of the digit `b`.
pub open spec fn digit_of(b: u8) -> nat {
    if is_digit(b) {
        (b - 0x30) as nat
    } else {
        0
    }
}

/// The number that the decimal digits `d` write.
pub open spec fn digits_value(d: Seq<u8>) -> nat
    decreases d.len(),
{
    if d.len() == 0 {
        0
    } else {
        digits_value(d.drop_last()) * 10 + digit_of(d.last())
    }
}

/// Whether every byte of `d` is a decimal digit.
pub open spec fn all_digits(d: Seq<u8>) -> bool {
    forall|i: int| 0 <= i < d.len() ==> is_digit(#[trigger] d[i])
}

/// The digits of a number token: the token without a leading plus sign.
pub open spec fn number_digits(tok: Seq<u8>) -> Seq<u8> {
    if tok.len() > 0 && tok[0] == 0x2B {
        tok.subrange(1, tok.len() as int)
    } else {
        tok
    }
}

/// The number that `tok` writes: one or more decimal digits, after at most
/// one plus sign, whose value fits the machine word.
pub open spec fn number(tok: Seq<u8>) -> Option<usize> {
    let d = number_digits(tok);
    if d.len() > 0 && all_digits(d) && digits_value(d) <= usize::MAX {
        Some(digits_value(d) as usize)
    } else {
        None
    }
}

/// Field `k` of line `s`, read as a number; `line` is the line's index.
pub open spec fn field(s: Seq<u8>, line: int, k: nat) -> Result<usize, Fault> {
    match token(s, k) {
        None => Err(Fault::MissingField { line }),
        Some(tok) => match number(tok) {
            None => Err(Fault::InvalidNumber { line, token: tok }),
            Some(v) => Ok(v),
        },
    }
}

/// The four counts of a header line, or the fault of its first bad field.
pub open spec fn header(s: Seq<u8>, line: int) -> Result<(usize, usize, usize, usize), Fault> {
    match field(s, line, 0) {
        Err(e) => Err(e),
        Ok(a) => match field(s, line, 1) {
            Err(e) => Err(e),
            Ok(b) => match field(s, line, 2) {
                Err(e) => Err(e),
                Ok(c) => match field(s, line, 3) {
                    Err(e) => Err(e),
                    Ok(d) => Ok((a, b, c, d)),
                },
            },
        },
    }
}

/// The opcode `AND`.
pub open spec fn op_and() -> Seq<u8> {
    seq![0x41u8, 0x4Eu8, 0x44u8]
}

/// The opcode `XOR`.
pub open spec fn op_xor() -> Seq<u8> {
    seq![0x58u8, 0x4Fu8, 0x52u8]
}

/// The opcode `INV`.
pub open spec fn op_inv() -> Seq<u8> {
    seq![0x49u8, 0x4Eu8, 0x56u8]
}

/// A two-operand gate line: fields 1 and 2 are the operands, field 3 is the
/// output.
pub open spec fn binary_gate(s: Seq<u8>, line: int, is_and: bool) -> Result<GateDef, Fault> {
    match field(s, line, 1) {
        Err(e) => Err(e),
        Ok(in0) => match field(s, line, 2) {
            Err(e) => Err(e),
            Ok(in1) => match field(s, line, 3) {
                Err(e) => Err(e),
                Ok(out) => Ok(
                    if is_and {
                        GateDef::And { in0, in1, out }
                    } else {
                        GateDef::Xor { in0, in1, out }
                    },
                ),
            },
        },
    }
}

/// A one-operand gate line: field 1 is the operand, field 2 is the output.
pub open spec fn unary_gate(s: Seq<u8>, line: int) -> Result<GateDef, Fault> {
    match field(s, line, 1) {
        Err(e) => Err(e),
        Ok(input) => match field(s, line, 2) {
            Err(e) => Err(e),
            Ok(out) => Ok(GateDef::Not { input, out }),
        },
    }
}

/// What gate line `s` describes. The opcode is judged before the wire
/// indices are read, and the indices in order.
pub open spec fn gate(s: Seq<u8>, line: int) -> Result<GateDef, Fault> {
    match token(s, 0) {
        None => Err(Fault::MissingField { line }),
        Some(op) => if op == op_and() {
            binary_gate(s, line, true)
        } else if op == op_xor() {
            binary_gate(s, line, false)
        } else if op == op_inv() {
            unary_gate(s, line)
        } else {
            Err(Fault::UnknownGate { line, token: op })
        },
    }
}

/// The first position at or after `from` that holds a line feed, or the
/// length of `text`.
pub open spec fn line_end(text: Seq<u8>, from: int) -> int
    decreases text.len() - from,
{
    if from < 0 || from >= text.len() || text[from] == 0x0A {
        from
    } else {
        line_end(text, from + 1)
    }
}

/// Where the line after the one that starts at `from` starts.
pub open spec fn next_line(text: Seq<u8>, from: int) -> int {
    let end = line_end(text, from);
    if end < text.len() {
        end + 1
    } else {
        end
    }
}

/// Where line `k` of `text` starts. Past the last line this is the length of
/// `text`.
pub open spec fn line_start(text: Seq<u8>, k: nat) -> int
    decreases k,
{
    if k == 0 {
        0
    } else {
        next_line(text, line_start(text, (k - 1) as nat))
    }
}

/// Line `k` of `text`, without its line feed. Past the last line it is empty.
pub open spec fn line(text: Seq<u8>, k: nat) -> Seq<u8> {
    let start = line_start(text, k);
    text.subrange(start, line_end(text, start))
}

/// The first `n` gates of `text`, which stand on lines 2 to `n + 1`, or the
/// fault of the first line among them that is no gate.
pub open spec fn gates_upto(text: Seq<u8>, n: nat) -> Result<Seq<GateDef>, Fault>
    decreases n,
{
    if n == 0 {
        Ok(Seq::empty())
    } else {
        match gates_upto(text, (n - 1) as nat) {
            Err(e) => Err(e),
            Ok(gates) => match gate(line(text, n + 1), (n + 1) as int) {
                Err(e) => Err(e),
                Ok(g) => Ok(gates.push(g)),
            },
        }
    }
}

/// The circuit that `text` describes, or the first fault in reading order.
pub open spec fn parse_spec(text: Seq<u8>) -> Result<Circuit, Fault> {
    match header(line(text, 0), 0) {
        Err(e) => Err(e),
        Ok(counts) => match header(line(text, 1), 1) {
            Err(e) => Err(e),
            Ok(wires) => match gates_upto(text, counts.0 as nat) {
                Err(e) => Err(e),
                Ok(gates) => Ok(
                    Circuit {
                        total_gate_count: counts.0,
                        and_gate_count: counts.1,
                        xor_gate_count: counts.2,
                        not_gate_count: counts.3,
                        total_wire_count: wires.0,
                        input1_count: wires.1,
                        input2_count: wires.2,
                        output_wire_count: wires.3,
                        gates,
                    },
                ),
            },
        },
    }
}

} // verus!
