//! The circuit loader: turns the bytes of a Bristol description into a
//! [`CircuitInput`], or says which token on which line stands in the way.

use vstd::prelude::*;
use vstd::slice::{slice_subrange, slice_to_vec};
use crate::bristol::{
    all_digits, binary_gate, cursor, digit_of, digits_value, field, gate, gates_upto, header,
    is_digit, line, line_end, line_start, number, number_digits, parse_spec, skip_spaces,
    space_len, token, token_end, unary_gate, Fault, ParseError,
};
use crate::circuit::{Circuit, CircuitInput, GateDef};

verus! {

/// A longer run of digits writes no smaller number.
proof fn lemma_digits_value_grows(d: Seq<u8>, n: int)
    requires
        0 <= n <= d.len(),
    ensures
        digits_value(d.subrange(0, n)) <= digits_value(d),
    decreases d.len() - n,
{
    if n < d.len() {
        lemma_digits_value_grows(d, n + 1);
        let next = d.subrange(0, n + 1);
        assert(next.drop_last() =~= d.subrange(0, n));
        assert(digits_value(next) >= digits_value(d.subrange(0, n)) * 10) by (nonlinear_arith)
            requires
                digits_value(next) == digits_value(d.subrange(0, n)) * 10 + digit_of(next.last()),
        ;
    } else {
        assert(d.subrange(0, n) =~= d);
    }
}

/// Once a gate line is at fault, reading further gates changes nothing.
proof fn lemma_fault_stays(text: Seq<u8>, m: nat, n: nat)
    requires
        m <= n,
        gates_upto(text, m) is Err,
    ensures
        gates_upto(text, n) == gates_upto(text, m),
    decreases n,
{
    if m < n {
        lemma_fault_stays(text, m, (n - 1) as nat);
    }
}

/// Number of bytes of the white-space character that starts at `i`.
fn space_at(s: &[u8], i: usize) -> (n: usize)
    requires
        i < s.len(),
    ensures
        n == space_len(s@, i as int),
        i + n <= s.len(),
{
    let b0 = s[i];
    if b0 == 0x20 || (0x09 <= b0 && b0 <= 0x0D) {
        return 1;
    }
    if s.len() - i < 2 {
        return 0;
    }
    let b1 = s[i + 1];
    if b0 == 0xC2 && (b1 == 0x85 || b1 == 0xA0) {
        return 2;
    }
    if s.len() - i < 3 {
        return 0;
    }
    let b2 = s[i + 2];
    let wide = (b0 == 0xE1 && b1 == 0x9A && b2 == 0x80) || (b0 == 0xE2 && b1 == 0x80 && ((0x80
        <= b2 && b2 <= 0x8A) || b2 == 0xA8 || b2 == 0xA9 || b2 == 0xAF)) || (b0 == 0xE2 && b1
        == 0x81 && b2 == 0x9F) || (b0 == 0xE3 && b1 == 0x80 && b2 == 0x80);
    if wide {
        3
    } else {
        0
    }
}

/// The bounds of the next field of `s` at or after `from`: where it starts
/// and where it ends. Both are the length of `s` where no field is left.
fn next_token(s: &[u8], from: usize) -> (r: (usize, usize))
    requires
        from <= s.len(),
    ensures
        r.0 == skip_spaces(s@, from as int),
        r.1 == token_end(s@, r.0 as int),
        from <= r.0 <= r.1 <= s.len(),
        r.0 < s.len() ==> r.0 < r.1,
{
    let n = s.len();
    let mut start = from;
    loop
        invariant_except_break
            from <= start <= n,
            n == s.len(),
            skip_spaces(s@, from as int) == skip_spaces(s@, start as int),
        ensures
            from <= start <= n,
            start == skip_spaces(s@, from as int),
            start < n ==> space_len(s@, start as int) == 0,
        decreases n - start,
    {
        if start >= n {
            break ;
        }
        let w = space_at(s, start);
        if w == 0 {
            break ;
        }
        start += w;
    }
    let mut end = start;
    while end < n && space_at(s, end) == 0
        invariant
            start <= end <= n,
            n == s.len(),
            token_end(s@, start as int) == token_end(s@, end as int),
            start < n ==> space_len(s@, start as int) == 0,
        decreases n - end,
    {
        end += 1;
    }
    (start, end)
}

/// The number that `tok` writes, if it writes one.
pub fn parse_number(tok: &[u8]) -> (r: Option<usize>)
    ensures
        r == number(tok@),
{
    let n = tok.len();
    let first: usize = if n > 0 && tok[0] == 0x2B {
        1
    } else {
        0
    };
    let ghost d = number_digits(tok@);
    assert(d =~= tok@.subrange(first as int, n as int));
    if first >= n {
        return None;
    }
    let mut acc: usize = 0;
    let mut i: usize = first;
    assert(d.subrange(0, 0) =~= Seq::<u8>::empty());
    while i < n
        invariant
            first <= i <= n,
            n == tok.len(),
            d == number_digits(tok@),
            d == tok@.subrange(first as int, n as int),
            all_digits(d.subrange(0, i - first)),
            acc == digits_value(d.subrange(0, i - first)),
        decreases n - i,
    {
        let b = tok[i];
        assert(d[i - first] == b);
        if b < 0x30 || b > 0x39 {
            assert(!is_digit(d[i - first]));
            return None;
        }
        let v = (b - 0x30) as usize;
        let ghost next = d.subrange(0, i + 1 - first);
        assert(next.drop_last() =~= d.subrange(0, i - first));
        assert(next.last() == b);
        assert(digits_value(next) == acc * 10 + v);
        if acc > (usize::MAX - v) / 10 {
            proof {
                lemma_digits_value_grows(d, i + 1 - first);
                assert(acc * 10 + v > usize::MAX);
            }
            return None;
        }
        assert(all_digits(next)) by {
            assert forall|j: int| 0 <= j < next.len() implies is_digit(#[trigger] next[j]) by {
                if j < i - first {
                    assert(next[j] == d.subrange(0, i - first)[j]);
                }
            }
        }
        acc = acc * 10 + v;
        i += 1;
    }
    assert(d.subrange(0, n - first) =~= d);
    Some(acc)
}

/// A copy of the bytes of `s` from `start` up to `end`.
fn copy_token(s: &[u8], start: usize, end: usize) -> (tok: Vec<u8>)
    requires
        start <= end <= s.len(),
    ensures
        tok@ == s@.subrange(start as int, end as int),
{
    slice_to_vec(slice_subrange(s, start, end))
}

/// Reads field `k` of line `s` as a number. `pos` is where the field is
/// looked for; with the number comes the position for the next field.
fn read_field(s: &[u8], line_no: usize, pos: usize, Ghost(k): Ghost<nat>) -> (r: Result<
    (usize, usize),
    ParseError,
>)
    requires
        pos <= s.len(),
        pos == cursor(s@, k),
    ensures
        match r {
            Ok((v, next)) => field(s@, line_no as int, k) == Ok::<usize, Fault>(v) && next
                == cursor(s@, k + 1) && next <= s.len(),
            Err(e) => field(s@, line_no as int, k) == Err::<usize, Fault>(e@),
        },
{
    let (start, end) = next_token(s, pos);
    if start >= s.len() {
        return Err(ParseError::MissingField { line: line_no });
    }
    match parse_number(slice_subrange(s, start, end)) {
        Some(v) => Ok((v, end)),
        None => Err(ParseError::InvalidNumber { line: line_no, token: copy_token(s, start, end) }),
    }
}

/// Reads the four counts of a header line.
fn parse_header(s: &[u8], line_no: usize) -> (r: Result<(usize, usize, usize, usize), ParseError>)
    ensures
        match r {
            Ok(counts) => header(s@, line_no as int) == Ok::<(usize, usize, usize, usize), Fault>(
                counts,
            ) && s.len() > 0,
            Err(e) => header(s@, line_no as int) == Err::<(usize, usize, usize, usize), Fault>(e@),
        },
{
    let (a, pos) = match read_field(s, line_no, 0, Ghost(0)) {
        Ok(r) => r,
        Err(e) => { return Err(e); },
    };
    let (b, pos) = match read_field(s, line_no, pos, Ghost(1)) {
        Ok(r) => r,
        Err(e) => { return Err(e); },
    };
    let (c, pos) = match read_field(s, line_no, pos, Ghost(2)) {
        Ok(r) => r,
        Err(e) => { return Err(e); },
    };
    let (d, _) = match read_field(s, line_no, pos, Ghost(3)) {
        Ok(r) => r,
        Err(e) => { return Err(e); },
    };
    Ok((a, b, c, d))
}

/// Whether `tok` is the three bytes `w0 w1 w2`.
fn is_word(tok: &[u8], w0: u8, w1: u8, w2: u8) -> (b: bool)
    ensures
        b == (tok@ == seq![w0, w1, w2]),
{
    if tok.len() == 3 && tok[0] == w0 && tok[1] == w1 && tok[2] == w2 {
        assert(tok@ =~= seq![w0, w1, w2]);
        true
    } else {
        if tok.len() == 3 {
            assert(seq![w0, w1, w2][0] == w0 && seq![w0, w1, w2][1] == w1 && seq![w0, w1, w2][2]
                == w2);
        } else {
            assert(seq![w0, w1, w2].len() == 3);
        }
        false
    }
}

/// Reads the wire indices of a two-operand gate line.
fn parse_binary(s: &[u8], line_no: usize, pos: usize, is_and: bool) -> (r: Result<
    GateDef,
    ParseError,
>)
    requires
        pos <= s.len(),
        pos == cursor(s@, 1),
    ensures
        match r {
            Ok(g) => binary_gate(s@, line_no as int, is_and) == Ok::<GateDef, Fault>(g),
            Err(e) => binary_gate(s@, line_no as int, is_and) == Err::<GateDef, Fault>(e@),
        },
{
    let (in0, pos) = match read_field(s, line_no, pos, Ghost(1)) {
        Ok(r) => r,
        Err(e) => { return Err(e); },
    };
    let (in1, pos) = match read_field(s, line_no, pos, Ghost(2)) {
        Ok(r) => r,
        Err(e) => { return Err(e); },
    };
    let (out, _) = match read_field(s, line_no, pos, Ghost(3)) {
        Ok(r) => r,
        Err(e) => { return Err(e); },
    };
    if is_and {
        Ok(GateDef::And { in0, in1, out })
    } else {
        Ok(GateDef::Xor { in0, in1, out })
    }
}

/// Reads the wire indices of a one-operand gate line.
fn parse_unary(s: &[u8], line_no: usize, pos: usize) -> (r: Result<GateDef, ParseError>)
    requires
        pos <= s.len(),
        pos == cursor(s@, 1),
    ensures
        match r {
            Ok(g) => unary_gate(s@, line_no as int) == Ok::<GateDef, Fault>(g),
            Err(e) => unary_gate(s@, line_no as int) == Err::<GateDef, Fault>(e@),
        },
{
    let (input, pos) = match read_field(s, line_no, pos, Ghost(1)) {
        Ok(r) => r,
        Err(e) => { return Err(e); },
    };
    let (out, _) = match read_field(s, line_no, pos, Ghost(2)) {
        Ok(r) => r,
        Err(e) => { return Err(e); },
    };
    Ok(GateDef::Not { input, out })
}

/// Reads one gate line.
fn parse_gate(s: &[u8], line_no: usize) -> (r: Result<GateDef, ParseError>)
    ensures
        match r {
            Ok(g) => gate(s@, line_no as int) == Ok::<GateDef, Fault>(g) && s.len() > 0,
            Err(e) => gate(s@, line_no as int) == Err::<GateDef, Fault>(e@),
        },
{
    let (start, end) = next_token(s, 0);
    if start >= s.len() {
        return Err(ParseError::MissingField { line: line_no });
    }
    let op = slice_subrange(s, start, end);
    if is_word(op, 0x41, 0x4E, 0x44) {
        parse_binary(s, line_no, end, true)
    } else if is_word(op, 0x58, 0x4F, 0x52) {
        parse_binary(s, line_no, end, false)
    } else if is_word(op, 0x49, 0x4E, 0x56) {
        parse_unary(s, line_no, end)
    } else {
        Err(ParseError::UnknownGate { line: line_no, token: copy_token(s, start, end) })
    }
}

/// The end of the line that starts at `from`.
fn find_line_end(text: &[u8], from: usize) -> (end: usize)
    requires
        from <= text.len(),
    ensures
        end == line_end(text@, from as int),
        from <= end <= text.len(),
{
    let n = text.len();
    let mut end = from;
    while end < n && text[end] != 0x0A
        invariant
            from <= end <= n,
            n == text.len(),
            line_end(text@, from as int) == line_end(text@, end as int),
        decreases n - end,
    {
        end += 1;
    }
    end
}

/// The line that starts at `from`, and where the line after it starts.
fn take_line(text: &[u8], from: usize, Ghost(k): Ghost<nat>) -> (r: (&[u8], usize))
    requires
        from <= text.len(),
        from == line_start(text@, k),
    ensures
        r.0@ == line(text@, k),
        r.1 == line_start(text@, k + 1),
        from <= r.1 <= text.len(),
        r.0@.len() > 0 ==> from < r.1,
{
    let end = find_line_end(text, from);
    let next = if end < text.len() {
        end + 1
    } else {
        end
    };
    (slice_subrange(text, from, end), next)
}

/// Loads the circuit that the Bristol description `text` holds.
///
/// The result is the circuit of [`parse_spec`], with the counts as the two
/// header lines declare them and the gates in the order of their lines. A
/// description that is cut short, a field that is no number and an opcode
/// other than `AND`, `XOR`, `INV` are answered by the error of the first such
/// place in reading order, and no circuit is returned.
pub fn parse_bristol(text: &[u8]) -> (r: Result<CircuitInput, ParseError>)
    ensures
        match r {
            Ok(c) => parse_spec(text@) == Ok::<Circuit, Fault>(c@),
            Err(e) => parse_spec(text@) == Err::<Circuit, Fault>(e@),
        },
{
    let (line0, pos) = take_line(text, 0, Ghost(0));
    let counts = match parse_header(line0, 0) {
        Ok(h) => h,
        Err(e) => { return Err(e); },
    };
    let (line1, pos) = take_line(text, pos, Ghost(1));
    let wires = match parse_header(line1, 1) {
        Ok(h) => h,
        Err(e) => { return Err(e); },
    };
    let total = counts.0;
    let mut gates: Vec<GateDef> = Vec::new();
    let mut pos: usize = pos;
    let mut line_no: usize = 2;
    let mut g: usize = 0;
    while g < total
        invariant
            g <= total,
            line_no == g + 2,
            line_no <= pos <= text.len(),
            pos == line_start(text@, line_no as nat),
            gates_upto(text@, g as nat) == Ok::<Seq<GateDef>, Fault>(gates@),
            total == counts.0,
            header(line(text@, 0), 0) == Ok::<(usize, usize, usize, usize), Fault>(counts),
            header(line(text@, 1), 1) == Ok::<(usize, usize, usize, usize), Fault>(wires),
        decreases total - g,
    {
        let (s, next) = take_line(text, pos, Ghost(line_no as nat));
        match parse_gate(s, line_no) {
            Ok(gate) => {
                gates.push(gate);
            },
            Err(e) => {
                proof {
                    lemma_fault_stays(text@, (g + 1) as nat, total as nat);
                }
                return Err(e);
            },
        }
        pos = next;
        line_no += 1;
        g += 1;
    }
    Ok(
        CircuitInput {
            total_gate_count: counts.0,
            and_gate_count: counts.1,
            xor_gate_count: counts.2,
            not_gate_count: counts.3,
            total_wire_count: wires.0,
            input1_count: wires.1,
            input2_count: wires.2,
            output_wire_count: wires.3,
            gates,
        },
    )
}

/// The circuit of a description that is known to be well formed.
pub fn read_input(text: &[u8]) -> (c: CircuitInput)
    requires
        parse_spec(text@) is Ok,
    ensures
        parse_spec(text@) == Ok::<Circuit, Fault>(c@),
{
    match parse_bristol(text) {
        Ok(c) => c,
        Err(_) => {
            proof {
                assert(false);
            }
            CircuitInput::default()
        },
    }
}

} // verus!
