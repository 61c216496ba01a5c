//! The loader undoes the writer: a circuit that is written as a Bristol
//! description and loaded again is the same circuit.

use vstd::prelude::*;
use crate::bristol::{
    all_digits, cursor, digits_value, field, gate, gates_upto, header, is_digit, line, line_end,
    line_start, number, number_digits, op_and, op_inv, op_xor, parse_spec, skip_spaces, space_len,
    token, token_end, Fault,
};
use crate::circuit::{Circuit, GateDef};
use crate::writer::{bristol_text, decimal, fields3, fields4, gate_body, gates_text, header_body};

verus! {

/// Whether `b` is a decimal digit or a capital letter: the bytes of which
/// the writer makes its fields.
pub open spec fn is_plain(b: u8) -> bool {
    0x30 <= b <= 0x39 || 0x41 <= b <= 0x5A
}

/// Whether `w` can stand as a field: it is not empty and all of it is plain.
pub open spec fn is_word(w: Seq<u8>) -> bool {
    w.len() > 0 && forall|i: int| 0 <= i < w.len() ==> is_plain(#[trigger] w[i])
}

/// A run of plain bytes that a blank or the end of the line follows is
/// scanned as one field.
proof fn lemma_token_end(s: Seq<u8>, a: int, b: int)
    requires
        0 <= a <= b <= s.len(),
        forall|i: int| a <= i < b ==> is_plain(#[trigger] s[i]),
        b == s.len() || s[b] == 0x20,
    ensures
        token_end(s, a) == b,
    decreases b - a,
{
    if a < b {
        assert(is_plain(s[a]));
        lemma_token_end(s, a + 1, b);
    }
}

/// Where the search for field `k` begins at a plain run `[a, b)` or at the
/// one blank before it, field `k` is that run and the search for the next
/// field begins at `b`.
proof fn lemma_next_field(s: Seq<u8>, k: nat, a: int, b: int)
    requires
        0 <= a < b <= s.len(),
        cursor(s, k) == a || (a >= 1 && cursor(s, k) == a - 1 && s[a - 1] == 0x20),
        forall|i: int| a <= i < b ==> is_plain(#[trigger] s[i]),
        b == s.len() || s[b] == 0x20,
    ensures
        token(s, k) == Some(s.subrange(a, b)),
        cursor(s, k + 1) == b,
{
    assert(is_plain(s[a]));
    assert(space_len(s, a) == 0);
    assert(skip_spaces(s, a) == a);
    if cursor(s, k) != a {
        assert(space_len(s, a - 1) == 1);
        assert(skip_spaces(s, a - 1) == skip_spaces(s, a));
    }
    lemma_token_end(s, a, b);
}

/// Whether every byte of `s` is plain or a blank.
pub open spec fn is_flat(s: Seq<u8>) -> bool {
    forall|i: int| 0 <= i < s.len() ==> is_plain(#[trigger] s[i]) || s[i] == 0x20
}

/// A blank between two flat stretches keeps the whole flat.
proof fn lemma_flat_join(a: Seq<u8>, b: Seq<u8>)
    requires
        is_flat(a),
        is_flat(b),
    ensures
        is_flat(a + seq![0x20u8] + b),
{
    let s = a + seq![0x20u8] + b;
    assert forall|i: int| 0 <= i < s.len() implies is_plain(#[trigger] s[i]) || s[i] == 0x20 by {
        if i < a.len() {
            assert(s[i] == a[i]);
        } else if i > a.len() {
            assert(s[i] == b[i - a.len() - 1]);
        }
    }
}

/// Where `s` is `pre`, the word `w` and `post`, the search for field `k`
/// begins at `w` or at a blank that ends `pre`, and `post` is empty or opens
/// with a blank, field `k` is `w` and the search for the next field begins
/// behind it.
proof fn lemma_field_in(s: Seq<u8>, k: nat, pre: Seq<u8>, w: Seq<u8>, post: Seq<u8>)
    requires
        s == pre + w + post,
        is_word(w),
        cursor(s, k) == pre.len() || (pre.len() >= 1 && cursor(s, k) == pre.len() - 1
            && pre.last() == 0x20),
        post.len() == 0 || post[0] == 0x20,
    ensures
        token(s, k) == Some(w),
        cursor(s, k + 1) == pre.len() + w.len(),
{
    let a = pre.len() as int;
    let b = a + w.len();
    assert forall|i: int| a <= i < b implies is_plain(#[trigger] s[i]) by {
        assert(s[i] == w[i - a]);
    }
    assert(s.subrange(a, b) =~= w);
    if post.len() > 0 {
        assert(s[b] == post[0]);
    }
    if pre.len() >= 1 {
        assert(s[a - 1] == pre.last());
    }
    lemma_next_field(s, k, a, b);
}

/// The fields of a line of three words are those words.
proof fn lemma_fields3(a: Seq<u8>, b: Seq<u8>, c: Seq<u8>)
    requires
        is_word(a),
        is_word(b),
        is_word(c),
    ensures
        token(fields3(a, b, c), 0) == Some(a),
        token(fields3(a, b, c), 1) == Some(b),
        token(fields3(a, b, c), 2) == Some(c),
        is_flat(fields3(a, b, c)),
{
    let s = fields3(a, b, c);
    let sp = seq![0x20u8];
    assert(token(s, 0) == Some(a) && cursor(s, 1) == a.len()) by {
        let post = sp + b + sp + c;
        assert(s =~= Seq::<u8>::empty() + a + post);
        lemma_field_in(s, 0, Seq::<u8>::empty(), a, post);
    }
    assert(token(s, 1) == Some(b) && cursor(s, 2) == a.len() + 1 + b.len()) by {
        let pre = a + sp;
        let post = sp + c;
        assert(s =~= pre + b + post);
        lemma_field_in(s, 1, pre, b, post);
    }
    assert(token(s, 2) == Some(c)) by {
        let pre = a + sp + b + sp;
        assert(s =~= pre + c + Seq::<u8>::empty());
        lemma_field_in(s, 2, pre, c, Seq::<u8>::empty());
    }
    lemma_flat_join(a, b);
    lemma_flat_join(a + sp + b, c);
}

/// The fields of a line of four words are those words.
proof fn lemma_fields4(a: Seq<u8>, b: Seq<u8>, c: Seq<u8>, d: Seq<u8>)
    requires
        is_word(a),
        is_word(b),
        is_word(c),
        is_word(d),
    ensures
        token(fields4(a, b, c, d), 0) == Some(a),
        token(fields4(a, b, c, d), 1) == Some(b),
        token(fields4(a, b, c, d), 2) == Some(c),
        token(fields4(a, b, c, d), 3) == Some(d),
        is_flat(fields4(a, b, c, d)),
{
    let s = fields4(a, b, c, d);
    let sp = seq![0x20u8];
    assert(token(s, 0) == Some(a) && cursor(s, 1) == a.len()) by {
        let post = sp + b + sp + c + sp + d;
        assert(s =~= Seq::<u8>::empty() + a + post);
        lemma_field_in(s, 0, Seq::<u8>::empty(), a, post);
    }
    assert(token(s, 1) == Some(b) && cursor(s, 2) == a.len() + 1 + b.len()) by {
        let pre = a + sp;
        let post = sp + c + sp + d;
        assert(s =~= pre + b + post);
        lemma_field_in(s, 1, pre, b, post);
    }
    assert(token(s, 2) == Some(c) && cursor(s, 3) == a.len() + 1 + b.len() + 1 + c.len()) by {
        let pre = a + sp + b + sp;
        let post = sp + d;
        assert(s =~= pre + c + post);
        lemma_field_in(s, 2, pre, c, post);
    }
    assert(token(s, 3) == Some(d)) by {
        let pre = a + sp + b + sp + c + sp;
        assert(s =~= pre + d + Seq::<u8>::empty());
        lemma_field_in(s, 3, pre, d, Seq::<u8>::empty());
    }
    lemma_flat_join(a, b);
    lemma_flat_join(a + sp + b, c);
    lemma_flat_join(a + sp + b + sp + c, d);
}

/// The digits that write `n` are a word of digits whose value is `n`.
pub proof fn lemma_decimal(n: nat)
    ensures
        is_word(decimal(n)),
        all_digits(decimal(n)),
        digits_value(decimal(n)) == n,
        number_digits(decimal(n)) == decimal(n),
    decreases n,
{
    let d = decimal(n);
    if n < 10 {
        assert(d.drop_last() =~= Seq::<u8>::empty());
        assert(d.last() == (0x30 + n) as u8);
        assert(digits_value(d.drop_last()) == 0);
    } else {
        lemma_decimal(n / 10);
        assert(d.drop_last() =~= decimal(n / 10));
        assert(d.last() == (0x30 + n % 10) as u8);
        assert(d[0] == decimal(n / 10)[0]);
    }
    assert(is_digit(d[0]));
}

/// A number that fits the machine word is read back from its digits.
pub proof fn lemma_number_of_decimal(v: usize)
    ensures
        number(decimal(v as nat)) == Some(v),
        is_word(decimal(v as nat)),
{
    lemma_decimal(v as nat);
}

/// A header line is read back as the four counts that it was written from.
pub proof fn lemma_header_line(a: usize, b: usize, c: usize, d: usize, line_no: int)
    ensures
        header(header_body(a, b, c, d), line_no) == Ok::<(usize, usize, usize, usize), Fault>(
            (a, b, c, d),
        ),
        is_flat(header_body(a, b, c, d)),
{
    lemma_number_of_decimal(a);
    lemma_number_of_decimal(b);
    lemma_number_of_decimal(c);
    lemma_number_of_decimal(d);
    lemma_fields4(decimal(a as nat), decimal(b as nat), decimal(c as nat), decimal(d as nat));
}

/// The three opcodes are words, and no two of them are equal.
proof fn lemma_opcodes()
    ensures
        is_word(op_and()),
        is_word(op_xor()),
        is_word(op_inv()),
        op_and() != op_xor(),
        op_and() != op_inv(),
        op_xor() != op_inv(),
{
    assert(op_and()[0] == 0x41 && op_and()[1] == 0x4E && op_and()[2] == 0x44);
    assert(op_xor()[0] == 0x58 && op_xor()[1] == 0x4F && op_xor()[2] == 0x52);
    assert(op_inv()[0] == 0x49 && op_inv()[1] == 0x4E && op_inv()[2] == 0x56);
}

/// A gate line is read back as what it was written from.
pub proof fn lemma_gate_line(g: GateDef, line_no: int)
    ensures
        gate(gate_body(g), line_no) == Ok::<GateDef, Fault>(g),
        is_flat(gate_body(g)),
{
    lemma_opcodes();
    match g {
        GateDef::And { in0, in1, out } => {
            lemma_number_of_decimal(in0);
            lemma_number_of_decimal(in1);
            lemma_number_of_decimal(out);
            lemma_fields4(op_and(), decimal(in0 as nat), decimal(in1 as nat), decimal(out as nat));
        },
        GateDef::Xor { in0, in1, out } => {
            lemma_number_of_decimal(in0);
            lemma_number_of_decimal(in1);
            lemma_number_of_decimal(out);
            lemma_fields4(op_xor(), decimal(in0 as nat), decimal(in1 as nat), decimal(out as nat));
        },
        GateDef::Not { input, out } => {
            lemma_number_of_decimal(input);
            lemma_number_of_decimal(out);
            lemma_fields3(op_inv(), decimal(input as nat), decimal(out as nat));
        },
    }
}

/// A stretch without line feed that a line feed follows ends there.
proof fn lemma_line_end(text: Seq<u8>, a: int, b: int)
    requires
        0 <= a <= b < text.len(),
        text[b] == 0x0A,
        forall|i: int| a <= i < b ==> #[trigger] text[i] != 0x0A,
    ensures
        line_end(text, a) == b,
    decreases b - a,
{
    if a < b {
        assert(text[a] != 0x0A);
        lemma_line_end(text, a + 1, b);
    }
}

/// Where line `k` starts at `a` and `text` holds `body`, made of plain bytes and
/// blanks, and a line feed from there, line `k` is `body` and the next line starts
/// behind the line feed.
proof fn lemma_line_at(text: Seq<u8>, k: nat, a: int, body: Seq<u8>)
    requires
        line_start(text, k) == a,
        0 <= a,
        a + body.len() < text.len(),
        forall|i: int| 0 <= i < body.len() ==> #[trigger] text[a + i] == body[i],
        is_flat(body),
        text[a + body.len()] == 0x0A,
    ensures
        line(text, k) == body,
        line_start(text, k + 1) == a + body.len() + 1,
{
    let b = a + body.len();
    assert forall|i: int| a <= i < b implies #[trigger] text[i] != 0x0A by {
        assert(text[a + (i - a)] == body[i - a]);
        assert(is_plain(body[i - a]) || body[i - a] == 0x20);
    }
    lemma_line_end(text, a, b);
    assert(text.subrange(a, b) =~= body) by {
        assert forall|i: int| 0 <= i < body.len() implies text.subrange(a, b)[i] == body[i] by {
            assert(text[a + i] == body[i]);
        }
    }
}

/// The lines of the first `j` gates open the lines of all gates.
proof fn lemma_gates_text_prefix(gates: Seq<GateDef>, j: int)
    requires
        0 <= j <= gates.len(),
    ensures
        gates_text(gates.subrange(0, j)).len() <= gates_text(gates).len(),
        forall|i: int|
            0 <= i < gates_text(gates.subrange(0, j)).len() ==> #[trigger] gates_text(gates)[i]
                == gates_text(gates.subrange(0, j))[i],
    decreases gates.len() - j,
{
    if j < gates.len() {
        lemma_gates_text_prefix(gates, j + 1);
        lemma_gates_text_step(gates, j);
    } else {
        assert(gates.subrange(0, j) =~= gates);
    }
}

/// The lines of the first `j + 1` gates are those of the first `j` and the
/// line of gate `j`.
proof fn lemma_gates_text_step(gates: Seq<GateDef>, j: int)
    requires
        0 <= j < gates.len(),
    ensures
        gates_text(gates.subrange(0, j + 1)) == gates_text(gates.subrange(0, j)) + gate_body(
            gates[j],
        ).push(0x0A),
{
    let next = gates.subrange(0, j + 1);
    assert(next.drop_last() =~= gates.subrange(0, j));
    assert(next.last() == gates[j]);
}

/// After the two header lines, the first `j` gate lines are read back as the
/// first `j` gates, and the line after them starts where their text ends.
proof fn lemma_gates_read(head: Seq<u8>, gates: Seq<GateDef>, j: nat)
    requires
        j <= gates.len(),
        line_start(head + gates_text(gates), 2) == head.len(),
    ensures
        line_start(head + gates_text(gates), j + 2) == head.len() + gates_text(
            gates.subrange(0, j as int),
        ).len(),
        gates_upto(head + gates_text(gates), j) == Ok::<Seq<GateDef>, Fault>(
            gates.subrange(0, j as int),
        ),
    decreases j,
{
    let text = head + gates_text(gates);
    if j == 0 {
        assert(gates.subrange(0, 0) =~= Seq::<GateDef>::empty());
    } else {
        let i = (j - 1) as nat;
        lemma_gates_read(head, gates, i);
        let before = gates_text(gates.subrange(0, i as int));
        let body = gate_body(gates[i as int]);
        let upto = gates_text(gates.subrange(0, j as int));
        lemma_gates_text_step(gates, i as int);
        lemma_gates_text_prefix(gates, j as int);
        lemma_gate_line(gates[i as int], (i + 2) as int);
        let a: int = (head.len() + before.len()) as int;
        let end: int = a + body.len();
        let mid: int = (before.len() + body.len()) as int;
        assert(upto.len() == before.len() + body.len() + 1);
        assert forall|x: int| 0 <= x < body.len() implies #[trigger] text[a + x] == body[x] by {
            assert(text[a + x] == gates_text(gates)[before.len() + x]);
            assert(upto[before.len() + x] == body.push(0x0A)[x]);
        }
        assert(text[end] == 0x0A) by {
            assert(text[end] == gates_text(gates)[mid]);
            assert(upto[mid] == body.push(0x0A)[body.len() as int]);
        }
        lemma_line_at(text, i + 2, a, body);
        assert(gates.subrange(0, i as int).push(gates[i as int]) =~= gates.subrange(0, j as int));
    }
}

/// Round trip: every circuit whose `total_gate_count` is the number of its
/// gates is loaded from its own description as written, counts and gate
/// sequence alike.
pub proof fn lemma_roundtrip(c: Circuit)
    requires
        c.gates.len() == c.total_gate_count,
    ensures
        parse_spec(bristol_text(c)) == Ok::<Circuit, Fault>(c),
{
    let body0 = header_body(
        c.total_gate_count,
        c.and_gate_count,
        c.xor_gate_count,
        c.not_gate_count,
    );
    let body1 = header_body(
        c.total_wire_count,
        c.input1_count,
        c.input2_count,
        c.output_wire_count,
    );
    let head = body0.push(0x0A) + body1.push(0x0A);
    let text = bristol_text(c);
    assert(text =~= head + gates_text(c.gates));
    lemma_header_line(
        c.total_gate_count,
        c.and_gate_count,
        c.xor_gate_count,
        c.not_gate_count,
        0,
    );
    lemma_header_line(c.total_wire_count, c.input1_count, c.input2_count, c.output_wire_count, 1);
    lemma_line_at(text, 0, 0, body0);
    lemma_line_at(text, 1, (body0.len() + 1) as int, body1);
    lemma_gates_read(head, c.gates, c.gates.len());
    assert(c.gates.subrange(0, c.gates.len() as int) =~= c.gates);
}

} // verus!
