use garbling_core::bristol::ParseError;
use garbling_core::circuit::{CircuitInput, GateDef};
use garbling_core::loader::{parse_bristol, parse_number, read_input};

#[test]
fn loads_header_and_gates_in_order() {
    let text = b"3 1 1 1\n5 1 1 2\nXOR 0 1 2\nAND 2 0 3\nINV 3 4\n";
    let ckt = parse_bristol(text).unwrap();
    assert_eq!(
        ckt,
        CircuitInput {
            total_gate_count: 3,
            and_gate_count: 1,
            xor_gate_count: 1,
            not_gate_count: 1,
            total_wire_count: 5,
            input1_count: 1,
            input2_count: 1,
            output_wire_count: 2,
            gates: vec![
                GateDef::Xor { in0: 0, in1: 1, out: 2 },
                GateDef::And { in0: 2, in1: 0, out: 3 },
                GateDef::Not { input: 3, out: 4 },
            ],
        }
    );
    assert_eq!(read_input(text), ckt);
}

#[test]
fn counts_are_not_held_against_the_gates() {
    let ckt = parse_bristol(b"1 7 8 9\n2 0 0 0\nINV 5 6\nAND 0 1 2\n").unwrap();
    assert_eq!(ckt.and_gate_count, 7);
    assert_eq!(ckt.xor_gate_count, 8);
    assert_eq!(ckt.not_gate_count, 9);
    assert_eq!(ckt.gates, vec![GateDef::Not { input: 5, out: 6 }]);
}

#[test]
fn white_space_of_any_kind_separates_fields() {
    let text = "  1\t1 \u{00a0}0\u{3000}0 trailing words\r\n3\u{2003}1\u{0085}1\u{000b}1\r\n\u{1680}AND\u{205f}0\u{2028}1\u{202f}2 9 9";
    let ckt = parse_bristol(text.as_bytes()).unwrap();
    assert_eq!(ckt.total_gate_count, 1);
    assert_eq!(ckt.total_wire_count, 3);
    assert_eq!(ckt.output_wire_count, 1);
    assert_eq!(ckt.gates, vec![GateDef::And { in0: 0, in1: 1, out: 2 }]);
}

#[test]
fn zero_gates_need_no_gate_line() {
    let ckt = parse_bristol(b"0 0 0 0\n0 0 0 0").unwrap();
    assert_eq!(ckt, CircuitInput::default());
}

#[test]
fn numbers() {
    assert_eq!(parse_number(b"0"), Some(0));
    assert_eq!(parse_number(b"007"), Some(7));
    assert_eq!(parse_number(b"+42"), Some(42));
    assert_eq!(parse_number(b"1234567890"), Some(1234567890));
    assert_eq!(parse_number(usize::MAX.to_string().as_bytes()), Some(usize::MAX));
    assert_eq!(parse_number(b""), None);
    assert_eq!(parse_number(b"+"), None);
    assert_eq!(parse_number(b"-1"), None);
    assert_eq!(parse_number(b"++1"), None);
    assert_eq!(parse_number(b"12a"), None);
    assert_eq!(parse_number(b"0x10"), None);
    let mut big = usize::MAX.to_string().into_bytes();
    let last = big.len() - 1;
    big[last] += 1;
    assert_eq!(parse_number(&big), None);
    big.push(b'0');
    assert_eq!(parse_number(&big), None);
    assert_eq!(parse_number(b"99999999999999999999999999999999"), None);
}

#[test]
fn a_short_line_is_a_missing_field() {
    assert_eq!(parse_bristol(b""), Err(ParseError::MissingField { line: 0 }));
    assert_eq!(parse_bristol(b"1 2 3\n"), Err(ParseError::MissingField { line: 0 }));
    assert_eq!(parse_bristol(b"1 2 3 4\n5 6\n"), Err(ParseError::MissingField { line: 1 }));
    assert_eq!(parse_bristol(b"1 0 0 0\n3 1 1 1\n"), Err(ParseError::MissingField { line: 2 }));
    assert_eq!(
        parse_bristol(b"2 0 0 0\n3 1 1 1\nXOR 0 1 2\n\nXOR 0 1 2\n"),
        Err(ParseError::MissingField { line: 3 })
    );
    assert_eq!(
        parse_bristol(b"1 0 0 0\n3 1 1 1\nAND 0 1\n"),
        Err(ParseError::MissingField { line: 2 })
    );
    assert_eq!(
        parse_bristol(b"1 0 0 0\n3 1 1 1\nINV 0\n"),
        Err(ParseError::MissingField { line: 2 })
    );
}

#[test]
fn a_bad_number_is_named() {
    assert_eq!(
        parse_bristol(b"1 x 0 0\n"),
        Err(ParseError::InvalidNumber { line: 0, token: b"x".to_vec() })
    );
    assert_eq!(
        parse_bristol(b"1 0 0 0\n3 1 -1 1\n"),
        Err(ParseError::InvalidNumber { line: 1, token: b"-1".to_vec() })
    );
    assert_eq!(
        parse_bristol(b"2 0 0 0\n3 1 1 1\nAND 0 1 2\nXOR 0 1b 2\n"),
        Err(ParseError::InvalidNumber { line: 3, token: b"1b".to_vec() })
    );
    assert_eq!(
        parse_bristol(b"1 0 0 0\n3 1 1 1\nINV 0 1.5\n"),
        Err(ParseError::InvalidNumber { line: 2, token: b"1.5".to_vec() })
    );
}

#[test]
fn the_first_fault_wins() {
    assert_eq!(
        parse_bristol(b"q 0 0\n"),
        Err(ParseError::InvalidNumber { line: 0, token: b"q".to_vec() })
    );
    assert_eq!(
        parse_bristol(b"2 0 0 0\n3 1 1 1\nNOT 0 1\nBAD\n"),
        Err(ParseError::UnknownGate { line: 2, token: b"NOT".to_vec() })
    );
    assert_eq!(
        parse_bristol(b"1 0 0 0\n3 1 1 1\nand 0 1 2\n"),
        Err(ParseError::UnknownGate { line: 2, token: b"and".to_vec() })
    );
    assert_eq!(
        parse_bristol(b"1 0 0 0\n3 1 1 1\nFOO\n"),
        Err(ParseError::UnknownGate { line: 2, token: b"FOO".to_vec() })
    );
    assert_eq!(
        parse_bristol(b"1 0 0 0\n3 1 1 1\nANDX 0 1 2\n"),
        Err(ParseError::UnknownGate { line: 2, token: b"ANDX".to_vec() })
    );
}

#[test]
fn written_text_is_exact() {
    let ckt = CircuitInput {
        total_gate_count: 3,
        and_gate_count: 1,
        xor_gate_count: 1,
        not_gate_count: 1,
        total_wire_count: 105,
        input1_count: 10,
        input2_count: 0,
        output_wire_count: 2,
        gates: vec![
            GateDef::Xor { in0: 0, in1: 19, out: 100 },
            GateDef::And { in0: 100, in1: 0, out: 3 },
            GateDef::Not { input: 3, out: 4 },
        ],
    };
    let text = garbling_core::writer::write_bristol(&ckt);
    assert_eq!(
        String::from_utf8(text).unwrap(),
        "3 1 1 1\n105 10 0 2\nXOR 0 19 100\nAND 100 0 3\nINV 3 4\n"
    );
    assert_eq!(
        garbling_core::writer::write_bristol(&CircuitInput::default()),
        b"0 0 0 0\n0 0 0 0\n".to_vec()
    );
}

#[test]
fn written_then_loaded_is_the_same_circuit() {
    let mut gates = Vec::new();
    for i in 0..200usize {
        gates.push(match i % 3 {
            0 => GateDef::And { in0: i, in1: 7 * i + 1, out: usize::MAX - i },
            1 => GateDef::Xor { in0: 1000 * i, in1: 0, out: i + 2 },
            _ => GateDef::Not { input: i * i, out: 10 },
        });
    }
    let ckt = CircuitInput {
        total_gate_count: gates.len(),
        and_gate_count: usize::MAX,
        xor_gate_count: 0,
        not_gate_count: 1234567890,
        total_wire_count: 9,
        input1_count: 90,
        input2_count: 909,
        output_wire_count: 1,
        gates,
    };
    let text = garbling_core::writer::write_bristol(&ckt);
    assert_eq!(parse_bristol(&text), Ok(ckt));
}

#[test]
fn fewer_gates_declared_than_written() {
    let mut ckt = CircuitInput::default();
    ckt.gates = vec![GateDef::Not { input: 0, out: 1 }, GateDef::Not { input: 1, out: 2 }];
    ckt.total_gate_count = 1;
    let text = garbling_core::writer::write_bristol(&ckt);
    let back = parse_bristol(&text).unwrap();
    assert_eq!(back.gates, vec![GateDef::Not { input: 0, out: 1 }]);
    ckt.total_gate_count = 3;
    let text = garbling_core::writer::write_bristol(&ckt);
    assert_eq!(parse_bristol(&text), Err(ParseError::MissingField { line: 4 }));
}
