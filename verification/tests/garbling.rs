use garbling_core::circuit::{CircuitInput, GateDef};
use garbling_core::garble::{
    garble_and, garble_ckt, garble_not, GarbledOutput, LabelInputs, WireLabels,
};
use garbling_core::label::{xor_labels, Label};
use garbling_core::labelgen::{gen_labels, gen_labels_from_seed, SEED};
use garbling_core::loader::parse_bristol;
use garbling_core::pad::{concat_labels, pad_sha, truncate_digest};
use garbling_core::validate::{try_garble, validate, GarbleError};
use rand::{RngCore, SeedableRng};
use rand_chacha::ChaCha12Rng;
use sha2::{Digest, Sha256};

fn hex16(s: &str) -> Label {
    let bytes = s.as_bytes();
    let mut out = [0u8; 16];
    for i in 0..16 {
        let hi = (bytes[2 * i] as char).to_digit(16).unwrap() as u8;
        let lo = (bytes[2 * i + 1] as char).to_digit(16).unwrap() as u8;
        out[i] = hi * 16 + lo;
    }
    out
}

fn select(w: &WireLabels, bit: bool) -> Label {
    if bit {
        w.k1
    } else {
        w.k0
    }
}

fn pair(k0: Label, delta: &Label) -> WireLabels {
    WireLabels { k0, k1: xor_labels(&k0, delta) }
}

fn circuit(wires: usize, in1: usize, in2: usize, gates: Vec<GateDef>) -> CircuitInput {
    let ands = gates.iter().filter(|g| matches!(g, GateDef::And { .. })).count();
    let xors = gates.iter().filter(|g| matches!(g, GateDef::Xor { .. })).count();
    let nots = gates.iter().filter(|g| matches!(g, GateDef::Not { .. })).count();
    CircuitInput {
        total_gate_count: gates.len(),
        and_gate_count: ands,
        xor_gate_count: xors,
        not_gate_count: nots,
        total_wire_count: wires,
        input1_count: in1,
        input2_count: in2,
        output_wire_count: 1,
        gates,
    }
}

#[test]
fn xor_labels_is_bytewise() {
    let a: Label = [0xff, 0x0f, 0xf0, 0x00, 1, 2, 3, 4, 5, 6, 7, 8, 9, 10, 11, 12];
    let b: Label = [0x0f, 0x0f, 0x0f, 0x0f, 1, 1, 1, 1, 0, 0, 0, 0, 255, 255, 255, 255];
    let want: Label = [0xf0, 0x00, 0xff, 0x0f, 0, 3, 2, 5, 5, 6, 7, 8, 246, 245, 244, 243];
    assert_eq!(xor_labels(&a, &b), want);
    assert_eq!(xor_labels(&xor_labels(&a, &b), &b), a);
    assert_eq!(xor_labels(&a, &a), [0u8; 16]);
}

#[test]
fn pad_is_truncated_sha256_of_both_labels() {
    let zero: Label = [0u8; 16];
    assert_eq!(pad_sha(&zero, &zero), hex16("66687aadf862bd776c8fc18b8e9f8e20"));
    let ka: Label = [1, 2, 3, 4, 5, 6, 7, 8, 9, 10, 11, 12, 13, 14, 15, 16];
    let kb: Label = [0xa0; 16];
    let mut msg = Vec::new();
    msg.extend_from_slice(&ka);
    msg.extend_from_slice(&kb);
    let digest = Sha256::digest(&msg);
    assert_eq!(&pad_sha(&ka, &kb)[..], &digest[..16]);
    assert_ne!(pad_sha(&ka, &kb), pad_sha(&kb, &ka));
}

#[test]
fn concat_and_truncate() {
    let ka: Label = [7u8; 16];
    let kb: Label = [9u8; 16];
    let msg = concat_labels(&ka, &kb);
    assert_eq!(&msg[..16], &ka[..]);
    assert_eq!(&msg[16..], &kb[..]);
    let mut digest = [0u8; 32];
    for i in 0..32 {
        digest[i] = i as u8;
    }
    assert_eq!(truncate_digest(&digest), [0, 1, 2, 3, 4, 5, 6, 7, 8, 9, 10, 11, 12, 13, 14, 15]);
}

#[test]
fn labels_follow_draw_order_of_zero_seed() {
    let labels = gen_labels(2, 3);
    assert_eq!(labels.delta, hex16("9bf49a6a0755f953811fce125f2683d5"));
    assert_eq!(labels.input_labels.len(), 2);
    assert_eq!(labels.input_labels[0], hex16("0429c3bb49e074147e0089a52eae155f"));
    assert_eq!(labels.input_labels[1], hex16("0564f879d27ae3c02ce82834acfa8c79"));
    assert_eq!(labels.inner_labels.len(), 3);
    assert_eq!(labels.inner_labels[0], hex16("3a629f2ca0de6919610be82f411326be"));
    assert_eq!(labels.inner_labels[1], hex16("0bd58841203e74fe86fc71338ce0173d"));
    assert_eq!(labels.inner_labels[2], hex16("c628ebb719bdcbcc151585214cc089b4"));
}

#[test]
fn labels_match_the_generator_stream() {
    let mut seed = [0u8; 32];
    for i in 0..32 {
        seed[i] = (3 * i + 1) as u8;
    }
    let labels = gen_labels_from_seed(seed, 5, 7);
    let mut rng = ChaCha12Rng::from_seed(seed);
    let mut stream = vec![0u8; 16 * 13];
    rng.fill_bytes(&mut stream);
    assert_eq!(&labels.delta[..], &stream[..16]);
    for i in 0..5 {
        assert_eq!(&labels.input_labels[i][..], &stream[16 * (1 + i)..16 * (2 + i)]);
    }
    for j in 0..7 {
        assert_eq!(&labels.inner_labels[j][..], &stream[16 * (6 + j)..16 * (7 + j)]);
    }
}

#[test]
fn same_seed_same_labels() {
    assert_eq!(gen_labels(4, 4), gen_labels_from_seed(SEED, 4, 4));
    assert_eq!(gen_labels(0, 0).input_labels.len(), 0);
    assert_eq!(gen_labels(0, 0).inner_labels.len(), 0);
    assert_eq!(gen_labels(0, 0).delta, gen_labels(9, 1).delta);
    let mut other = SEED;
    other[0] = 1;
    assert_ne!(gen_labels_from_seed(other, 1, 1), gen_labels(1, 1));
}

#[test]
fn scenario_single_and_gate() {
    let ckt = parse_bristol(b"1 1 0 0\n3 1 1 1\nAND 0 1 2\n").unwrap();
    assert_eq!(ckt.gates, vec![GateDef::And { in0: 0, in1: 1, out: 2 }]);
    let mut labels = gen_labels(ckt.get_input_wire_count(), ckt.get_inner_wire_label_count());
    labels.delta = [0x5a; 16];
    let delta = labels.delta;
    let lu = pair(labels.input_labels[0], &delta);
    let lv = pair(labels.input_labels[1], &delta);
    let lo = pair(labels.inner_labels[0], &delta);
    assert_eq!(validate(&ckt, &labels), Ok(()));
    let out = garble_ckt(ckt, labels);
    assert_eq!(out.not_tables.len(), 0);
    assert_eq!(out.and_tables.len(), 1);
    let t = &out.and_tables[0];
    assert_eq!((t.gate, t.in0, t.in1, t.out), (0, 0, 1, 2));
    assert_eq!(t.table.len(), 4);
    for (i, (a, b)) in [(false, false), (false, true), (true, false), (true, true)]
        .iter()
        .enumerate()
    {
        let p = pad_sha(&select(&lu, *a), &select(&lv, *b));
        assert_eq!(xor_labels(&p, &t.table[i]), select(&lo, *a && *b));
    }
    assert_ne!(t.table[2], t.table[3]);
}

#[test]
fn scenario_single_not_gate() {
    let ckt = parse_bristol(b"1 0 0 1\n2 1 0 1\nINV 0 1\n").unwrap();
    assert_eq!(ckt.gates, vec![GateDef::Not { input: 0, out: 1 }]);
    let labels = gen_labels(1, 1);
    let delta = labels.delta;
    let lu = pair(labels.input_labels[0], &delta);
    let lo = pair(labels.inner_labels[0], &delta);
    let out = garble_ckt(ckt, labels);
    assert_eq!(out.and_tables.len(), 0);
    assert_eq!(out.not_tables.len(), 1);
    let t = &out.not_tables[0];
    assert_eq!((t.gate, t.input, t.out), (0, 0, 1));
    assert_eq!(t.table.len(), 2);
    for (i, a) in [false, true].iter().enumerate() {
        let p = pad_sha(&select(&lu, *a), &select(&lu, *a));
        assert_eq!(xor_labels(&p, &t.table[i]), select(&lo, !*a));
    }
}

#[test]
fn scenario_unknown_opcode() {
    let err = parse_bristol(b"1 0 0 0\n3 1 1 1\nFOO 0 1 2\n").unwrap_err();
    assert_eq!(
        err,
        garbling_core::bristol::ParseError::UnknownGate { line: 2, token: b"FOO".to_vec() }
    );
}

#[test]
fn garble_rows_exact() {
    let delta: Label = [0x11; 16];
    let lu = pair([1; 16], &delta);
    let lv = pair([2; 16], &delta);
    let lo = pair([3; 16], &delta);
    let t = garble_and(&lu, &lv, &lo);
    assert_eq!(t[0], xor_labels(&pad_sha(&lu.k0, &lv.k0), &lo.k0));
    assert_eq!(t[1], xor_labels(&pad_sha(&lu.k0, &lv.k1), &lo.k0));
    assert_eq!(t[2], xor_labels(&pad_sha(&lu.k1, &lv.k0), &lo.k0));
    assert_eq!(t[3], xor_labels(&pad_sha(&lu.k1, &lv.k1), &lo.k1));
    let n = garble_not(&lu, &lo);
    assert_eq!(n[0], xor_labels(&pad_sha(&lu.k0, &lu.k0), &lo.k1));
    assert_eq!(n[1], xor_labels(&pad_sha(&lu.k1, &lu.k1), &lo.k0));
    let w = WireLabels::from_zero([1; 16], &delta);
    assert_eq!(w, lu);
    assert_eq!(w.k1, [0x10; 16]);
}

#[test]
fn xor_gate_is_free_and_linear() {
    // wire 2 = 0 XOR 1, wire 3 = 2 AND 0, wire 4 = NOT 2
    let ckt = circuit(
        5,
        1,
        1,
        vec![
            GateDef::Xor { in0: 0, in1: 1, out: 2 },
            GateDef::And { in0: 2, in1: 0, out: 3 },
            GateDef::Not { input: 2, out: 4 },
        ],
    );
    let labels = gen_labels(2, 2);
    let delta = labels.delta;
    let l0 = pair(labels.input_labels[0], &delta);
    let l1 = pair(labels.input_labels[1], &delta);
    let l2 = pair(xor_labels(&l0.k0, &l1.k0), &delta);
    let l3 = pair(labels.inner_labels[0], &delta);
    let l4 = pair(labels.inner_labels[1], &delta);
    let out = garble_ckt(ckt, labels);
    assert_eq!(out.and_tables.len(), 1);
    assert_eq!(out.not_tables.len(), 1);
    assert_eq!(out.and_tables[0].gate, 1);
    assert_eq!(out.not_tables[0].gate, 2);
    assert_eq!(out.and_tables[0].table, garble_and(&l2, &l0, &l3));
    assert_eq!(out.not_tables[0].table, garble_not(&l2, &l4));
    // free XOR: the label for (a XOR b) is the XOR of the labels for a and b
    assert_eq!(xor_labels(&l0.k1, &l1.k0), l2.k1);
    assert_eq!(xor_labels(&l0.k1, &l1.k1), l2.k0);
}

#[test]
fn garbling_is_deterministic() {
    let text = b"3 1 1 1\n5 1 1 1\nXOR 0 1 2\nAND 2 0 3\nINV 3 4\n";
    let a: GarbledOutput = garble_ckt(parse_bristol(text).unwrap(), gen_labels(2, 2));
    let b: GarbledOutput = garble_ckt(parse_bristol(text).unwrap(), gen_labels(2, 2));
    assert_eq!(a, b);
}

#[test]
fn conservation_of_tables_and_labels() {
    let text = b"5 2 1 2\n7 1 1 1\nAND 0 1 2\nINV 2 3\nXOR 2 3 4\nAND 4 0 5\nINV 5 6\n";
    let ckt = parse_bristol(text).unwrap();
    let and_count = ckt.and_gate_count;
    let not_count = ckt.not_gate_count;
    let labels = gen_labels(ckt.get_input_wire_count(), ckt.get_inner_wire_label_count());
    assert_eq!(labels.inner_labels.len(), 4);
    let delta = labels.delta;
    let last_inner = labels.inner_labels[3];
    let out = try_garble(ckt, labels).unwrap();
    assert_eq!(out.and_tables.len(), and_count);
    assert_eq!(out.not_tables.len(), not_count);
    let gates: Vec<usize> = out.and_tables.iter().map(|t| t.gate).collect();
    assert_eq!(gates, vec![0, 3]);
    let gates: Vec<usize> = out.not_tables.iter().map(|t| t.gate).collect();
    assert_eq!(gates, vec![1, 4]);
    // the last inner label went to the last NOT gate
    let lo = pair(last_inner, &delta);
    let t = &out.not_tables[1];
    let opened0 = xor_labels(&t.table[0], &lo.k1);
    let opened1 = xor_labels(&t.table[1], &lo.k0);
    assert_eq!(xor_labels(&opened0, &opened1).len(), 16);
    assert_ne!(opened0, opened1);
}

#[test]
fn validate_names_the_first_obstacle() {
    let labels = gen_labels(2, 1);
    let good = circuit(3, 1, 1, vec![GateDef::And { in0: 0, in1: 1, out: 2 }]);
    assert_eq!(validate(&good, &labels), Ok(()));

    let unassigned = circuit(
        4,
        1,
        1,
        vec![GateDef::Xor { in0: 0, in1: 1, out: 3 }, GateDef::Xor { in0: 2, in1: 0, out: 3 }],
    );
    assert_eq!(
        validate(&unassigned, &labels),
        Err(GarbleError::BrokenTopologicalOrder { gate: 1 })
    );

    let out_of_range = circuit(3, 1, 1, vec![GateDef::Xor { in0: 0, in1: 1, out: 3 }]);
    assert_eq!(
        validate(&out_of_range, &labels),
        Err(GarbleError::BrokenTopologicalOrder { gate: 0 })
    );

    let hungry = circuit(
        4,
        1,
        1,
        vec![GateDef::And { in0: 0, in1: 1, out: 2 }, GateDef::Not { input: 2, out: 3 }],
    );
    assert_eq!(validate(&hungry, &labels), Err(GarbleError::ExhaustedLabelSupply { gate: 1 }));
    assert_eq!(
        try_garble(hungry, gen_labels(2, 1)),
        Err(GarbleError::ExhaustedLabelSupply { gate: 1 })
    );

    let few_inputs = circuit(3, 2, 1, vec![GateDef::And { in0: 0, in1: 1, out: 2 }]);
    assert_eq!(validate(&few_inputs, &labels), Err(GarbleError::InputMismatch));
    let many_inputs = circuit(1, 1, 1, vec![]);
    assert_eq!(validate(&many_inputs, &labels), Err(GarbleError::InputMismatch));
    let overflow = circuit(3, usize::MAX, 3, vec![]);
    assert_eq!(validate(&overflow, &labels), Err(GarbleError::InputMismatch));
}

#[test]
fn spare_inner_labels_are_left_unused() {
    let ckt = circuit(3, 1, 1, vec![GateDef::And { in0: 0, in1: 1, out: 2 }]);
    let out = try_garble(ckt.clone(), gen_labels(2, 5)).unwrap();
    assert_eq!(out, garble_ckt(ckt, gen_labels(2, 1)));
}

#[test]
fn wire_counts() {
    let ckt = parse_bristol(b"0 4 5 6\n9 2 3 1\n").unwrap();
    assert_eq!(ckt.get_input_wire_count(), 5);
    assert_eq!(ckt.get_inner_wire_label_count(), 10);
    let empty = CircuitInput::default();
    assert_eq!(empty.get_input_wire_count(), 0);
    assert_eq!(empty.get_inner_wire_label_count(), 0);
    assert_eq!(empty.gates.len(), 0);
    let labels: LabelInputs = gen_labels(0, 0);
    assert_eq!(try_garble(empty, labels).unwrap().and_tables.len(), 0);
}
