use digicir::circuit::Circuit;
use digicir::node::NodeType;
use digicir::pattern::{add_node, Pattern, PatternNode, PniType};
use digicir::signal::Signal;

#[test]
fn test_flipflop() {
    let mut circuit = Circuit::new_with_basic_pattern(3);
    let input = circuit.get_input();
    let rs_output = circuit.apply_flipflop("rsff", &input).unwrap();
    assert_eq!(circuit.get_pipeline().len(), 1);
    assert_eq!(circuit.signals_size(), 5);
    circuit.execute_sequential_mut(&[0, 1, 1]).unwrap();
    assert_eq!(circuit.get_signal(rs_output[0]).value, Some(true));
    assert_eq!(circuit.get_signal(rs_output[1]).value, Some(false));
}

#[test]
fn basic_latch_sequence() {
    let mut circuit = Circuit::new_with_basic_pattern(2);
    let input = circuit.get_input();
    let out = circuit.apply_flipflop("brsff", &input).unwrap();
    let (nq, q) = (out[0], out[1]);
    let mut qs = Vec::new();
    for (r, s) in [(1, 0), (1, 1), (0, 1), (1, 1)] {
        circuit.execute_sequential_mut(&[r, s]).unwrap();
        let qv = circuit.get_signal(q).value.unwrap();
        let nqv = circuit.get_signal(nq).value.unwrap();
        assert_eq!(nqv, !qv);
        qs.push(qv as usize);
    }
    assert_eq!(qs, vec![1, 1, 0, 0]);
}

#[test]
fn half_adder_pattern() {
    let mut circuit = Circuit::new(2);
    Pattern::build_half_adder(&mut circuit).unwrap();
    let out = circuit.apply_pattern("half_adder", &[0, 1]).unwrap();
    let res = circuit.execute_sequential(&[1, 1]).unwrap();
    assert_eq!(res[out[0]].value, Some(false));
    assert_eq!(res[out[1]].value, Some(true));
    assert!(Pattern::build_half_adder(&mut circuit).is_err());
}

#[test]
fn full_adder_pattern() {
    let mut circuit = Circuit::new(3);
    Pattern::build_full_adder(&mut circuit).unwrap();
    // ports are c0, a, b
    let out = circuit.apply_pattern("full_adder", &[0, 1, 2]).unwrap();
    for i in 0..8usize {
        let vals = [(i >> 2) & 1, (i >> 1) & 1, i & 1];
        let res = circuit.execute_sequential(&vals).unwrap();
        let total = vals[0] + vals[1] + vals[2];
        assert_eq!(res[out[0]].value, Some(total % 2 == 1));
        assert_eq!(res[out[1]].value, Some(total >= 2));
    }
}

#[test]
fn d_flipflop_follows_d_on_clock() {
    let mut circuit = Circuit::new(2);
    Pattern::build_dff(&mut circuit).unwrap();
    let out = circuit.apply_flipflop("dff", &[0, 1]).unwrap();
    // the first output follows d while the clock is high and holds otherwise
    circuit.execute_sequential_mut(&[1, 0]).unwrap();
    assert_eq!(circuit.get_signal(out[0]).value, Some(false));
    assert_eq!(circuit.get_signal(out[1]).value, Some(true));
    circuit.execute_sequential_mut(&[0, 1]).unwrap();
    assert_eq!(circuit.get_signal(out[0]).value, Some(false));
    circuit.execute_sequential_mut(&[1, 1]).unwrap();
    assert_eq!(circuit.get_signal(out[0]).value, Some(true));
    assert_eq!(circuit.get_signal(out[1]).value, Some(false));
}

#[test]
fn registry_builders() {
    let mut circuit = Circuit::new(3);
    Pattern::build_jkff(&mut circuit).unwrap();
    Pattern::build_tff(&mut circuit).unwrap();
    Pattern::build_dff(&mut circuit).unwrap();
    Pattern::build_rsff(&mut circuit).unwrap();
    Pattern::build_basic_rsff(&mut circuit).unwrap();
    assert_eq!(circuit.get_patterns().len(), 5);
    let jk = circuit.get_pattern("jkff").unwrap();
    assert_eq!(jk.input_size(), 3);
    assert_eq!(jk.get_output(), &vec![(2, 0), (3, 0)]);
    assert_eq!(jk.get_input_name(), &vec!["k".to_string(), "cp".to_string(), "j".to_string()]);
    assert!(Pattern::build_tff(&mut circuit).is_err());
}

#[test]
fn add_node_and_pattern_node() {
    let mut nodes: Vec<PatternNode> = Vec::new();
    assert_eq!(add_node(&mut nodes, "xor", vec![PniType::Input(0), PniType::Input(1)]), Ok(0));
    assert_eq!(add_node(&mut nodes, "not", vec![PniType::NodeOutput((0, 0))]), Ok(1));
    assert!(add_node(&mut nodes, "buf", vec![]).is_err());
    assert_eq!(nodes.len(), 2);
    let ins = [Signal::from_usize(1), Signal::from_usize(0)];
    let mut buf = [Signal::default(); 2];
    buf[0] = nodes[0].execute(&ins, &buf).unwrap();
    assert_eq!(buf[0].value, Some(true));
    buf[1] = nodes[1].execute(&ins, &buf).unwrap();
    assert_eq!(buf[1].value, Some(false));
    assert!(matches!(nodes[1].get_type(), NodeType::Not));
    let bad = PatternNode::new(NodeType::And, vec![PniType::Input(0), PniType::Input(5)]);
    assert!(bad.execute(&ins, &buf).is_err());
}

#[test]
fn stateful_truth_table_carries_state() {
    let mut circuit = Circuit::new_with_basic_pattern(2);
    let input = circuit.get_input();
    let out = circuit.apply_flipflop("brsff", &input).unwrap();
    let table = circuit.truth_table_mut(2, &[out[1]]).unwrap();
    let qs: Vec<Option<bool>> = table.iter().map(|row| row.1[0].value).collect();
    assert_eq!(qs, vec![Some(true), Some(false), Some(true), Some(true)]);
    assert_eq!(circuit.get_signal(out[0]).value, Some(false));
    assert_eq!(circuit.get_signal(out[1]).value, Some(true));
    assert_eq!(circuit.get_signal(0).value, Some(true));
    let before: Vec<Option<bool>> = circuit.get_signals().iter().map(|s| s.value).collect();
    assert!(circuit.truth_table_mut(2, &[40]).is_err());
    let after: Vec<Option<bool>> = circuit.get_signals().iter().map(|s| s.value).collect();
    assert_eq!(before, after);
}
