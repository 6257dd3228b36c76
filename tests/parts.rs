use digicir::circuit::Circuit;
use digicir::component::{ComponentInfo, HalfAdder};
use digicir::error::BuildError;
use digicir::gate::{GateOutput, GateType, LogicGate};
use digicir::node::NodeType;
use digicir::pattern::Pattern;
use digicir::repl::{CircuitInterpreter, Editor, ParseMessage, Repl, TruthTable};
use digicir::signal::Signal;

#[test]
fn logic_gate_inline() {
    let ctx = vec![Signal::from_usize(1), Signal::from_usize(1), Signal::from_usize(0), Signal::default()];
    let g = LogicGate::new(GateType::NAnd(3), &[0, 1, 2], 3).unwrap();
    assert!(matches!(g.get_type(), GateType::NAnd(3)));
    assert_eq!(g.get_input(), &[0, 1, 2]);
    assert_eq!(g.get_output(), 3);
    assert_eq!(g.execute(&ctx).unwrap().value, Some(true));
    let mut ctx2 = ctx.clone();
    g.execute_mut(&mut ctx2).unwrap();
    assert_eq!(ctx2[3].value, Some(true));
    let mut x = LogicGate::new(GateType::Xor(2), &[0, 1], 3).unwrap();
    assert_eq!(x.execute(&ctx).unwrap().value, Some(false));
    x.set_input(1, 2);
    assert_eq!(x.get_input(), &[0, 2]);
    assert_eq!(x.execute(&ctx).unwrap().value, Some(true));
    assert_eq!(LogicGate::new(GateType::NAnd(4), &[0, 1, 2, 3], 3).unwrap_err(), BuildError::ArityMismatch);
    assert_eq!(LogicGate::new(GateType::Not(1), &[0, 1], 3).unwrap_err(), BuildError::ArityMismatch);
    let bad = LogicGate::new(GateType::And(2), &[0, 9], 3).unwrap();
    assert_eq!(bad.execute(&ctx).unwrap_err(), BuildError::SignalIndexOutOfRange);
    let unknown = LogicGate::new(GateType::Or(2), &[0, 3], 2).unwrap();
    assert_eq!(unknown.execute(&ctx).unwrap_err(), BuildError::UnknownOperand);
    assert_eq!(GateType::Or(2).execute(&ctx[..3]).unwrap().value, Some(true));
    let o = GateOutput { gate_id: 1, output: 3 };
    assert_eq!(o.output, 3);
}

#[test]
fn component_info_and_half_adder() {
    let mut info = ComponentInfo::new(1, &[0, 1], &[2]);
    assert_eq!(info.get_id(), 1);
    info.set_id(4);
    info.set_input(&[3]);
    info.set_output(&[5, 6]);
    assert_eq!(info.get_id(), 4);
    assert_eq!(info.get_input(), &[3]);
    assert_eq!(info.get_output(), &[5, 6]);
    assert_eq!(ComponentInfo::default().get_id(), 0);

    let mut circuit = Circuit::new(2);
    let out = HalfAdder.build(&[0, 1], &mut circuit).unwrap();
    assert_eq!(out, vec![2, 3]);
    let r = circuit.execute_sequential(&[1, 1]).unwrap();
    assert_eq!(r[out[0]].value, Some(false));
    assert_eq!(r[out[1]].value, Some(true));
}

#[test]
fn named_ports() {
    let mut circuit = Circuit::new(3);
    Pattern::build_half_adder(&mut circuit).unwrap();
    let reserved = circuit.advance_output(2);
    let pairs = [("a", 0), ("b", 2), ("s", reserved[0]), ("c", reserved[1]), ("b", 1)];
    let (ins, outs) = circuit.get_pattern("half_adder").unwrap().gain_inputs_outputs(&pairs).unwrap();
    assert_eq!(ins, vec![0, 1]);
    assert_eq!(outs, reserved);
    circuit.apply_pattern_named("half_adder", &pairs).unwrap();
    let r = circuit.execute_sequential(&[1, 0, 0]).unwrap();
    assert_eq!(r[reserved[0]].value, Some(true));
    assert_eq!(r[reserved[1]].value, Some(false));
    assert_eq!(circuit.apply_pattern_named("half_adder", &[("a", 0)]), Err(BuildError::ArityMismatch));
    assert_eq!(
        circuit.apply_pattern_named("half_adder", &[("a", 0), ("b", 1), ("s", 3), ("c", 99)]),
        Err(BuildError::SignalIndexOutOfRange)
    );
}

#[test]
fn feedback_through_reserved_signals() {
    // a cross-coupled NAND latch built inline from reserved signals
    let mut circuit = Circuit::new(2);
    let out = circuit.advance_output_with_value(&[0, 1]);
    let (nq, q) = (out[0], out[1]);
    circuit.add_gate_with_output(NodeType::NAnd, &[0, q], nq).unwrap();
    circuit.add_gate_with_output(NodeType::NAnd, &[1, nq], q).unwrap();
    assert_eq!(circuit.get_parent_node_index(q), Some(1));
    assert!(circuit.get_parent_node(q).is_some());
    assert_eq!(circuit.get_nodes_vec(0, 2).len(), 2);
    assert!(circuit.get_node(1).get_type().is_gate());
    let mut qs = Vec::new();
    for (r, s) in [(1, 0), (1, 1), (0, 1), (1, 1)] {
        circuit.execute_sequential_mut(&[r, s]).unwrap();
        qs.push(circuit.get_signal(q).value);
    }
    assert_eq!(qs, vec![Some(true), Some(true), Some(false), Some(false)]);
    assert_eq!(
        circuit.add_gate_with_output(NodeType::And, &[0, 1], 50),
        Err(BuildError::SignalIndexOutOfRange)
    );
}

#[test]
fn mutable_access_and_description() {
    let mut circuit = Circuit::new(1);
    circuit.get_signals_mut()[0] = Signal::from_usize(1);
    assert_eq!(circuit.get_signal(0).value, Some(true));
    Pattern::build_tff(&mut circuit).unwrap();
    assert_eq!(circuit.get_patterns_mut().len(), 1);
    assert_eq!(circuit.describe_pattern("nope", &[], &[], ""), Err(BuildError::PatternNotFound));
    circuit.describe_pattern("tff", &["c", "t"], &["n", "q"], "toggle").unwrap();
    let p = circuit.get_pattern("tff").unwrap();
    assert_eq!(p.get_output_name(), &vec!["n".to_string(), "q".to_string()]);
    let mut copy = Pattern::new(1, vec![], vec![]);
    copy.get_pattern_mut().clear();
    copy.set_description("empty");
    assert_eq!(copy.description, "empty");
}

#[test]
fn shell_state() {
    let mut editor = Editor::new();
    editor.code_buffer.push_str("add and 0 1");
    assert_eq!(editor.get_code(), "add and 0 1");
    editor.clear_code();
    assert_eq!(editor.get_code(), "");

    let mut message = ParseMessage::new();
    message.update("Ok".to_string(), true);
    assert!(message.flag && message.res_flag);

    let mut circuit = Circuit::new(2);
    let o = circuit.add_gate("or", &[0, 1]).unwrap();
    let mut repl = Repl::new_with_circuit(circuit);
    repl.update_truth_table(&[o]).unwrap();
    let table: &TruthTable = repl.get_truth_table();
    assert!(table.flag);
    assert_eq!(table.data.len(), 4);
    let outs: Vec<Option<bool>> = table.data.iter().map(|r| r.1[0].value).collect();
    assert_eq!(outs, vec![Some(false), Some(true), Some(true), Some(true)]);
    assert_eq!(repl.update_truth_table(&[9]), Err(BuildError::SignalIndexOutOfRange));
    assert_eq!(repl.get_truth_table().data.len(), 4);
    assert_eq!(repl.get_circuit().signals_size(), 3);
    assert_eq!(repl.get_mut_circuit().input, 2);
    assert!(!repl.get_message().flag);
    assert!(repl.get_truth_table_mut().flag);

    assert!(matches!(CircuitInterpreter::parse_gate_name("xor", 2), Ok(GateType::Xor(2))));
    assert_eq!(CircuitInterpreter::parse_gate_name("mux", 2).unwrap_err(), BuildError::UnknownGateName);
}

#[test]
fn gate_type_names() {
    assert_eq!(GateType::Not(1).to_string(), "not");
    assert_eq!(GateType::NAnd(3).to_string(), "nand");
    assert_eq!(GateType::Or(2).to_string(), "or");
}

#[test]
fn shell_table_rows_carry_input_bits() {
    let mut circuit = Circuit::new(2);
    let o = circuit.add_gate("and", &[0, 1]).unwrap();
    let mut table = TruthTable::new();
    table.strings.push("stale".to_string());
    table.update(&circuit, &[o]).unwrap();
    let ins: Vec<Vec<Option<bool>>> = table.data.iter().map(|r| r.0.iter().map(|s| s.value).collect()).collect();
    assert_eq!(
        ins,
        vec![
            vec![Some(false), Some(false)],
            vec![Some(false), Some(true)],
            vec![Some(true), Some(false)],
            vec![Some(true), Some(true)],
        ]
    );
    assert_eq!(table.strings.len(), 5);
    assert_eq!(table.strings[0], format!("   0       1       {}   {}    ", "", o));
    assert_eq!(table.strings[4], "   1       1          1    ");
    assert_eq!(table.strings[1], "   0       0          0    ");
}

#[test]
fn builders_name_their_ports() {
    let mut circuit = Circuit::new(3);
    Pattern::build_full_adder(&mut circuit).unwrap();
    Pattern::build_rsff(&mut circuit).unwrap();
    let fa = circuit.get_pattern("full_adder").unwrap();
    assert_eq!(fa.get_input_name(), &vec!["c0".to_string(), "a".to_string(), "b".to_string()]);
    assert_eq!(fa.get_output_name(), &vec!["s".to_string(), "c1".to_string()]);
    assert_eq!(fa.description, "c0 + a + b = c1 s");
    let rs = circuit.get_pattern("rsff").unwrap();
    assert_eq!(rs.get_input_name(), &vec!["r".to_string(), "cp".to_string(), "s".to_string()]);
    assert_eq!(rs.description, "Qn+1 = S or (not(R) and Qn)");
}
