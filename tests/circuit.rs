use digicir::circuit::Circuit;
use digicir::error::BuildError;
use digicir::signal::Signal;

fn bits(signals: &[Signal]) -> Vec<Option<bool>> {
    signals.iter().map(|s| s.value).collect()
}

#[test]
fn test() {
    let circuit = Circuit::new(0);
    assert_eq!(circuit.signals_size(), 0);
}

#[test]
fn test_truth_table() {
    let mut circuit = Circuit::new(3);
    let input = circuit.get_input();
    let and_output = circuit.add_gate("and", &input[0..2]).unwrap();
    let or_output = circuit.add_gate("or", &input[0..2]).unwrap();
    let truth_table =
        Circuit::truth_table(&circuit, circuit.get_input().len(), &[and_output, or_output]).unwrap();
    assert_eq!(truth_table.len(), 8);
    for (i, (inputs, outputs)) in truth_table.iter().enumerate() {
        let a = (i >> 2) & 1 == 1;
        let b = (i >> 1) & 1 == 1;
        let c = i & 1 == 1;
        assert_eq!(bits(inputs), vec![Some(a), Some(b), Some(c)]);
        assert_eq!(bits(outputs), vec![Some(a && b), Some(a || b)]);
    }
}

#[test]
fn half_adder() {
    let mut circuit = Circuit::new(2);
    let input = circuit.get_input();
    let go1 = circuit.add_gate("and", &[input[0], input[1]]).unwrap();
    let go2 = circuit.add_gate("xor", &[input[0], input[1]]).unwrap();
    let res = circuit.execute_sequential(&[1, 1]).unwrap();
    assert_eq!(res[go1].value, Some(true));
    assert_eq!(res[go2].value, Some(false));
}

#[test]
fn full_adder() {
    let mut circuit = Circuit::new(3);
    let input = circuit.get_input();
    let (a, b, c0) = (input[0], input[1], input[2]);

    circuit.build_begin();
    let go1 = circuit.add_gate("xor", &[a, b]).unwrap();
    let s = circuit.add_gate("xor", &[c0, go1]).unwrap();
    let go2 = circuit.add_gate("and", &[a, b]).unwrap();
    let go3 = circuit.add_gate("and", &[c0, go1]).unwrap();
    let c1 = circuit.add_gate("or", &[go2, go3]).unwrap();
    let output = [s, c1];

    circuit.build_end("full_adder", &input, &output).unwrap();
    circuit
        .describe_pattern("full_adder", &["a", "b", "c0"], &["s", "c1"], "a + b + c0 -> c1 s")
        .unwrap();
    let pattern = circuit.get_pattern("full_adder").unwrap();
    assert_eq!(pattern.input_size(), 3);
    assert_eq!(pattern.output_size(), 2);
    assert_eq!(pattern.get_pattern().len(), 5);
    assert_eq!(pattern.description, "a + b + c0 -> c1 s");
    assert_eq!(circuit.signals_size(), 3);
    assert_eq!(circuit.get_pipeline().len(), 0);

    let outputs = circuit.apply_pattern("full_adder", &input).unwrap();
    let res = circuit.execute_sequential(&[1, 1, 0]).unwrap();
    assert_eq!(res[outputs[0]].value, Some(false));
    assert_eq!(res[outputs[1]].value, Some(true));
}

#[test]
fn full_adder_inline_and_pattern_agree() {
    let mut inline = Circuit::new(3);
    let input = inline.get_input();
    let (a, b, c0) = (input[0], input[1], input[2]);
    let go1 = inline.add_gate("xor", &[a, b]).unwrap();
    let s = inline.add_gate("xor", &[c0, go1]).unwrap();
    let go2 = inline.add_gate("and", &[a, b]).unwrap();
    let go3 = inline.add_gate("and", &[c0, go1]).unwrap();
    let c1 = inline.add_gate("or", &[go2, go3]).unwrap();

    let mut grouped = Circuit::new(3);
    grouped.build_begin();
    let g1 = grouped.add_gate("xor", &[a, b]).unwrap();
    let gs = grouped.add_gate("xor", &[c0, g1]).unwrap();
    let g2 = grouped.add_gate("and", &[a, b]).unwrap();
    let g3 = grouped.add_gate("and", &[c0, g1]).unwrap();
    let gc1 = grouped.add_gate("or", &[g2, g3]).unwrap();
    grouped.build_end("full_adder", &input, &[gs, gc1]).unwrap();
    let outs = grouped.apply_pattern("full_adder", &input).unwrap();

    for i in 0..8usize {
        let vals = [(i >> 2) & 1, (i >> 1) & 1, i & 1];
        let r1 = inline.execute_sequential(&vals).unwrap();
        let r2 = grouped.execute_sequential(&vals).unwrap();
        assert_eq!(r1[s].value, r2[outs[0]].value);
        assert_eq!(r1[c1].value, r2[outs[1]].value);
        let total = vals[0] + vals[1] + vals[2];
        assert_eq!(r1[s].value, Some(total % 2 == 1));
        assert_eq!(r1[c1].value, Some(total >= 2));
    }
    let r = grouped.execute_sequential(&[1, 0, 1]).unwrap();
    assert_eq!(r[outs[0]].value, Some(false));
    assert_eq!(r[outs[1]].value, Some(true));
}

#[test]
fn truth_table_of_one_and_gate() {
    let mut circuit = Circuit::new(2);
    let input = circuit.get_input();
    let o = circuit.add_gate("and", &input).unwrap();
    let table = Circuit::truth_table(&circuit, 2, &[o]).unwrap();
    assert_eq!(table.len(), 4);
    let expected_inputs = [[false, false], [false, true], [true, false], [true, true]];
    let expected_outputs = [false, false, false, true];
    for i in 0..4 {
        assert_eq!(bits(&table[i].0), vec![Some(expected_inputs[i][0]), Some(expected_inputs[i][1])]);
        assert_eq!(bits(&table[i].1), vec![Some(expected_outputs[i])]);
    }
}

#[test]
fn truth_table_reports_bad_output_index() {
    let mut circuit = Circuit::new(1);
    let o = circuit.add_gate("not", &[0]).unwrap();
    assert_eq!(Circuit::truth_table(&circuit, 1, &[o + 5]).unwrap_err(), BuildError::SignalIndexOutOfRange);
    assert_eq!(Circuit::truth_table(&circuit, 2, &[o]).unwrap_err(), BuildError::ArityMismatch);
}

#[test]
fn signal_ids_increase() {
    let mut circuit = Circuit::new(2);
    let a = circuit.add_gate("and", &[0, 1]).unwrap();
    let reserved = circuit.advance_output(3);
    let b = circuit.add_gate("or", &[0, a]).unwrap();
    assert_eq!(a, 2);
    assert_eq!(reserved, vec![3, 4, 5]);
    assert_eq!(b, 6);
}

#[test]
fn build_errors_are_reported() {
    let mut circuit = Circuit::new(2);
    assert_eq!(circuit.add_gate("nor", &[0, 1]), Err(BuildError::UnknownGateName));
    assert_eq!(circuit.add_gate("xor", &[0, 1, 1]), Err(BuildError::ArityMismatch));
    assert_eq!(circuit.add_gate("not", &[0, 1]), Err(BuildError::ArityMismatch));
    assert_eq!(circuit.add_gate("and", &[0]), Err(BuildError::ArityMismatch));
    assert_eq!(circuit.add_gate("and", &[0, 7]), Err(BuildError::SignalIndexOutOfRange));
    assert_eq!(circuit.apply_pattern("nothing", &[0, 1]).unwrap_err(), BuildError::PatternNotFound);
    assert_eq!(circuit.signals_size(), 2);
    assert_eq!(circuit.get_pipeline().len(), 0);
}

#[test]
fn capture_errors_are_reported() {
    let mut circuit = Circuit::new(2);
    circuit.build_begin();
    let o = circuit.add_gate("and", &[0, 1]).unwrap();
    circuit.build_end("g", &[0, 1], &[o]).unwrap();
    circuit.build_begin();
    let o = circuit.add_gate("and", &[0, 1]).unwrap();
    assert_eq!(circuit.build_end("g", &[0, 1], &[o]), Err(BuildError::DuplicatePatternName));
    // input 1 is not declared, and it is no captured gate's output
    assert_eq!(circuit.build_end("h", &[0], &[o]), Err(BuildError::MalformedPatternCapture));
    // output 0 is a primary input, produced by no captured gate
    assert_eq!(circuit.build_end("h", &[0, 1], &[0]), Err(BuildError::MalformedPatternCapture));
    assert_eq!(circuit.get_pipeline().len(), 1);
}

#[test]
fn unknown_operand_is_reported() {
    let mut circuit = Circuit::new(1);
    let reserved = circuit.advance_output(1)[0];
    circuit.add_gate("and", &[0, reserved]).unwrap();
    assert_eq!(circuit.execute_sequential(&[1]).unwrap_err(), BuildError::UnknownOperand);
    assert_eq!(circuit.execute_sequential(&[1, 0]).unwrap_err(), BuildError::ArityMismatch);
}

#[test]
fn capture_can_keep_the_instance() {
    let mut circuit = Circuit::new(2);
    circuit.build_begin();
    let o = circuit.add_gate("xor", &[0, 1]).unwrap();
    circuit.build_end_with("x", &[0, 1], &[o], true).unwrap();
    assert_eq!(circuit.get_pipeline().len(), 1);
    let outs = circuit.apply_pattern("x", &[1, 0]).unwrap();
    let r = circuit.execute_sequential(&[1, 0]).unwrap();
    assert_eq!(r[o].value, Some(true));
    assert_eq!(r[outs[0]].value, Some(true));
}

#[test]
fn init_input_sets_primary_inputs() {
    let mut circuit = Circuit::new(2);
    circuit.init_input(&[1, 0]).unwrap();
    assert_eq!(circuit.get_signal(0).value, Some(true));
    assert_eq!(circuit.get_signal(1).value, Some(false));
    circuit.init_input(&[0]).unwrap();
    assert_eq!(circuit.get_signal(0).value, Some(false));
    assert_eq!(circuit.get_signal(1).value, Some(false));
    assert_eq!(circuit.init_input(&[1, 1, 1]), Err(BuildError::ArityMismatch));
}

#[test]
fn truth_table_over_leading_inputs() {
    let mut circuit = Circuit::new(2);
    let o = circuit.add_gate("not", &[0]).unwrap();
    let table = Circuit::truth_table(&circuit, 1, &[o]).unwrap();
    assert_eq!(table.len(), 2);
    assert_eq!(bits(&table[0].0), vec![Some(false)]);
    assert_eq!(bits(&table[0].1), vec![Some(true)]);
    assert_eq!(bits(&table[1].1), vec![Some(false)]);
    let r = circuit.execute_sequential(&[1]).unwrap();
    assert_eq!(r[o].value, Some(false));
    assert_eq!(r[1].value, None);
}
