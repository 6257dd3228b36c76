use digicir::error::BuildError;
use digicir::misc::{choose_signals, gain_gate_type, usize_signal_vec};
use digicir::node::{Node, NodeType};
use digicir::signal::Signal;
use digicir::table::TruthTable;

#[test]
fn test_gate_node() {
    let and_node = Node::new(NodeType::And, vec![0, 1], vec![2]);
    let signals = vec![Signal::from_usize(0), Signal::from_usize(1)];
    let res = Node::execute_gate(and_node.get_type(), &signals).unwrap();
    assert_eq!(res.value, Some(false));
    assert_eq!(and_node.get_input(), &[0, 1]);
    assert_eq!(and_node.get_output(), &[2]);
}

#[test]
fn two_input_gate_truth_tables() {
    for a in 0..2usize {
        for b in 0..2usize {
            let s = [Signal::from_usize(a), Signal::from_usize(b)];
            let (x, y) = (a == 1, b == 1);
            assert_eq!(Node::execute_gate(&NodeType::And, &s).unwrap().value, Some(x && y));
            assert_eq!(Node::execute_gate(&NodeType::Or, &s).unwrap().value, Some(x || y));
            assert_eq!(Node::execute_gate(&NodeType::Xor, &s).unwrap().value, Some(x != y));
            assert_eq!(Node::execute_gate(&NodeType::NAnd, &s).unwrap().value, Some(!(x && y)));
        }
        let s = [Signal::from_usize(a)];
        assert_eq!(Node::execute_gate(&NodeType::Not, &s).unwrap().value, Some(a == 0));
    }
}

#[test]
fn gates_fold_over_many_inputs() {
    let s = [Signal::from_usize(1), Signal::from_usize(1), Signal::from_usize(0)];
    assert_eq!(Node::execute_and(&s).unwrap().value, Some(false));
    assert_eq!(Node::execute_or(&s).unwrap().value, Some(true));
    assert_eq!(Node::execute_nand(&s).unwrap().value, Some(true));
    assert_eq!(Node::execute_and(&[]).unwrap().value, Some(true));
    assert_eq!(Node::execute_or(&[]).unwrap().value, Some(false));
}

#[test]
fn gate_errors() {
    let s = [Signal::from_usize(1), Signal::default()];
    assert_eq!(Node::execute_gate(&NodeType::And, &s), Err(BuildError::UnknownOperand));
    assert_eq!(Node::execute_xor(&s[0], &s[1]), Err(BuildError::UnknownOperand));
    assert_eq!(Node::execute_not(&s[1]), Err(BuildError::UnknownOperand));
    assert_eq!(Node::execute_gate(&NodeType::Xor, &s[..1]), Err(BuildError::ArityMismatch));
    assert_eq!(
        Node::execute_gate(&NodeType::Pattern("p".to_string()), &s),
        Err(BuildError::UnknownGateName)
    );
}

#[test]
fn signal_basics() {
    let t = Signal::from_usize(5);
    let f = Signal::from_bool(Some(false));
    assert!(t.is_valid());
    assert!(!Signal::default().is_valid());
    assert_eq!(t.not().unwrap().value, Some(false));
    assert_eq!(t.and(&f).unwrap().value, Some(false));
    assert_eq!(t.or(&f).unwrap().value, Some(true));
    assert_eq!(t.xor(&f).unwrap().value, Some(true));
    assert_eq!(t.xor(&t).unwrap().value, Some(false));
    let u = Signal::default();
    assert_eq!(u.not(), Err(BuildError::UnknownOperand));
    assert_eq!(t.and(&u), Err(BuildError::UnknownOperand));
    assert_eq!(u.or(&t), Err(BuildError::UnknownOperand));
    assert_eq!(f.xor(&u), Err(BuildError::UnknownOperand));
    let mut p = Signal::with_parent(Some(true), 3);
    assert_eq!(p.get_parent(), Some(3));
    p.set_parent(4);
    assert_eq!(p.get_parent(), Some(4));
    assert_eq!(p, t);
    assert!(p != f);
    assert!(p.get_unchecked());
}

#[test]
fn misc_helpers() {
    assert!(matches!(gain_gate_type("nand"), Ok(NodeType::NAnd)));
    assert_eq!(gain_gate_type("Nand").unwrap_err(), BuildError::UnknownGateName);
    let v = usize_signal_vec(&[0, 2, 1]);
    let vals: Vec<Option<bool>> = v.iter().map(|s| s.value).collect();
    assert_eq!(vals, vec![Some(false), Some(true), Some(true)]);
    let c = choose_signals(&v, &[2, 0]);
    assert_eq!(c[0].value, Some(true));
    assert_eq!(c[1].value, Some(false));
}

#[test]
fn test_print() {
    let rows = TruthTable::prepare_print(2, 2);
    assert_eq!(
        rows,
        vec![
            vec![Some(0), Some(0), None, None],
            vec![Some(0), Some(1), None, None],
            vec![Some(1), Some(0), None, None],
            vec![Some(1), Some(1), None, None],
        ]
    );

    let tt = TruthTable::new(
        vec![
            vec![0, 0, 0, 0, 1],
            vec![0, 0, 1, 1, 1],
            vec![0, 1, 0, 1, 0],
            vec![0, 1, 1, 1, 1],
            vec![1, 0, 0, 0, 1],
            vec![1, 0, 1, 1, 0],
            vec![1, 1, 0, 1, 0],
            vec![1, 1, 1, 0, 1],
        ],
        3,
        2,
    );
    assert_eq!(tt.input_size(), 3);
    assert_eq!(tt.output_size(), 2);

    let tt = TruthTable::new(
        vec![vec![0, 0, 0, 1], vec![0, 1, 1, 0], vec![1, 0, 1, 0], vec![1, 1, 1, 0]],
        2,
        2,
    );
    assert_eq!(tt.input_size(), 2);
}
