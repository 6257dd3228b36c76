use vstd::prelude::*;
use crate::circuit::{Circuit, has_name, registered};
use crate::error::BuildError;
use crate::node::NodeType;
use crate::pattern::{Pattern, PatternNode, PniType};
use crate::sequential::{gate_is, gate_node, out, has_ports};

verus! {

/// The full adder: inputs `c0`, `a`, `b`; outputs `s = c0 xor (a xor b)`
/// and `c1 = (c0 and (a xor b)) or (a and b)`.
pub open spec fn is_full_adder(p: Pattern) -> bool {
    &&& p.input_size == 3
    &&& p.output@ == seq![(1usize, 0usize), (4usize, 0usize)]
    &&& p.pattern@.len() == 5
    &&& gate_is(p.pattern@[0], NodeType::Xor, seq![PniType::Input(1), PniType::Input(2)])
    &&& gate_is(p.pattern@[1], NodeType::Xor, seq![PniType::Input(0), out(0)])
    &&& gate_is(p.pattern@[2], NodeType::And, seq![PniType::Input(0), out(0)])
    &&& gate_is(p.pattern@[3], NodeType::And, seq![PniType::Input(1), PniType::Input(2)])
    &&& gate_is(p.pattern@[4], NodeType::Or, seq![out(2), out(3)])
}

/// The half adder: inputs `a`, `b`; outputs `s = a xor b`, `c = a and b`.
pub open spec fn is_half_adder(p: Pattern) -> bool {
    &&& p.input_size == 2
    &&& p.output@ == seq![(0usize, 0usize), (1usize, 0usize)]
    &&& p.pattern@.len() == 2
    &&& gate_is(p.pattern@[0], NodeType::Xor, seq![PniType::Input(0), PniType::Input(1)])
    &&& gate_is(p.pattern@[1], NodeType::And, seq![PniType::Input(0), PniType::Input(1)])
}

impl Pattern {
    /// Registers the full adder as "full_adder".
    pub fn build_full_adder(circuit: &mut Circuit) -> (r: Result<(), BuildError>)
        ensures
            has_name(old(circuit).patterns@, "full_adder"@) ==> r == Err::<(), BuildError>(
                BuildError::DuplicatePatternName,
            ) && *final(circuit) == *old(circuit),
            !has_name(old(circuit).patterns@, "full_adder"@) ==> r is Ok
                && registered(*old(circuit), *final(circuit), "full_adder"@, final(circuit).patterns@.last().1)
                && is_full_adder(final(circuit).patterns@.last().1)
                && has_ports(final(circuit).patterns@.last().1, seq!["c0"@, "a"@, "b"@], seq!["s"@, "c1"@], "c0 + a + b = c1 s"@),
            old(circuit).wf() ==> final(circuit).wf(),
    {
        let (c0, a, b) = (PniType::Input(0), PniType::Input(1), PniType::Input(2));
        let mut pattern: Vec<PatternNode> = Vec::new();
        pattern.push(gate_node(NodeType::Xor, [a, b].as_slice()));
        pattern.push(gate_node(NodeType::Xor, [c0, PniType::NodeOutput((0, 0))].as_slice()));
        pattern.push(gate_node(NodeType::And, [c0, PniType::NodeOutput((0, 0))].as_slice()));
        pattern.push(gate_node(NodeType::And, [a, b].as_slice()));
        pattern.push(gate_node(NodeType::Or, [PniType::NodeOutput((2, 0)), PniType::NodeOutput((3, 0))].as_slice()));
        let mut output: Vec<(usize, usize)> = Vec::new();
        output.push((1, 0));
        output.push((4, 0));
        assert(output@ =~= seq![(1usize, 0usize), (4usize, 0usize)]);
        let mut pattern = Pattern::new(3, output, pattern);
        pattern.set_name(["c0", "a", "b"].as_slice(), ["s", "c1"].as_slice());
        pattern.set_description("c0 + a + b = c1 s");
        circuit.register_pattern("full_adder", pattern)
    }

    /// Registers the half adder as "half_adder".
    pub fn build_half_adder(circuit: &mut Circuit) -> (r: Result<(), BuildError>)
        ensures
            has_name(old(circuit).patterns@, "half_adder"@) ==> r == Err::<(), BuildError>(
                BuildError::DuplicatePatternName,
            ) && *final(circuit) == *old(circuit),
            !has_name(old(circuit).patterns@, "half_adder"@) ==> r is Ok
                && registered(*old(circuit), *final(circuit), "half_adder"@, final(circuit).patterns@.last().1)
                && is_half_adder(final(circuit).patterns@.last().1)
                && has_ports(final(circuit).patterns@.last().1, seq!["a"@, "b"@], seq!["s"@, "c"@], Seq::empty()),
            old(circuit).wf() ==> final(circuit).wf(),
    {
        let input = [PniType::Input(0), PniType::Input(1)];
        let mut pattern: Vec<PatternNode> = Vec::new();
        pattern.push(gate_node(NodeType::Xor, input.as_slice()));
        pattern.push(gate_node(NodeType::And, input.as_slice()));
        let mut output: Vec<(usize, usize)> = Vec::new();
        output.push((0, 0));
        output.push((1, 0));
        assert(output@ =~= seq![(0usize, 0usize), (1usize, 0usize)]);
        let mut pattern = Pattern::new(2, output, pattern);
        pattern.set_name(["a", "b"].as_slice(), ["s", "c"].as_slice());
        assert(pattern.description@ =~= Seq::<char>::empty());
        circuit.register_pattern("half_adder", pattern)
    }
}

} // verus!
