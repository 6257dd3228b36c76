use vstd::prelude::*;
use crate::circuit::{Circuit, add_gate_outcome};
use crate::error::BuildError;
use crate::node::NodeType;

verus! {

/// A placed component: an id and the signal ids of its inputs and outputs.
#[derive(Debug)]
pub struct ComponentInfo {
    pub id: usize,
    pub input: Vec<usize>,
    pub output: Vec<usize>,
}

impl ComponentInfo {
    pub fn new(id: usize, input: &[usize], output: &[usize]) -> (r: ComponentInfo)
        ensures
            r.id == id,
            r.input@ == input@,
            r.output@ == output@,
    {
        ComponentInfo { id, input: vstd::slice::slice_to_vec(input), output: vstd::slice::slice_to_vec(output) }
    }

    pub fn get_id(&self) -> (r: usize)
        ensures
            r == self.id,
    {
        self.id
    }

    pub fn set_id(&mut self, id: usize)
        ensures
            final(self).id == id,
            final(self).input == old(self).input,
            final(self).output == old(self).output,
    {
        self.id = id;
    }

    pub fn get_input(&self) -> (r: &[usize])
        ensures
            r@ == self.input@,
    {
        self.input.as_slice()
    }

    pub fn set_input(&mut self, input: &[usize])
        ensures
            final(self).input@ == input@,
            final(self).id == old(self).id,
            final(self).output == old(self).output,
    {
        self.input = vstd::slice::slice_to_vec(input);
    }

    pub fn get_output(&self) -> (r: &[usize])
        ensures
            r@ == self.output@,
    {
        self.output.as_slice()
    }

    pub fn set_output(&mut self, output: &[usize])
        ensures
            final(self).output@ == output@,
            final(self).id == old(self).id,
            final(self).input == old(self).input,
    {
        self.output = vstd::slice::slice_to_vec(output);
    }
}

impl Default for ComponentInfo {
    fn default() -> (r: ComponentInfo)
        ensures
            r.id == 0,
            r.input@.len() == 0,
            r.output@.len() == 0,
    {
        ComponentInfo { id: 0, input: Vec::new(), output: Vec::new() }
    }
}

/// A half adder placed directly as two gates: `s = a xor b`, `c = a and b`.
pub struct HalfAdder;

impl HalfAdder {
    /// Adds the XOR gate, then the AND gate, both reading `input`, and
    /// returns their outputs `[s, c]`.
    pub fn build(&self, input: &[usize], circuit: &mut Circuit) -> (r: Result<Vec<usize>, BuildError>)
        ensures
            add_gate_outcome(*old(circuit), NodeType::Xor, input@) is Err ==> r is Err && *final(circuit)
                == *old(circuit),
            add_gate_outcome(*old(circuit), NodeType::Xor, input@) is Ok ==> (r matches Ok(v) && v@ == seq![
                old(circuit).signals@.len() as usize,
                (old(circuit).signals@.len() + 1) as usize,
            ] && final(circuit).pipeline@.len() == old(circuit).pipeline@.len() + 2
                && final(circuit).pipeline@[old(circuit).pipeline@.len() as int].node_type == NodeType::Xor
                && final(circuit).pipeline@[old(circuit).pipeline@.len() + 1int].node_type == NodeType::And
                && final(circuit).pipeline@[old(circuit).pipeline@.len() as int].inputs@ == input@
                && final(circuit).pipeline@[old(circuit).pipeline@.len() + 1int].inputs@ == input@
                && final(circuit).signals@.len() == old(circuit).signals@.len() + 2),
    {
        let s = match circuit.add_gate_t(NodeType::Xor, input) {
            Ok(s) => s,
            Err(e) => {
                return Err(e);
            },
        };
        let ghost mid = *circuit;
        let c = match circuit.add_gate_t(NodeType::And, input) {
            Ok(c) => c,
            Err(e) => {
                return Err(e);
            },
        };
        assert(mid.pipeline@[old(circuit).pipeline@.len() as int] == circuit.pipeline@[old(circuit).pipeline@.len() as int]);
        let mut output: Vec<usize> = Vec::new();
        output.push(s);
        output.push(c);
        assert(output@ =~= seq![s, c]);
        Ok(output)
    }
}

} // verus!
