use vstd::prelude::*;
use crate::error::BuildError;
use crate::signal::{Signal, known, high};
use crate::pattern::{
    Pattern, pattern_call, call_in_range, seed, run_internal, write_back, unknown_buffer,
    lemma_run_internal_err,
};
use crate::circuit::{Circuit, lookup};

verus! {

/// The kind of a pipeline node: a primitive gate or a reference to a
/// registered pattern by name.
#[derive(Clone, Debug)]
pub enum NodeType {
    And,
    Or,
    Not,
    Xor,
    NAnd,
    Pattern(String),
}

/// One entry of a circuit's pipeline: its kind, the signal ids bound to its
/// inputs and the signal ids it writes.
#[derive(Clone, Debug)]
pub struct Node {
    pub node_type: NodeType,
    pub inputs: Vec<usize>,
    pub outputs: Vec<usize>,
}

/// A known signal with value `b` and no producing node.
pub open spec fn bit_signal(b: bool) -> Signal {
    Signal { parent: None, value: Some(b) }
}

/// `s` with its value replaced by `v`; its provenance is kept.
pub open spec fn with_value(s: Signal, v: Option<bool>) -> Signal {
    Signal { parent: s.parent, value: v }
}

pub open spec fn all_known(s: Seq<Signal>) -> bool {
    forall|i: int| 0 <= i < s.len() ==> known(#[trigger] s[i])
}

pub open spec fn all_high(s: Seq<Signal>) -> bool {
    forall|i: int| 0 <= i < s.len() ==> high(#[trigger] s[i])
}

pub open spec fn any_high(s: Seq<Signal>) -> bool {
    exists|i: int| 0 <= i < s.len() && high(#[trigger] s[i])
}

/// A primitive gate, as opposed to a pattern reference.
pub open spec fn is_gate(t: NodeType) -> bool {
    !(t is Pattern)
}

/// How many inputs each primitive gate takes: NOT one, XOR two, the
/// folding gates AND, OR and NAND two or more.
pub open spec fn arity_ok(t: NodeType, n: int) -> bool {
    match t {
        NodeType::Not => n == 1,
        NodeType::Xor => n == 2,
        NodeType::And | NodeType::Or | NodeType::NAnd => n >= 2,
        NodeType::Pattern(_) => false,
    }
}

/// The boolean function of each primitive gate on known inputs.
pub open spec fn gate_value(t: NodeType, s: Seq<Signal>) -> bool {
    match t {
        NodeType::Not => !high(s[0]),
        NodeType::And => all_high(s),
        NodeType::Or => any_high(s),
        NodeType::Xor => (high(s[0]) && !high(s[1])) || (!high(s[0]) && high(s[1])),
        NodeType::NAnd => !all_high(s),
        NodeType::Pattern(_) => false,
    }
}

/// The outcome of evaluating gate `t` on the input signals `s`.
pub open spec fn gate_result(t: NodeType, s: Seq<Signal>) -> Result<Signal, BuildError> {
    if !is_gate(t) {
        Err(BuildError::UnknownGateName)
    } else if !arity_ok(t, s.len() as int) {
        Err(BuildError::ArityMismatch)
    } else if !all_known(s) {
        Err(BuildError::UnknownOperand)
    } else {
        Ok(bit_signal(gate_value(t, s)))
    }
}

/// The outcome of a fold over `s` that needs every value known.
pub open spec fn fold_result(s: Seq<Signal>, b: bool) -> Result<Signal, BuildError> {
    if all_known(s) {
        Ok(bit_signal(b))
    } else {
        Err(BuildError::UnknownOperand)
    }
}

/// The values bound to the ids `ids` in the table `sig`.
pub open spec fn gather(ids: Seq<usize>, sig: Seq<Signal>) -> Seq<Signal> {
    ids.map_values(|k: usize| sig[k as int])
}

/// The signal table after one evaluation of `node`: a primitive gate
/// overwrites the value of its single output, a pattern reference runs
/// the registered pattern of that name.
pub open spec fn node_step(patterns: Seq<(String, Pattern)>, node: Node, sig: Seq<Signal>) -> Result<
    Seq<Signal>,
    BuildError,
> {
    match node.node_type {
        NodeType::Pattern(name) => match lookup(patterns, name@) {
            None => Err(BuildError::PatternNotFound),
            Some(p) => pattern_call(p, node.inputs@, node.outputs@, sig),
        },
        _ => if node.outputs@.len() != 1 {
            Err(BuildError::ArityMismatch)
        } else if !ids_in_range(node.inputs@, sig.len()) || node.outputs@[0] >= sig.len() {
            Err(BuildError::SignalIndexOutOfRange)
        } else {
            match gate_result(node.node_type, gather(node.inputs@, sig)) {
                Err(e) => Err(e),
                Ok(s) => Ok(
                    sig.update(
                        node.outputs@[0] as int,
                        with_value(sig[node.outputs@[0] as int], s.value),
                    ),
                ),
            }
        },
    }
}

pub open spec fn ids_in_range(ids: Seq<usize>, n: nat) -> bool {
    forall|i: int| 0 <= i < ids.len() ==> #[trigger] ids[i] < n
}

/// Checks that every id of `ids` indexes a table of length `n`.
pub fn check_ids(ids: &[usize], n: usize) -> (r: bool)
    ensures
        r == ids_in_range(ids@, n as nat),
{
    let mut i: usize = 0;
    while i < ids.len()
        invariant
            0 <= i <= ids@.len(),
            forall|j: int| 0 <= j < i ==> #[trigger] ids@[j] < n,
        decreases ids@.len() - i,
    {
        if ids[i] >= n {
            assert(!(ids@[i as int] < n));
            return false;
        }
        i = i + 1;
    }
    true
}

/// The values bound to the ids `ids`, all in range of `signals`.
pub fn gather_signals(ids: &[usize], signals: &[Signal]) -> (r: Vec<Signal>)
    requires
        ids_in_range(ids@, signals@.len()),
    ensures
        r@ == gather(ids@, signals@),
{
    let mut r: Vec<Signal> = Vec::new();
    let mut i: usize = 0;
    while i < ids.len()
        invariant
            0 <= i <= ids@.len(),
            ids_in_range(ids@, signals@.len()),
            r@ =~= gather(ids@.take(i as int), signals@),
        decreases ids@.len() - i,
    {
        assert(ids@[i as int] < signals@.len());
        r.push(signals[ids[i]]);
        assert(ids@.take(i + 1) =~= ids@.take(i as int).push(ids@[i as int]));
        i = i + 1;
    }
    assert(ids@.take(i as int) =~= ids@);
    r
}

/// On two known inputs AND, OR, XOR and NAND follow the usual truth
/// tables, and NOT negates its single known input.
pub proof fn lemma_gate_truth_tables(a: Signal, b: Signal)
    requires
        known(a),
        known(b),
    ensures
        gate_result(NodeType::And, seq![a, b]) == Ok::<Signal, BuildError>(bit_signal(high(a) && high(b))),
        gate_result(NodeType::Or, seq![a, b]) == Ok::<Signal, BuildError>(bit_signal(high(a) || high(b))),
        gate_result(NodeType::Xor, seq![a, b]) == Ok::<Signal, BuildError>(bit_signal(high(a) != high(b))),
        gate_result(NodeType::NAnd, seq![a, b]) == Ok::<Signal, BuildError>(bit_signal(!(high(a) && high(b)))),
        gate_result(NodeType::Not, seq![a]) == Ok::<Signal, BuildError>(bit_signal(!high(a))),
{
    let s = seq![a, b];
    assert(all_known(s));
    assert(all_known(seq![a]));
    assert(all_high(s) == (high(a) && high(b))) by {
        if high(a) && high(b) {
            assert forall|i: int| 0 <= i < s.len() implies high(#[trigger] s[i]) by {
                if i == 0 {
                } else {
                }
            }
        } else if !high(a) {
            assert(!high(s[0]));
        } else {
            assert(!high(s[1]));
        }
    }
    assert(any_high(s) == (high(a) || high(b))) by {
        if high(a) {
            assert(high(s[0]));
        } else if high(b) {
            assert(high(s[1]));
        }
    }
}

impl NodeType {
    /// A copy of this node type.
    pub fn duplicate(&self) -> (r: NodeType)
        ensures
            r == *self,
    {
        match self {
            NodeType::And => NodeType::And,
            NodeType::Or => NodeType::Or,
            NodeType::Not => NodeType::Not,
            NodeType::Xor => NodeType::Xor,
            NodeType::NAnd => NodeType::NAnd,
            NodeType::Pattern(name) => NodeType::Pattern(name.clone()),
        }
    }

    /// Whether this is a primitive gate.
    pub fn is_gate(&self) -> (r: bool)
        ensures
            r == is_gate(*self),
    {
        !matches!(self, NodeType::Pattern(_))
    }
}

impl Node {
    pub fn new(node_type: NodeType, inputs: Vec<usize>, outputs: Vec<usize>) -> (r: Node)
        ensures
            r.node_type == node_type,
            r.inputs == inputs,
            r.outputs == outputs,
    {
        Node { node_type, inputs, outputs }
    }

    /// NOT of a single signal.
    pub fn execute_not(signal: &Signal) -> (r: Result<Signal, BuildError>)
        ensures
            r == fold_result(seq![*signal], !high(*signal)),
    {
        let r = signal.not();
        assert(seq![*signal][0] == *signal);
        r
    }

    /// AND folded left to right from true.
    pub fn execute_and(signals: &[Signal]) -> (r: Result<Signal, BuildError>)
        ensures
            r == fold_result(signals@, all_high(signals@)),
    {
        let mut acc: bool = true;
        let mut i: usize = 0;
        while i < signals.len()
            invariant
                0 <= i <= signals@.len(),
                forall|j: int| 0 <= j < i ==> known(#[trigger] signals@[j]),
                acc == (forall|j: int| 0 <= j < i ==> high(#[trigger] signals@[j])),
            decreases signals@.len() - i,
        {
            if !signals[i].is_valid() {
                assert(!known(signals@[i as int]));
                return Err(BuildError::UnknownOperand);
            }
            acc = acc && signals[i].get_unchecked();
            i = i + 1;
        }
        Ok(Signal::from_bool(Some(acc)))
    }

    /// OR folded left to right from false.
    pub fn execute_or(signals: &[Signal]) -> (r: Result<Signal, BuildError>)
        ensures
            r == fold_result(signals@, any_high(signals@)),
    {
        let mut acc: bool = false;
        let mut i: usize = 0;
        while i < signals.len()
            invariant
                0 <= i <= signals@.len(),
                forall|j: int| 0 <= j < i ==> known(#[trigger] signals@[j]),
                acc == (exists|j: int| 0 <= j < i && high(#[trigger] signals@[j])),
            decreases signals@.len() - i,
        {
            if !signals[i].is_valid() {
                assert(!known(signals@[i as int]));
                return Err(BuildError::UnknownOperand);
            }
            acc = acc || signals[i].get_unchecked();
            i = i + 1;
        }
        Ok(Signal::from_bool(Some(acc)))
    }

    /// XOR of two signals: `(l and not r) or (not l and r)`.
    pub fn execute_xor(l: &Signal, r: &Signal) -> (res: Result<Signal, BuildError>)
        ensures
            res == fold_result(
                seq![*l, *r],
                (high(*l) && !high(*r)) || (!high(*l) && high(*r)),
            ),
    {
        let res = l.xor(r);
        proof {
            if known(*l) && known(*r) {
                assert(all_known(seq![*l, *r]));
            } else {
                assert(!known(seq![*l, *r][0]) || !known(seq![*l, *r][1]));
            }
        }
        res
    }

    /// NAND: the negation of the AND fold.
    pub fn execute_nand(signals: &[Signal]) -> (r: Result<Signal, BuildError>)
        ensures
            r == fold_result(signals@, !all_high(signals@)),
    {
        match Self::execute_and(signals) {
            Ok(s) => s.not(),
            Err(e) => Err(e),
        }
    }

    /// Evaluates primitive gate `gate` on `input_signals`.
    pub fn execute_gate(gate: &NodeType, input_signals: &[Signal]) -> (r: Result<Signal, BuildError>)
        ensures
            r == gate_result(*gate, input_signals@),
    {
        let n = input_signals.len();
        match gate {
            NodeType::Not => {
                if n != 1 {
                    return Err(BuildError::ArityMismatch);
                }
                let r = Self::execute_not(&input_signals[0]);
                assert(seq![input_signals@[0]] =~= input_signals@);
                r
            },
            NodeType::And => {
                if n < 2 {
                    return Err(BuildError::ArityMismatch);
                }
                Self::execute_and(input_signals)
            },
            NodeType::Or => {
                if n < 2 {
                    return Err(BuildError::ArityMismatch);
                }
                Self::execute_or(input_signals)
            },
            NodeType::Xor => {
                if n != 2 {
                    return Err(BuildError::ArityMismatch);
                }
                let r = Self::execute_xor(&input_signals[0], &input_signals[1]);
                assert(seq![input_signals@[0], input_signals@[1]] =~= input_signals@);
                r
            },
            NodeType::NAnd => {
                if n < 2 {
                    return Err(BuildError::ArityMismatch);
                }
                Self::execute_nand(input_signals)
            },
            NodeType::Pattern(_) => Err(BuildError::UnknownGateName),
        }
    }

    /// One evaluation of this node on a copy of `signals`.
    pub fn execute(&self, circuit: &Circuit, signals: &[Signal]) -> (r: Result<Vec<Signal>, BuildError>)
        ensures
            match node_step(circuit.patterns@, *self, signals@) {
                Ok(s) => r matches Ok(v) && v@ == s,
                Err(e) => r == Err::<Vec<Signal>, BuildError>(e),
            },
    {
        let mut result = vstd::slice::slice_to_vec(signals);
        match self.execute_mut(circuit, &mut result) {
            Ok(()) => Ok(result),
            Err(e) => Err(e),
        }
    }

    /// One evaluation of this node, written into `signals`; on failure the
    /// table is left unchanged.
    pub fn execute_mut(&self, circuit: &Circuit, signals: &mut Vec<Signal>) -> (r: Result<(), BuildError>)
        ensures
            match node_step(circuit.patterns@, *self, old(signals)@) {
                Ok(s) => r is Ok && final(signals)@ == s,
                Err(e) => r == Err::<(), BuildError>(e) && final(signals)@ == old(signals)@,
            },
    {
        match &self.node_type {
            NodeType::Pattern(name) => {
                match circuit.get_pattern(name.as_str()) {
                    None => Err(BuildError::PatternNotFound),
                    Some(pattern) => self.execute_pattern_mut(pattern, signals),
                }
            },
            _ => {
                if self.outputs.len() != 1 {
                    return Err(BuildError::ArityMismatch);
                }
                if !check_ids(self.inputs.as_slice(), signals.len()) || self.outputs[0] >= signals.len() {
                    return Err(BuildError::SignalIndexOutOfRange);
                }
                let input_signals = gather_signals(self.inputs.as_slice(), signals.as_slice());
                match Self::execute_gate(&self.node_type, input_signals.as_slice()) {
                    Err(e) => Err(e),
                    Ok(res) => {
                        let o = self.outputs[0];
                        let parent = signals[o].parent;
                        signals[o] = Signal { parent, value: res.value };
                        Ok(())
                    },
                }
            },
        }
    }

    /// One evaluation of pattern `pattern` at this call site: the inputs are
    /// read, a buffer of internal outputs is seeded with the current values
    /// of this node's outputs, the internal nodes run in order, and the
    /// exposed slots are copied back. On failure `signals` is unchanged.
    pub fn execute_pattern_mut(&self, pattern: &Pattern, signals: &mut Vec<Signal>) -> (r: Result<(), BuildError>)
        ensures
            match pattern_call(*pattern, self.inputs@, self.outputs@, old(signals)@) {
                Ok(s) => r is Ok && final(signals)@ == s,
                Err(e) => r == Err::<(), BuildError>(e) && final(signals)@ == old(signals)@,
            },
    {
        let ghost sig = signals@;
        if self.inputs.len() != pattern.input_size || self.outputs.len() != pattern.output.len() {
            return Err(BuildError::ArityMismatch);
        }
        if !check_ids(self.inputs.as_slice(), signals.len()) || !check_ids(self.outputs.as_slice(), signals.len()) {
            return Err(BuildError::SignalIndexOutOfRange);
        }
        let mut i: usize = 0;
        while i < pattern.output.len()
            invariant
                0 <= i <= pattern.output@.len(),
                signals@ == sig,
                self.inputs@.len() == pattern.input_size,
                self.outputs@.len() == pattern.output@.len(),
                crate::node::ids_in_range(self.inputs@, sig.len()),
                crate::node::ids_in_range(self.outputs@, sig.len()),
                forall|j: int|
                    0 <= j < i ==> (#[trigger] pattern.output@[j]).0 < pattern.pattern@.len() && pattern.output@[j].1 == 0,
            decreases pattern.output@.len() - i,
        {
            if pattern.output[i].0 >= pattern.pattern.len() || pattern.output[i].1 != 0 {
                assert(!call_in_range(*pattern, self.inputs@, self.outputs@, sig.len()));
                return Err(BuildError::SignalIndexOutOfRange);
            }
            i = i + 1;
        }
        assert(call_in_range(*pattern, self.inputs@, self.outputs@, sig.len()));
        let input_signals = gather_signals(self.inputs.as_slice(), signals.as_slice());
        let ghost ins = input_signals@;
        // a buffer with one slot per internal node, all unknown
        let mut buffer: Vec<Signal> = Vec::new();
        let mut i: usize = 0;
        while i < pattern.pattern.len()
            invariant
                0 <= i <= pattern.pattern@.len(),
                signals@ == sig,
                buffer@ =~= unknown_buffer(i as nat),
            decreases pattern.pattern@.len() - i,
        {
            buffer.push(Signal::default());
            i = i + 1;
        }
        // seed the exposed slots with the call site's current output values
        let mut i: usize = 0;
        while i < pattern.output.len()
            invariant
                0 <= i <= pattern.output@.len(),
                pattern.output@.len() == self.outputs@.len(),
                signals@ == sig,
                call_in_range(*pattern, self.inputs@, self.outputs@, sig.len()),
                buffer@.len() == pattern.pattern@.len(),
                buffer@ == seed(pattern.output@, self.outputs@, sig, unknown_buffer(pattern.pattern@.len()), i as nat),
            decreases pattern.output@.len() - i,
        {
            assert(pattern.output@[i as int].0 < pattern.pattern@.len());
            assert(self.outputs@[i as int] < sig.len());
            buffer[pattern.output[i].0] = signals[self.outputs[i]];
            i = i + 1;
        }
        let ghost buf0 = buffer@;
        // evaluate the internal pattern.pattern in their stored order
        let mut i: usize = 0;
        while i < pattern.pattern.len()
            invariant
                0 <= i <= pattern.pattern@.len(),
                buffer@.len() == pattern.pattern@.len(),
                input_signals@ == ins,
                signals@ == sig,
                ins == crate::node::gather(self.inputs@, sig),
                buf0 == seed(pattern.output@, self.outputs@, sig, unknown_buffer(pattern.pattern@.len()), pattern.output@.len() as nat),
                self.inputs@.len() == pattern.input_size,
                self.outputs@.len() == pattern.output@.len(),
                call_in_range(*pattern, self.inputs@, self.outputs@, sig.len()),
                run_internal(pattern.pattern@, ins, buf0, i as nat) == Ok::<Seq<Signal>, BuildError>(buffer@),
            decreases pattern.pattern@.len() - i,
        {
            match pattern.pattern[i].execute(input_signals.as_slice(), buffer.as_slice()) {
                Err(e) => {
                    proof {
                        lemma_run_internal_err(pattern.pattern@, ins, buf0, (i + 1) as nat, pattern.pattern@.len());
                    }
                    return Err(e);
                },
                Ok(s) => {
                    buffer[i] = s;
                },
            }
            i = i + 1;
        }
        // copy the exposed slots back to the call site
        let mut i: usize = 0;
        while i < pattern.output.len()
            invariant
                0 <= i <= pattern.output@.len(),
                pattern.output@.len() == self.outputs@.len(),
                call_in_range(*pattern, self.inputs@, self.outputs@, sig.len()),
                buffer@.len() == pattern.pattern@.len(),
                signals@.len() == sig.len(),
                run_internal(pattern.pattern@, ins, buf0, pattern.pattern@.len()) == Ok::<Seq<Signal>, BuildError>(buffer@),
                ins == crate::node::gather(self.inputs@, sig),
                buf0 == seed(pattern.output@, self.outputs@, sig, unknown_buffer(pattern.pattern@.len()), pattern.output@.len() as nat),
                self.inputs@.len() == pattern.input_size,
                signals@ == write_back(pattern.output@, self.outputs@, buffer@, sig, i as nat),
            decreases pattern.output@.len() - i,
        {
            assert(pattern.output@[i as int].0 < pattern.pattern@.len());
            assert(self.outputs@[i as int] < sig.len());
            let o = self.outputs[i];
            let parent = signals[o].parent;
            let value = buffer[pattern.output[i].0].value;
            signals[o] = Signal { parent, value };
            i = i + 1;
        }
        Ok(())
    }

    pub fn get_type(&self) -> (r: &NodeType)
        ensures
            *r == self.node_type,
    {
        &self.node_type
    }

    pub fn get_output(&self) -> (r: &[usize])
        ensures
            r@ == self.outputs@,
    {
        self.outputs.as_slice()
    }

    pub fn get_input(&self) -> (r: &[usize])
        ensures
            r@ == self.inputs@,
    {
        self.inputs.as_slice()
    }
}

} // verus!
