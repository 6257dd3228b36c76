use vstd::prelude::*;
use crate::error::BuildError;
use crate::node::{NodeType, Node, gate_result, with_value, gather};
use crate::signal::Signal;
use crate::misc::{gain_gate_type, gate_of_name};

verus! {

/// Where an input of a pattern's internal node comes from: an input port
/// of the pattern, or output slot `j` of internal node `n`.
#[derive(Clone, Copy, Debug, PartialEq, Eq)]
pub enum PniType {
    Input(usize),
    NodeOutput((usize, usize)),
}

/// An internal node of a pattern, wired relative to the pattern itself.
#[derive(Clone, Debug)]
pub struct PatternNode {
    pub gate_type: NodeType,
    pub inputs: Vec<PniType>,
}

/// A named, relocatable template: an input arity, internal nodes in
/// evaluation order, and the internal outputs it exposes.
#[derive(Clone, Debug)]
pub struct Pattern {
    pub input_size: usize,
    pub output: Vec<(usize, usize)>,
    pub pattern: Vec<PatternNode>,
    pub input_names: Vec<String>,
    pub output_names: Vec<String>,
    pub description: String,
}

/// The reference can be resolved against `n_in` port values and a buffer of
/// `n_buf` internal outputs (a primitive gate has the single slot 0).
pub open spec fn pni_fits(p: PniType, n_in: int, n_buf: int) -> bool {
    match p {
        PniType::Input(k) => k < n_in,
        PniType::NodeOutput((n, j)) => n < n_buf && j == 0,
    }
}

/// The signal a resolvable reference stands for.
pub open spec fn pni_signal(p: PniType, ins: Seq<Signal>, buf: Seq<Signal>) -> Signal {
    match p {
        PniType::Input(k) => ins[k as int],
        PniType::NodeOutput((n, _)) => buf[n as int],
    }
}

/// The outcome of evaluating one internal node against the port values
/// `ins` and the internal output buffer `buf`.
pub open spec fn pnode_result(pn: PatternNode, ins: Seq<Signal>, buf: Seq<Signal>) -> Result<
    Signal,
    BuildError,
> {
    if forall|i: int|
        0 <= i < pn.inputs@.len() ==> pni_fits(#[trigger] pn.inputs@[i], ins.len() as int, buf.len() as int) {
        gate_result(pn.gate_type, pn.inputs@.map_values(|p: PniType| pni_signal(p, ins, buf)))
    } else {
        Err(BuildError::SignalIndexOutOfRange)
    }
}

/// The buffer after evaluating the first `k` internal nodes in order, each
/// overwriting its own slot.
pub open spec fn run_internal(nodes: Seq<PatternNode>, ins: Seq<Signal>, buf: Seq<Signal>, k: nat) -> Result<
    Seq<Signal>,
    BuildError,
>
    decreases k,
{
    if k == 0 {
        Ok(buf)
    } else {
        match run_internal(nodes, ins, buf, (k - 1) as nat) {
            Err(e) => Err(e),
            Ok(b) => match pnode_result(nodes[k - 1], ins, b) {
                Err(e) => Err(e),
                Ok(s) => Ok(b.update(k - 1, s)),
            },
        }
    }
}

/// The buffer after seeding the slots of the first `k` declared outputs
/// with the current values of the call site's output signals.
pub open spec fn seed(outs: Seq<(usize, usize)>, site: Seq<usize>, sig: Seq<Signal>, buf: Seq<Signal>, k: nat) -> Seq<Signal>
    decreases k,
{
    if k == 0 {
        buf
    } else {
        seed(outs, site, sig, buf, (k - 1) as nat).update(outs[k - 1].0 as int, sig[site[k - 1] as int])
    }
}

/// The signal table after copying the first `k` declared outputs back to
/// the call site's output signals.
pub open spec fn write_back(outs: Seq<(usize, usize)>, site: Seq<usize>, buf: Seq<Signal>, sig: Seq<Signal>, k: nat) -> Seq<Signal>
    decreases k,
{
    if k == 0 {
        sig
    } else {
        let s = write_back(outs, site, buf, sig, (k - 1) as nat);
        s.update(site[k - 1] as int, with_value(s[site[k - 1] as int], buf[outs[k - 1].0 as int].value))
    }
}

/// A failure while evaluating the first `k` internal nodes is the outcome
/// of evaluating any longer prefix.
pub proof fn lemma_run_internal_err(nodes: Seq<PatternNode>, ins: Seq<Signal>, buf: Seq<Signal>, k: nat, m: nat)
    requires
        k <= m,
        run_internal(nodes, ins, buf, k) is Err,
    ensures
        run_internal(nodes, ins, buf, m) == run_internal(nodes, ins, buf, k),
    decreases m - k,
{
    if k < m {
        lemma_run_internal_err(nodes, ins, buf, k, (m - 1) as nat);
    }
}

pub open spec fn unknown_buffer(n: nat) -> Seq<Signal> {
    Seq::new(n, |i: int| Signal { parent: None, value: None })
}

/// The call site's ids and the pattern's own output list are in range.
pub open spec fn call_in_range(p: Pattern, site_in: Seq<usize>, site_out: Seq<usize>, n: nat) -> bool {
    &&& forall|i: int| 0 <= i < site_in.len() ==> #[trigger] site_in[i] < n
    &&& forall|i: int| 0 <= i < site_out.len() ==> #[trigger] site_out[i] < n
    &&& forall|i: int|
        0 <= i < p.output@.len() ==> (#[trigger] p.output@[i]).0 < p.pattern@.len() && p.output@[i].1 == 0
}

/// The signal table after one evaluation of pattern `p` at a call site
/// bound to inputs `site_in` and outputs `site_out`: read the inputs, seed
/// the buffer with the outputs' current values, evaluate the internal nodes
/// in order, and copy the exposed slots back.
pub open spec fn pattern_call(p: Pattern, site_in: Seq<usize>, site_out: Seq<usize>, sig: Seq<Signal>) -> Result<
    Seq<Signal>,
    BuildError,
> {
    if site_in.len() != p.input_size || site_out.len() != p.output@.len() {
        Err(BuildError::ArityMismatch)
    } else if !call_in_range(p, site_in, site_out, sig.len()) {
        Err(BuildError::SignalIndexOutOfRange)
    } else {
        let ins = gather(site_in, sig);
        let buf0 = seed(p.output@, site_out, sig, unknown_buffer(p.pattern@.len()), p.output@.len());
        match run_internal(p.pattern@, ins, buf0, p.pattern@.len()) {
            Err(e) => Err(e),
            Ok(buf) => Ok(write_back(p.output@, site_out, buf, sig, p.output@.len())),
        }
    }
}

/// Appends an internal node of gate `node_type` to `pattern` and returns
/// its local index.
pub fn add_node(pattern: &mut Vec<PatternNode>, node_type: &str, node_inputs: Vec<PniType>) -> (r: Result<usize, BuildError>)
    ensures
        match gate_of_name(node_type@) {
            Some(t) => r == Ok::<usize, BuildError>(old(pattern)@.len() as usize)
                && final(pattern)@ == old(pattern)@.push(PatternNode { gate_type: t, inputs: node_inputs }),
            None => r == Err::<usize, BuildError>(BuildError::UnknownGateName)
                && final(pattern)@ == old(pattern)@,
        },
{
    match gain_gate_type(node_type) {
        Ok(t) => {
            pattern.push(PatternNode::new(t, node_inputs));
            Ok(pattern.len() - 1)
        },
        Err(e) => Err(e),
    }
}

/// Pair `k` is the last of `pairs` that binds `name`.
pub open spec fn is_last_binding(pairs: Seq<(&str, usize)>, name: Seq<char>, k: int) -> bool {
    &&& 0 <= k < pairs.len()
    &&& pairs[k].0@ == name
    &&& forall|j: int| k < j < pairs.len() ==> (#[trigger] pairs[j]).0@ != name
}

/// The signal bound to port `name`: the last binding in `pairs` wins.
pub open spec fn port_binding(pairs: Seq<(&str, usize)>, name: Seq<char>) -> Option<usize> {
    if exists|k: int| is_last_binding(pairs, name, k) {
        Some(pairs[choose|k: int| is_last_binding(pairs, name, k)].1)
    } else {
        None
    }
}

/// Every port of `names` is bound in `pairs`.
pub open spec fn all_bound(pairs: Seq<(&str, usize)>, names: Seq<String>) -> bool {
    forall|i: int| 0 <= i < names.len() ==> port_binding(pairs, (#[trigger] names[i])@) is Some
}

/// The signals bound to the ports `names`, in port order.
pub open spec fn bound_ids(pairs: Seq<(&str, usize)>, names: Seq<String>) -> Seq<usize> {
    Seq::new(names.len(), |i: int| port_binding(pairs, names[i]@)->Some_0)
}

/// What `gain_inputs_outputs` returns for `p` and the bindings `pairs`.
pub open spec fn ports_outcome(p: Pattern, pairs: Seq<(&str, usize)>) -> Result<(Seq<usize>, Seq<usize>), BuildError> {
    if p.input_names@.len() != p.input_size || p.output_names@.len() != p.output@.len() {
        Err(BuildError::ArityMismatch)
    } else if !all_bound(pairs, p.input_names@) || !all_bound(pairs, p.output_names@) {
        Err(BuildError::ArityMismatch)
    } else {
        Ok((bound_ids(pairs, p.input_names@), bound_ids(pairs, p.output_names@)))
    }
}

/// The signal bound to port `name`, the last binding winning.
fn find_binding(pairs: &[(&str, usize)], name: &String) -> (r: Option<usize>)
    ensures
        r == port_binding(pairs@, name@),
{
    let mut i: usize = pairs.len();
    while i > 0
        invariant
            0 <= i <= pairs@.len(),
            forall|j: int| i <= j < pairs@.len() ==> (#[trigger] pairs@[j]).0@ != name@,
        decreases i,
    {
        let k = i - 1;
        let key = pairs[k].0.to_owned();
        if key == *name {
            proof {
                assert(is_last_binding(pairs@, name@, k as int));
                let c = choose|c: int| is_last_binding(pairs@, name@, c);
                if c < k {
                } else if c > k {
                }
            }
            return Some(pairs[k].1);
        }
        i = k;
    }
    assert(!exists|c: int| is_last_binding(pairs@, name@, c)) by {
        if exists|c: int| is_last_binding(pairs@, name@, c) {
            let c = choose|c: int| is_last_binding(pairs@, name@, c);
            assert(pairs@[c].0@ == name@);
        }
    }
    None
}

/// The signals bound to the ports `names`, if every one is bound.
fn bind_names(pairs: &[(&str, usize)], names: &Vec<String>) -> (r: Option<Vec<usize>>)
    ensures
        match r {
            Some(v) => all_bound(pairs@, names@) && v@ == bound_ids(pairs@, names@),
            None => !all_bound(pairs@, names@),
        },
{
    let mut res: Vec<usize> = Vec::new();
    let mut i: usize = 0;
    while i < names.len()
        invariant
            0 <= i <= names@.len(),
            res@.len() == i,
            forall|j: int| 0 <= j < i ==> port_binding(pairs@, (#[trigger] names@[j])@) == Some(res@[j]),
        decreases names@.len() - i,
    {
        match find_binding(pairs, &names[i]) {
            Some(id) => res.push(id),
            None => {
                assert(port_binding(pairs@, names@[i as int]@) is None);
                return None;
            },
        }
        i = i + 1;
    }
    assert(res@ =~= bound_ids(pairs@, names@));
    Some(res)
}

/// The strings of `names` as owned strings.
fn owned_names(names: &[&str]) -> (r: Vec<String>)
    ensures
        r@.len() == names@.len(),
        forall|i: int| 0 <= i < names@.len() ==> (#[trigger] r@[i])@ == names@[i]@,
{
    let mut r: Vec<String> = Vec::new();
    let mut i: usize = 0;
    while i < names.len()
        invariant
            0 <= i <= names@.len(),
            r@.len() == i,
            forall|j: int| 0 <= j < i ==> (#[trigger] r@[j])@ == names@[j]@,
        decreases names@.len() - i,
    {
        r.push(names[i].to_owned());
        i = i + 1;
    }
    r
}

impl Pattern {
    /// A pattern with `input_size` ports, exposing the internal slots
    /// `output`, made of the internal nodes `pattern`; no port names and no
    /// description.
    pub fn new(input_size: usize, output: Vec<(usize, usize)>, pattern: Vec<PatternNode>) -> (r: Pattern)
        ensures
            r.input_size == input_size,
            r.output == output,
            r.pattern == pattern,
            r.input_names@.len() == 0,
            r.output_names@.len() == 0,
            r.description@.len() == 0,
    {
        Pattern {
            input_size,
            output,
            pattern,
            input_names: Vec::new(),
            output_names: Vec::new(),
            description: String::new(),
        }
    }

    pub fn get_pattern(&self) -> (r: &Vec<PatternNode>)
        ensures
            *r == self.pattern,
    {
        &self.pattern
    }

    pub fn get_pattern_mut(&mut self) -> (r: &mut Vec<PatternNode>)
        ensures
            *r == old(self).pattern,
            final(self).pattern == *final(r),
            final(self).input_size == old(self).input_size,
            final(self).output == old(self).output,
            final(self).input_names == old(self).input_names,
            final(self).output_names == old(self).output_names,
            final(self).description == old(self).description,
    {
        &mut self.pattern
    }

    pub fn get_output(&self) -> (r: &Vec<(usize, usize)>)
        ensures
            *r == self.output,
    {
        &self.output
    }

    pub fn input_size(&self) -> (r: usize)
        ensures
            r == self.input_size,
    {
        self.input_size
    }

    pub fn output_size(&self) -> (r: usize)
        ensures
            r == self.output@.len(),
    {
        self.output.len()
    }

    /// The signals bound to this pattern's named input and output ports by
    /// the pairs `(port name, signal id)` in `signals`, the last binding of
    /// a name winning; every named port must be bound, and every port named.
    pub fn gain_inputs_outputs(&self, signals: &[(&str, usize)]) -> (r: Result<(Vec<usize>, Vec<usize>), BuildError>)
        ensures
            match ports_outcome(*self, signals@) {
                Ok((a, b)) => r matches Ok((ins, outs)) && ins@ == a && outs@ == b,
                Err(e) => r matches Err(f) && f == e,
            },
    {
        if self.input_names.len() != self.input_size || self.output_names.len() != self.output.len() {
            return Err(BuildError::ArityMismatch);
        }
        let inputs = match bind_names(signals, &self.input_names) {
            Some(v) => v,
            None => {
                return Err(BuildError::ArityMismatch);
            },
        };
        let outputs = match bind_names(signals, &self.output_names) {
            Some(v) => v,
            None => {
                return Err(BuildError::ArityMismatch);
            },
        };
        Ok((inputs, outputs))
    }

    /// Names the input ports and the outputs, for documentation.
    pub fn set_name(&mut self, input_name: &[&str], output_name: &[&str])
        ensures
            final(self).input_names@.len() == input_name@.len(),
            forall|i: int| 0 <= i < input_name@.len() ==> (#[trigger] final(self).input_names@[i])@ == input_name@[i]@,
            final(self).output_names@.len() == output_name@.len(),
            forall|i: int| 0 <= i < output_name@.len() ==> (#[trigger] final(self).output_names@[i])@ == output_name@[i]@,
            final(self).input_size == old(self).input_size,
            final(self).output == old(self).output,
            final(self).pattern == old(self).pattern,
            final(self).description == old(self).description,
    {
        self.input_names = owned_names(input_name);
        self.output_names = owned_names(output_name);
    }

    pub fn get_input_name(&self) -> (r: &Vec<String>)
        ensures
            *r == self.input_names,
    {
        &self.input_names
    }

    pub fn get_output_name(&self) -> (r: &Vec<String>)
        ensures
            *r == self.output_names,
    {
        &self.output_names
    }

    /// Sets the description of what the pattern computes.
    pub fn set_description(&mut self, d: &str)
        ensures
            final(self).description@ == d@,
            final(self).input_size == old(self).input_size,
            final(self).output == old(self).output,
            final(self).pattern == old(self).pattern,
            final(self).input_names == old(self).input_names,
            final(self).output_names == old(self).output_names,
    {
        self.description = d.to_owned();
    }
}

impl PatternNode {
    pub fn new(gate_type: NodeType, inputs: Vec<PniType>) -> (r: PatternNode)
        ensures
            r == (PatternNode { gate_type, inputs }),
    {
        PatternNode { gate_type, inputs }
    }

    /// Evaluates this internal node against the port values and the buffer
    /// of internal outputs.
    pub fn execute(&self, input_signals: &[Signal], output_signals: &[Signal]) -> (r: Result<Signal, BuildError>)
        ensures
            r == pnode_result(*self, input_signals@, output_signals@),
    {
        let ghost ins = input_signals@;
        let ghost buf = output_signals@;
        let ghost f = |p: PniType| pni_signal(p, ins, buf);
        let mut resolved: Vec<Signal> = Vec::new();
        let mut i: usize = 0;
        while i < self.inputs.len()
            invariant
                0 <= i <= self.inputs@.len(),
                ins == input_signals@,
                buf == output_signals@,
                f == (|p: PniType| pni_signal(p, ins, buf)),
                forall|j: int|
                    0 <= j < i ==> pni_fits(#[trigger] self.inputs@[j], ins.len() as int, buf.len() as int),
                resolved@ =~= self.inputs@.take(i as int).map_values(f),
            decreases self.inputs@.len() - i,
        {
            let ghost before = resolved@;
            let p = self.inputs[i];
            assert(p == self.inputs@[i as int]);
            match p {
                PniType::Input(k) => {
                    if k >= input_signals.len() {
                        assert(!pni_fits(p, ins.len() as int, buf.len() as int));
                        return Err(BuildError::SignalIndexOutOfRange);
                    }
                    resolved.push(input_signals[k]);
                },
                PniType::NodeOutput((n, j)) => {
                    if n >= output_signals.len() || j != 0 {
                        assert(!pni_fits(p, ins.len() as int, buf.len() as int));
                        return Err(BuildError::SignalIndexOutOfRange);
                    }
                    resolved.push(output_signals[n]);
                },
            }
            assert(self.inputs@.take(i + 1) =~= self.inputs@.take(i as int).push(self.inputs@[i as int]));
            i = i + 1;
        }
        assert(self.inputs@.take(i as int) =~= self.inputs@);
        Node::execute_gate(&self.gate_type, &resolved)
    }

    pub fn get_type(&self) -> (r: &NodeType)
        ensures
            *r == self.gate_type,
    {
        &self.gate_type
    }

    pub fn get_input(&self) -> (r: &Vec<PniType>)
        ensures
            *r == self.inputs,
    {
        &self.inputs
    }
}

} // verus!
