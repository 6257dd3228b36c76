use vstd::prelude::*;
use crate::error::BuildError;
use crate::node::{Node, NodeType, node_step, is_gate, arity_ok, ids_in_range, check_ids};
use crate::misc::{gain_gate_type, gate_of_name, usize_signal_vec};
use crate::node::{gather, gather_signals};
use vstd::arithmetic::power2::{pow2, lemma_pow2_unfold, lemma_pow2_strictly_increases, lemma_pow2_pos, lemma2_to64};
use vstd::arithmetic::div_mod::lemma_div_denominator;
use crate::pattern::{Pattern, PatternNode, PniType, ports_outcome};
use crate::sequential::{is_basic_rsff, is_rsff};
use crate::signal::{Signal, signal_of_usize};

verus! {

/// A circuit: an append-only signal table whose first `input` entries are
/// the primary inputs, an ordered pipeline of nodes, and a registry of
/// named patterns. `pattern_range` is the capture marker: the pipeline and
/// signal-table lengths recorded when a capture began.
#[derive(Debug)]
pub struct Circuit {
    pub signals: Vec<Signal>,
    pub input: usize,
    pub pattern_range: (usize, usize),
    pub patterns: Vec<(String, Pattern)>,
    pub pipeline: Vec<Node>,
}

/// Entry `i` is the first in `ps` registered under `name`.
pub open spec fn first_named(ps: Seq<(String, Pattern)>, name: Seq<char>, i: int) -> bool {
    &&& 0 <= i < ps.len()
    &&& ps[i].0@ == name
    &&& forall|j: int| 0 <= j < i ==> (#[trigger] ps[j]).0@ != name
}

/// The pattern registered under `name`, if any.
pub open spec fn lookup(ps: Seq<(String, Pattern)>, name: Seq<char>) -> Option<Pattern> {
    if exists|i: int| first_named(ps, name, i) {
        Some(ps[choose|i: int| first_named(ps, name, i)].1)
    } else {
        None
    }
}

/// No two registry entries share a name.
pub open spec fn names_distinct(ps: Seq<(String, Pattern)>) -> bool {
    forall|i: int, j: int| 0 <= i < j < ps.len() ==> (#[trigger] ps[i]).0@ != (#[trigger] ps[j]).0@
}

/// Appending an entry under a new name keeps the registry's names distinct.
pub proof fn lemma_register_keeps_names_distinct(before: Seq<(String, Pattern)>, after: Seq<(String, Pattern)>)
    requires
        names_distinct(before),
        after.len() == before.len() + 1,
        after.drop_last() == before,
        !has_name(before, after.last().0@),
    ensures
        names_distinct(after),
{
    assert forall|i: int, j: int| 0 <= i < j < after.len() implies (#[trigger] after[i]).0@ != (#[trigger] after[j]).0@ by {
        assert(after[i] == before[i]);
        if j < before.len() {
            assert(after[j] == before[j]);
        } else {
            assert(before[i].0@ != after.last().0@);
        }
    }
}

/// In a registry with distinct names, the entry named `name` is the one
/// that lookup finds.
pub proof fn lemma_lookup_distinct(ps: Seq<(String, Pattern)>, name: Seq<char>, i: int)
    requires
        names_distinct(ps),
        0 <= i < ps.len(),
        ps[i].0@ == name,
    ensures
        lookup(ps, name) == Some(ps[i].1),
{
    assert forall|j: int| 0 <= j < i implies (#[trigger] ps[j]).0@ != name by {
        assert(ps[j].0@ != ps[i].0@);
    }
    assert(first_named(ps, name, i));
    let k = choose|k: int| first_named(ps, name, k);
    if k < i {
    } else if k > i {
    }
}

/// A name is registered in `ps`.
pub open spec fn has_name(ps: Seq<(String, Pattern)>, name: Seq<char>) -> bool {
    exists|i: int| 0 <= i < ps.len() && (#[trigger] ps[i]).0@ == name
}

/// The signal table after running the nodes `nodes` in order from `sig`;
/// the first failing node stops the pass.
pub open spec fn run_nodes(ps: Seq<(String, Pattern)>, nodes: Seq<Node>, sig: Seq<Signal>) -> Result<
    Seq<Signal>,
    BuildError,
>
    decreases nodes.len(),
{
    if nodes.len() == 0 {
        Ok(sig)
    } else {
        match run_nodes(ps, nodes.drop_last(), sig) {
            Err(e) => Err(e),
            Ok(s) => node_step(ps, nodes.last(), s),
        }
    }
}

/// `sig` with its first `vals.len()` entries replaced by the bits `vals`.
pub open spec fn with_inputs(sig: Seq<Signal>, vals: Seq<usize>) -> Seq<Signal> {
    Seq::new(
        sig.len(),
        |i: int|
            if i < vals.len() {
                signal_of_usize(vals[i])
            } else {
                sig[i]
            },
    )
}

/// One pass over the whole pipeline with the leading primary inputs set to
/// `vals`; a vector longer than the number of primary inputs is refused.
pub open spec fn run_circuit(c: Circuit, vals: Seq<usize>) -> Result<Seq<Signal>, BuildError> {
    run_from(c, c.signals@, vals)
}

/// One pass over the pipeline of `c` starting from the signal table `sig`
/// with the leading primary inputs set to `vals`.
pub open spec fn run_from(c: Circuit, sig: Seq<Signal>, vals: Seq<usize>) -> Result<Seq<Signal>, BuildError> {
    if vals.len() > c.input {
        Err(BuildError::ArityMismatch)
    } else if c.input > sig.len() {
        Err(BuildError::SignalIndexOutOfRange)
    } else {
        run_nodes(c.patterns@, c.pipeline@, with_inputs(sig, vals))
    }
}

/// The stateful enumeration of the first `k` rows: each row runs on the
/// table the previous row left, starting from the circuit's own table.
/// The result is the final table and the chosen outputs of each row.
pub open spec fn stateful_rows(c: Circuit, n: nat, chosen: Seq<usize>, k: nat) -> Result<
    (Seq<Signal>, Seq<Seq<Signal>>),
    BuildError,
>
    decreases k,
{
    if k == 0 {
        Ok((c.signals@, Seq::empty()))
    } else {
        match stateful_rows(c, n, chosen, (k - 1) as nat) {
            Err(e) => Err(e),
            Ok((sig, rows)) => match run_from(c, sig, row_bits(n, (k - 1) as nat)) {
                Err(e) => Err(e),
                Ok(s) => if ids_in_range(chosen, s.len()) {
                    Ok((s, rows.push(gather(chosen, s))))
                } else {
                    Err(BuildError::SignalIndexOutOfRange)
                },
            },
        }
    }
}

/// A failure within the first `k` rows of the stateful enumeration is its
/// outcome over any more rows.
pub proof fn lemma_stateful_rows_err(c: Circuit, n: nat, chosen: Seq<usize>, k: nat, m: nat)
    requires
        k <= m,
        stateful_rows(c, n, chosen, k) is Err,
    ensures
        stateful_rows(c, n, chosen, m) == stateful_rows(c, n, chosen, k),
    decreases m - k,
{
    if k < m {
        lemma_stateful_rows_err(c, n, chosen, k, (m - 1) as nat);
    }
}

impl Circuit {
    /// Well-formed: the registry holds each name at most once.
    pub open spec fn wf(&self) -> bool {
        names_distinct(self.patterns@)
    }

    /// A circuit with `input` unknown primary inputs and nothing else.
    pub fn new(input: usize) -> (r: Circuit)
        ensures
            r.signals@ == Seq::new(input as nat, |i: int| Signal { parent: None, value: None }),
            r.input == input,
            r.pattern_range == (0usize, 0usize),
            r.patterns@.len() == 0,
            r.pipeline@.len() == 0,
            r.wf(),
    {
        let mut signals: Vec<Signal> = Vec::new();
        let mut i: usize = 0;
        while i < input
            invariant
                0 <= i <= input,
                signals@ =~= Seq::new(i as nat, |i: int| Signal { parent: None, value: None }),
            decreases input - i,
        {
            signals.push(Signal::default());
            i = i + 1;
        }
        Circuit { signals, input, pattern_range: (0, 0), patterns: Vec::new(), pipeline: Vec::new() }
    }

    /// A circuit with `input` unknown primary inputs and the latch ("brsff")
    /// and clocked RS flip-flop ("rsff") patterns registered.
    pub fn new_with_basic_pattern(input: usize) -> (r: Circuit)
        ensures
            r.signals@ == Seq::new(input as nat, |i: int| Signal { parent: None, value: None }),
            r.input == input,
            r.pipeline@.len() == 0,
            r.patterns@.len() == 2,
            r.patterns@[0].0@ == "brsff"@,
            is_basic_rsff(r.patterns@[0].1),
            r.patterns@[1].0@ == "rsff"@,
            is_rsff(r.patterns@[1].1),
            r.wf(),
    {
        let mut circuit = Self::new(input);
        let _latch = Pattern::build_basic_rsff(&mut circuit);
        proof {
            reveal_strlit("brsff");
            reveal_strlit("rsff");
            assert("brsff"@.len() == 5);
            assert("rsff"@.len() == 4);
            assert(circuit.patterns@[0].0@ != "rsff"@);
            assert(!has_name(circuit.patterns@, "rsff"@));
        }
        let _flipflop = Pattern::build_rsff(&mut circuit);
        assert(circuit.patterns@[0] == circuit.patterns@.drop_last()[0]);
        assert(circuit.wf());
        circuit
    }

    /// The index of the first registry entry named `name`.
    fn find_pattern(&self, name: &String) -> (r: Option<usize>)
        ensures
            match r {
                Some(i) => first_named(self.patterns@, name@, i as int),
                None => !has_name(self.patterns@, name@),
            },
    {
        let mut i: usize = 0;
        while i < self.patterns.len()
            invariant
                0 <= i <= self.patterns@.len(),
                forall|j: int| 0 <= j < i ==> (#[trigger] self.patterns@[j]).0@ != name@,
            decreases self.patterns@.len() - i,
        {
            if self.patterns[i].0 == *name {
                return Some(i);
            }
            i = i + 1;
        }
        None
    }

    /// The pattern registered under `name`.
    pub fn get_pattern(&self, name: &str) -> (r: Option<&Pattern>)
        ensures
            match lookup(self.patterns@, name@) {
                Some(p) => r == Some(&p),
                None => r is None,
            },
    {
        let owned = name.to_owned();
        match self.find_pattern(&owned) {
            Some(i) => {
                proof {
                    let k = choose|k: int| first_named(self.patterns@, name@, k);
                    if k < i {
                    } else if k > i {
                    }
                    assert(k == i);
                }
                Some(&self.patterns[i].1)
            },
            None => {
                assert(!exists|k: int| first_named(self.patterns@, name@, k)) by {
                    if exists|k: int| first_named(self.patterns@, name@, k) {
                        let k = choose|k: int| first_named(self.patterns@, name@, k);
                        assert(self.patterns@[k].0@ == name@);
                    }
                }
                None
            },
        }
    }

    /// The ids of the primary inputs, `0..input`.
    pub fn get_input(&self) -> (r: Vec<usize>)
        ensures
            r@ == Seq::new(self.input as nat, |i: int| i as usize),
    {
        let mut res: Vec<usize> = Vec::new();
        let mut i: usize = 0;
        while i < self.input
            invariant
                0 <= i <= self.input,
                res@ =~= Seq::new(i as nat, |k: int| k as usize),
            decreases self.input - i,
        {
            res.push(i);
            i = i + 1;
        }
        res
    }

    pub fn get_patterns(&self) -> (r: &Vec<(String, Pattern)>)
        ensures
            *r == self.patterns,
    {
        &self.patterns
    }

    /// Direct access to the registry; a caller that edits it keeps the names
    /// distinct (`wf`), which the registering operations maintain.
    pub fn get_patterns_mut(&mut self) -> (r: &mut Vec<(String, Pattern)>)
        ensures
            *r == old(self).patterns,
            final(self).patterns == *final(r),
            final(self).signals == old(self).signals,
            final(self).pipeline == old(self).pipeline,
            final(self).input == old(self).input,
            final(self).pattern_range == old(self).pattern_range,
    {
        &mut self.patterns
    }

    pub fn get_signals_mut(&mut self) -> (r: &mut Vec<Signal>)
        ensures
            *r == old(self).signals,
            final(self).signals == *final(r),
            final(self).patterns == old(self).patterns,
            final(self).pipeline == old(self).pipeline,
            final(self).input == old(self).input,
            final(self).pattern_range == old(self).pattern_range,
    {
        &mut self.signals
    }

    pub fn get_signals(&self) -> (r: &Vec<Signal>)
        ensures
            *r == self.signals,
    {
        &self.signals
    }

    /// The signal with id `index`.
    pub fn get_signal(&self, index: usize) -> (r: Signal)
        requires
            index < self.signals@.len(),
        ensures
            r == self.signals@[index as int],
    {
        self.signals[index]
    }

    pub fn signals_size(&self) -> (r: usize)
        ensures
            r == self.signals@.len(),
    {
        self.signals.len()
    }

    /// The pipeline node at position `index`.
    pub fn get_node(&self, index: usize) -> (r: &Node)
        requires
            index < self.pipeline@.len(),
        ensures
            *r == self.pipeline@[index as int],
    {
        &self.pipeline[index]
    }

    pub fn get_pipeline(&self) -> (r: &Vec<Node>)
        ensures
            *r == self.pipeline,
    {
        &self.pipeline
    }

    /// The node recorded as the producer of signal `signal`, if the signal
    /// exists and has one.
    pub fn get_parent_node_index(&self, signal: usize) -> (r: Option<usize>)
        ensures
            r == (if signal < self.signals@.len() {
                self.signals@[signal as int].parent
            } else {
                None
            }),
    {
        if signal < self.signals.len() {
            self.signals[signal].parent
        } else {
            None
        }
    }

    /// The producing node of signal `signal`, if it is recorded and still
    /// in the pipeline.
    pub fn get_parent_node(&self, signal: usize) -> (r: Option<&Node>)
        ensures
            match self.get_parent_node_index_spec(signal) {
                Some(i) if i < self.pipeline@.len() => r == Some(&self.pipeline@[i as int]),
                _ => r is None,
            },
    {
        match self.get_parent_node_index(signal) {
            Some(i) => if i < self.pipeline.len() {
                Some(&self.pipeline[i])
            } else {
                None
            },
            None => None,
        }
    }

    pub open spec fn get_parent_node_index_spec(&self, signal: usize) -> Option<usize> {
        if signal < self.signals@.len() {
            self.signals@[signal as int].parent
        } else {
            None
        }
    }

    /// The pipeline nodes at positions `from..to`.
    pub fn get_nodes_vec(&self, from: usize, to: usize) -> (r: Vec<&Node>)
        requires
            from <= to <= self.pipeline@.len(),
        ensures
            r@.len() == to - from,
            forall|i: int| 0 <= i < to - from ==> *r@[i] == self.pipeline@[from + i],
    {
        let mut res: Vec<&Node> = Vec::new();
        let mut i: usize = from;
        while i < to
            invariant
                from <= i <= to <= self.pipeline@.len(),
                res@.len() == i - from,
                forall|k: int| 0 <= k < i - from ==> *res@[k] == self.pipeline@[from + k],
            decreases to - i,
        {
            res.push(&self.pipeline[i]);
            i = i + 1;
        }
        res
    }

    /// Appends a node of primitive gate `gate_type` reading `input`, and a
    /// fresh signal, produced by that node, as its output; returns the new
    /// signal's id.
    pub fn add_gate_t(&mut self, gate_type: NodeType, input: &[usize]) -> (r: Result<usize, BuildError>)
        ensures
            r == add_gate_outcome(*old(self), gate_type, input@),
            r is Ok ==> added_gate(*old(self), *final(self), gate_type, input@),
            r is Err ==> *final(self) == *old(self),
    {
        if !gate_type.is_gate() {
            return Err(BuildError::UnknownGateName);
        }
        if !Self::check_arity(&gate_type, input.len()) {
            return Err(BuildError::ArityMismatch);
        }
        if !check_ids(input, self.signals.len()) {
            return Err(BuildError::SignalIndexOutOfRange);
        }
        let id = self.signals.len();
        let mut outputs: Vec<usize> = Vec::new();
        outputs.push(id);
        let node_index = self.pipeline.len();
        self.pipeline.push(Node::new(gate_type, vstd::slice::slice_to_vec(input), outputs));
        self.signals.push(Signal::with_parent(None, node_index));
        assert(self.pipeline@.drop_last() =~= old(self).pipeline@);
        assert(self.pipeline@.last().outputs@ =~= seq![id]);
        Ok(id)
    }

    /// Whether `n` inputs suit gate `t`.
    pub fn check_arity(t: &NodeType, n: usize) -> (r: bool)
        ensures
            r == arity_ok(*t, n as int),
    {
        match t {
            NodeType::Not => n == 1,
            NodeType::Xor => n == 2,
            NodeType::And | NodeType::Or | NodeType::NAnd => n >= 2,
            NodeType::Pattern(_) => false,
        }
    }

    /// Like `add_gate_t`, with the primitive gate given by its name.
    pub fn add_gate(&mut self, gate_type: &str, input: &[usize]) -> (r: Result<usize, BuildError>)
        ensures
            match gate_of_name(gate_type@) {
                None => r == Err::<usize, BuildError>(BuildError::UnknownGateName) && *final(self) == *old(self),
                Some(t) => r == add_gate_outcome(*old(self), t, input@)
                    && (r is Ok ==> added_gate(*old(self), *final(self), t, input@))
                    && (r is Err ==> *final(self) == *old(self)),
            },
    {
        match gain_gate_type(gate_type) {
            Ok(t) => self.add_gate_t(t, input),
            Err(e) => Err(e),
        }
    }

    /// Appends a node of primitive gate `gate_type` reading `input` that
    /// writes the existing signal `output`, which records the new node as
    /// its producer. This is how feedback is wired: `output` may have been
    /// reserved with `advance_output` and already be read by other gates.
    pub fn add_gate_with_output(&mut self, gate_type: NodeType, input: &[usize], output: usize) -> (r: Result<(), BuildError>)
        ensures
            r == (match add_gate_outcome(*old(self), gate_type, input@) {
                Err(e) => Err(e),
                Ok(_) => if output < old(self).signals@.len() {
                    Ok(())
                } else {
                    Err(BuildError::SignalIndexOutOfRange)
                },
            }),
            r is Err ==> *final(self) == *old(self),
            r is Ok ==> {
                let node = final(self).pipeline@.last();
                &&& final(self).signals@ == old(self).signals@.update(
                    output as int,
                    Signal { parent: Some(old(self).pipeline@.len() as usize), value: old(self).signals@[output as int].value },
                )
                &&& final(self).pipeline@ == old(self).pipeline@.push(node)
                &&& node.node_type == gate_type
                &&& node.inputs@ == input@
                &&& node.outputs@ == seq![output]
                &&& final(self).input == old(self).input
                &&& final(self).pattern_range == old(self).pattern_range
                &&& final(self).patterns == old(self).patterns
            },
    {
        if !gate_type.is_gate() {
            return Err(BuildError::UnknownGateName);
        }
        if !Self::check_arity(&gate_type, input.len()) {
            return Err(BuildError::ArityMismatch);
        }
        if !check_ids(input, self.signals.len()) {
            return Err(BuildError::SignalIndexOutOfRange);
        }
        if output >= self.signals.len() {
            return Err(BuildError::SignalIndexOutOfRange);
        }
        let mut outputs: Vec<usize> = Vec::new();
        outputs.push(output);
        let node_index = self.pipeline.len();
        self.pipeline.push(Node::new(gate_type, vstd::slice::slice_to_vec(input), outputs));
        let value = self.signals[output].value;
        self.signals[output] = Signal { parent: Some(node_index), value };
        assert(self.pipeline@.last().outputs@ =~= seq![output]);
        Ok(())
    }

    /// Reserves `size` fresh unknown signals that no node produces yet and
    /// returns their ids, in increasing order.
    pub fn advance_output(&mut self, size: usize) -> (r: Vec<usize>)
        ensures
            r@ == fresh_ids(old(self).signals@.len(), size as nat),
            final(self).signals@ == old(self).signals@ + Seq::new(size as nat, |i: int| Signal { parent: None, value: None }),
            final(self).pipeline == old(self).pipeline,
            final(self).input == old(self).input,
            final(self).pattern_range == old(self).pattern_range,
            final(self).patterns == old(self).patterns,
    {
        let mut output: Vec<usize> = Vec::new();
        let mut i: usize = 0;
        while i < size
            invariant
                0 <= i <= size,
                output@ =~= fresh_ids(old(self).signals@.len(), i as nat),
                self.signals@ =~= old(self).signals@ + Seq::new(i as nat, |i: int| Signal { parent: None, value: None }),
                self.pipeline == old(self).pipeline,
                self.input == old(self).input,
                self.pattern_range == old(self).pattern_range,
                self.patterns == old(self).patterns,
            decreases size - i,
        {
            self.signals.push(Signal::default());
            output.push(self.signals.len() - 1);
            i = i + 1;
        }
        output
    }

    /// Reserves one fresh signal per entry of `signals`, holding that bit,
    /// and returns their ids, in increasing order.
    pub fn advance_output_with_value(&mut self, signals: &[usize]) -> (r: Vec<usize>)
        ensures
            r@ == fresh_ids(old(self).signals@.len(), signals@.len()),
            final(self).signals@ == old(self).signals@ + signals@.map_values(|u: usize| signal_of_usize(u)),
            final(self).pipeline == old(self).pipeline,
            final(self).input == old(self).input,
            final(self).pattern_range == old(self).pattern_range,
            final(self).patterns == old(self).patterns,
    {
        let mut outputs: Vec<usize> = Vec::new();
        let mut i: usize = 0;
        while i < signals.len()
            invariant
                0 <= i <= signals@.len(),
                outputs@ =~= fresh_ids(old(self).signals@.len(), i as nat),
                self.signals@ =~= old(self).signals@ + signals@.take(i as int).map_values(|u: usize| signal_of_usize(u)),
                self.pipeline == old(self).pipeline,
                self.input == old(self).input,
                self.pattern_range == old(self).pattern_range,
                self.patterns == old(self).patterns,
            decreases signals@.len() - i,
        {
            self.signals.push(Signal::from_usize(signals[i]));
            outputs.push(self.signals.len() - 1);
            assert(signals@.take(i + 1) =~= signals@.take(i as int).push(signals@[i as int]));
            i = i + 1;
        }
        assert(signals@.take(i as int) =~= signals@);
        outputs
    }

    /// Reserves the two outputs of a flip-flop, `nq` holding 0 and `q`
    /// holding 1, and returns their ids.
    pub fn advance_output_for_flipflop(&mut self) -> (r: Vec<usize>)
        ensures
            r@ == fresh_ids(old(self).signals@.len(), 2),
            final(self).signals@ == old(self).signals@ + seq![signal_of_usize(0), signal_of_usize(1)],
            final(self).pipeline == old(self).pipeline,
            final(self).input == old(self).input,
            final(self).pattern_range == old(self).pattern_range,
            final(self).patterns == old(self).patterns,
    {
        let values: [usize; 2] = [0, 1];
        let r = self.advance_output_with_value(values.as_slice());
        assert(values@.map_values(|u: usize| signal_of_usize(u)) =~= seq![signal_of_usize(0), signal_of_usize(1)]);
        r
    }

    /// Sets the leading primary inputs to the bits `input`, one per input;
    /// the other signals are left as they are.
    pub fn init_input(&mut self, input: &[usize]) -> (r: Result<(), BuildError>)
        ensures
            r == input_outcome(*old(self), input@),
            r is Ok ==> final(self).signals@ == with_inputs(old(self).signals@, input@),
            r is Err ==> final(self).signals == old(self).signals,
            final(self).pipeline == old(self).pipeline,
            final(self).input == old(self).input,
            final(self).pattern_range == old(self).pattern_range,
            final(self).patterns == old(self).patterns,
    {
        if input.len() > self.input {
            return Err(BuildError::ArityMismatch);
        }
        if self.input > self.signals.len() {
            return Err(BuildError::SignalIndexOutOfRange);
        }
        let mut i: usize = 0;
        while i < input.len()
            invariant
                0 <= i <= input@.len() <= self.signals@.len(),
                self.signals@ =~= with_inputs(old(self).signals@, input@.take(i as int)),
                self.pipeline == old(self).pipeline,
                self.input == old(self).input,
                self.pattern_range == old(self).pattern_range,
                self.patterns == old(self).patterns,
            decreases input@.len() - i,
        {
            self.signals[i] = Signal::from_usize(input[i]);
            i = i + 1;
        }
        assert(input@.take(i as int) =~= input@);
        Ok(())
    }

    /// One pass over the pipeline, in stored order, on a copy of the signal
    /// table whose leading primary inputs are set to the bits
    /// `input_signals`; the circuit itself is not changed.
    pub fn execute_sequential(&self, input_signals: &[usize]) -> (r: Result<Vec<Signal>, BuildError>)
        ensures
            match run_circuit(*self, input_signals@) {
                Ok(s) => r matches Ok(v) && v@ == s,
                Err(e) => r == Err::<Vec<Signal>, BuildError>(e),
            },
    {
        if input_signals.len() > self.input {
            return Err(BuildError::ArityMismatch);
        }
        if self.input > self.signals.len() {
            return Err(BuildError::SignalIndexOutOfRange);
        }
        let mut results = vstd::slice::slice_to_vec(self.signals.as_slice());
        let mut i: usize = 0;
        while i < input_signals.len()
            invariant
                0 <= i <= input_signals@.len() <= self.signals@.len(),
                results@ =~= with_inputs(self.signals@, input_signals@.take(i as int)),
            decreases input_signals@.len() - i,
        {
            results[i] = Signal::from_usize(input_signals[i]);
            i = i + 1;
        }
        assert(input_signals@.take(i as int) =~= input_signals@);
        let ghost start = results@;
        let mut k: usize = 0;
        while k < self.pipeline.len()
            invariant
                0 <= k <= self.pipeline@.len(),
                start == with_inputs(self.signals@, input_signals@),
                input_signals@.len() <= self.input,
                self.input <= self.signals@.len(),
                run_nodes(self.patterns@, self.pipeline@.take(k as int), start) == Ok::<Seq<Signal>, BuildError>(results@),
            decreases self.pipeline@.len() - k,
        {
            assert(self.pipeline@.take(k + 1).drop_last() =~= self.pipeline@.take(k as int));
            assert(self.pipeline@.take(k + 1).last() == self.pipeline@[k as int]);
            match self.pipeline[k].execute_mut(self, &mut results) {
                Ok(()) => {},
                Err(e) => {
                    proof {
                        assert(run_nodes(self.patterns@, self.pipeline@.take(k + 1), start) == Err::<Seq<Signal>, BuildError>(e));
                        lemma_run_nodes_err(self.patterns@, self.pipeline@, start, (k + 1) as nat, self.pipeline@.len());
                        assert(self.pipeline@.take(self.pipeline@.len() as int) =~= self.pipeline@);
                    }
                    return Err(e);
                },
            }
            k = k + 1;
        }
        assert(self.pipeline@.take(k as int) =~= self.pipeline@);
        Ok(results)
    }

    /// The stateful truth table: like `truth_table`, except that each row
    /// runs on the signal table the previous row left, so that sequential
    /// elements carry their state from row to row. The final table is
    /// committed; on failure the circuit is unchanged.
    pub fn truth_table_mut(&mut self, input_size: usize, choose_outputs: &[usize]) -> (r: Result<
        Vec<(Vec<Signal>, Vec<Signal>)>,
        BuildError,
    >)
        requires
            pow2(input_size as nat) <= usize::MAX,
        ensures
            match stateful_rows(*old(self), input_size as nat, choose_outputs@, pow2(input_size as nat)) {
                Ok((sig, rows)) => r matches Ok(v) && {
                    &&& v@.len() == rows.len()
                    &&& forall|i: int|
                        0 <= i < v@.len() ==> (#[trigger] v@[i]).0@ == row_inputs(input_size as nat, i as nat)
                            && v@[i].1@ == rows[i]
                    &&& final(self).signals@ == sig
                },
                Err(e) => r == Err::<Vec<(Vec<Signal>, Vec<Signal>)>, BuildError>(e) && final(self).signals@
                    == old(self).signals@,
            },
            final(self).pipeline == old(self).pipeline,
            final(self).input == old(self).input,
            final(self).pattern_range == old(self).pattern_range,
            final(self).patterns == old(self).patterns,
    {
        let ghost c = *old(self);
        let mut n: usize = 1;
        let mut e: usize = 0;
        proof {
            lemma2_to64();
        }
        while e < input_size
            invariant
                0 <= e <= input_size,
                pow2(input_size as nat) <= usize::MAX,
                n == pow2(e as nat),
            decreases input_size - e,
        {
            proof {
                lemma_pow2_unfold((e + 1) as nat);
                if e + 1 < input_size {
                    lemma_pow2_strictly_increases((e + 1) as nat, input_size as nat);
                }
            }
            n = n * 2;
            e = e + 1;
        }
        let saved = vstd::slice::slice_to_vec(self.signals.as_slice());
        let mut result: Vec<(Vec<Signal>, Vec<Signal>)> = Vec::new();
        let ghost mut rows: Seq<Seq<Signal>> = Seq::empty();
        let mut i: usize = 0;
        while i < n
            invariant
                0 <= i <= n,
                n == pow2(input_size as nat),
                c == *old(self),
                saved@ == c.signals@,
                self.pipeline == c.pipeline,
                self.input == c.input,
                self.pattern_range == c.pattern_range,
                self.patterns == c.patterns,
                stateful_rows(c, input_size as nat, choose_outputs@, i as nat) == Ok::<
                    (Seq<Signal>, Seq<Seq<Signal>>),
                    BuildError,
                >((self.signals@, rows)),
                result@.len() == i,
                rows.len() == i,
                forall|k: int|
                    0 <= k < i ==> (#[trigger] result@[k]).0@ == row_inputs(input_size as nat, k as nat)
                        && result@[k].1@ == rows[k],
            decreases n - i,
        {
            let line_input = row_bits_exec(input_size, i);
            let inputs = usize_signal_vec(line_input.as_slice());
            let ghost before = self.signals@;
            assert(run_circuit(*self, line_input@) == run_from(c, before, row_bits(input_size as nat, i as nat)));
            match self.execute_sequential_mut(line_input.as_slice()) {
                Err(e) => {
                    proof {
                        assert(self.pipeline == c.pipeline);
                        assert(stateful_rows(c, input_size as nat, choose_outputs@, (i + 1) as nat) == Err::<
                            (Seq<Signal>, Seq<Seq<Signal>>),
                            BuildError,
                        >(e));
                        lemma_stateful_rows_err(c, input_size as nat, choose_outputs@, (i + 1) as nat, n as nat);
                    }
                    self.signals = saved;
                    return Err(e);
                },
                Ok(()) => {},
            }
            if !check_ids(choose_outputs, self.signals.len()) {
                proof {
                    lemma_stateful_rows_err(c, input_size as nat, choose_outputs@, (i + 1) as nat, n as nat);
                }
                self.signals = saved;
                return Err(BuildError::SignalIndexOutOfRange);
            }
            let outputs = gather_signals(choose_outputs, self.signals.as_slice());
            proof {
                rows = rows.push(outputs@);
            }
            result.push((inputs, outputs));
            i = i + 1;
        }
        Ok(result)
    }

    /// `execute_sequential`, with the resulting signal table committed to
    /// the circuit; this is what carries flip-flop state from one call to
    /// the next. On failure the circuit is unchanged.
    pub fn execute_sequential_mut(&mut self, input_signals: &[usize]) -> (r: Result<(), BuildError>)
        ensures
            match run_circuit(*old(self), input_signals@) {
                Ok(s) => r is Ok && final(self).signals@ == s,
                Err(e) => r == Err::<(), BuildError>(e) && final(self).signals == old(self).signals,
            },
            final(self).pipeline == old(self).pipeline,
            final(self).input == old(self).input,
            final(self).pattern_range == old(self).pattern_range,
            final(self).patterns == old(self).patterns,
    {
        match self.execute_sequential(input_signals) {
            Ok(v) => {
                self.signals = v;
                Ok(())
            },
            Err(e) => Err(e),
        }
    }

    /// Instantiates the pattern registered under `pattern_name` on the
    /// signals `inputs`: reserves one fresh unknown signal per output of the
    /// pattern and appends a pattern-reference node bound to `inputs` and
    /// those signals, whose ids are returned.
    pub fn apply_pattern(&mut self, pattern_name: &str, inputs: &[usize]) -> (r: Result<Vec<usize>, BuildError>)
        ensures
            match apply_outcome(*old(self), pattern_name@, inputs@) {
                Err(e) => r == Err::<Vec<usize>, BuildError>(e) && *final(self) == *old(self),
                Ok(n) => r matches Ok(outs) && {
                    &&& outs@ == fresh_ids(old(self).signals@.len(), n)
                    &&& final(self).signals@ == old(self).signals@ + Seq::new(n, |i: int| Signal { parent: None, value: None })
                    &&& applied(*old(self), *final(self), pattern_name@, inputs@, outs@)
                },
            },
    {
        let (input_size, output_size) = match self.get_pattern(pattern_name) {
            None => {
                return Err(BuildError::PatternNotFound);
            },
            Some(p) => (p.input_size, p.output.len()),
        };
        if inputs.len() != input_size {
            return Err(BuildError::ArityMismatch);
        }
        if !check_ids(inputs, self.signals.len()) {
            return Err(BuildError::SignalIndexOutOfRange);
        }
        let outputs = self.advance_output(output_size);
        self.push_pattern_node(pattern_name, inputs, &outputs);
        Ok(outputs)
    }

    /// Instantiates the pattern registered under `pattern_name` on existing
    /// signals chosen by port name: `signals` binds port names to signal
    /// ids (see `Pattern::gain_inputs_outputs`), outputs included.
    pub fn apply_pattern_named(&mut self, pattern_name: &str, signals: &[(&str, usize)]) -> (r: Result<(), BuildError>)
        ensures
            r is Err ==> *final(self) == *old(self),
            match lookup(old(self).patterns@, pattern_name@) {
                None => r == Err::<(), BuildError>(BuildError::PatternNotFound),
                Some(p) => match ports_outcome(p, signals@) {
                    Err(e) => r == Err::<(), BuildError>(e),
                    Ok((ins, outs)) => if !ids_in_range(ins, old(self).signals@.len()) || !ids_in_range(
                        outs,
                        old(self).signals@.len(),
                    ) {
                        r == Err::<(), BuildError>(BuildError::SignalIndexOutOfRange)
                    } else {
                        r is Ok && final(self).signals == old(self).signals && applied(
                            *old(self),
                            *final(self),
                            pattern_name@,
                            ins,
                            outs,
                        )
                    },
                },
            },
    {
        let (inputs, outputs) = match self.get_pattern(pattern_name) {
            None => {
                return Err(BuildError::PatternNotFound);
            },
            Some(p) => match p.gain_inputs_outputs(signals) {
                Err(e) => {
                    return Err(e);
                },
                Ok(io) => io,
            },
        };
        if !check_ids(inputs.as_slice(), self.signals.len()) || !check_ids(outputs.as_slice(), self.signals.len()) {
            return Err(BuildError::SignalIndexOutOfRange);
        }
        self.push_pattern_node(pattern_name, inputs.as_slice(), &outputs);
        Ok(())
    }

    /// Instantiates a two-output flip-flop pattern registered under
    /// `pattern_name` on `inputs`, like `apply_pattern`, except that its
    /// outputs `nq` and `q` start out holding 0 and 1.
    pub fn apply_flipflop(&mut self, pattern_name: &str, inputs: &[usize]) -> (r: Result<Vec<usize>, BuildError>)
        ensures
            match apply_outcome(*old(self), pattern_name@, inputs@) {
                Err(e) => r == Err::<Vec<usize>, BuildError>(e) && *final(self) == *old(self),
                Ok(n) => if n != 2 {
                    r == Err::<Vec<usize>, BuildError>(BuildError::ArityMismatch) && *final(self) == *old(self)
                } else {
                    r matches Ok(outs) && {
                        &&& outs@ == fresh_ids(old(self).signals@.len(), 2)
                        &&& final(self).signals@ == old(self).signals@ + seq![signal_of_usize(0), signal_of_usize(1)]
                        &&& applied(*old(self), *final(self), pattern_name@, inputs@, outs@)
                    }
                },
            },
    {
        let (input_size, output_size) = match self.get_pattern(pattern_name) {
            None => {
                return Err(BuildError::PatternNotFound);
            },
            Some(p) => (p.input_size, p.output.len()),
        };
        if inputs.len() != input_size {
            return Err(BuildError::ArityMismatch);
        }
        if !check_ids(inputs, self.signals.len()) {
            return Err(BuildError::SignalIndexOutOfRange);
        }
        if output_size != 2 {
            return Err(BuildError::ArityMismatch);
        }
        let outputs = self.advance_output_for_flipflop();
        self.push_pattern_node(pattern_name, inputs, &outputs);
        Ok(outputs)
    }

    /// Appends a node referring to pattern `pattern_name`.
    fn push_pattern_node(&mut self, pattern_name: &str, inputs: &[usize], outputs: &Vec<usize>)
        ensures
            final(self).pipeline@.len() == old(self).pipeline@.len() + 1,
            final(self).pipeline@.drop_last() == old(self).pipeline@,
            final(self).pipeline@.last().node_type matches NodeType::Pattern(s) && s@ == pattern_name@,
            final(self).pipeline@.last().inputs@ == inputs@,
            final(self).pipeline@.last().outputs@ == outputs@,
            final(self).signals == old(self).signals,
            final(self).input == old(self).input,
            final(self).pattern_range == old(self).pattern_range,
            final(self).patterns == old(self).patterns,
    {
        let mut outs: Vec<usize> = Vec::new();
        let mut i: usize = 0;
        while i < outputs.len()
            invariant
                0 <= i <= outputs@.len(),
                outs@ =~= outputs@.take(i as int),
            decreases outputs@.len() - i,
        {
            outs.push(outputs[i]);
            i = i + 1;
        }
        assert(outputs@.take(i as int) =~= outputs@);
        self.pipeline.push(Node::new(NodeType::Pattern(pattern_name.to_owned()), vstd::slice::slice_to_vec(inputs), outs));
        assert(self.pipeline@.drop_last() =~= old(self).pipeline@);
    }

    /// Starts a capture: records the current pipeline and signal-table
    /// lengths as the marker.
    pub fn build_begin(&mut self)
        ensures
            final(self).pattern_range == (old(self).pipeline@.len() as usize, old(self).signals@.len() as usize),
            final(self).signals == old(self).signals,
            final(self).pipeline == old(self).pipeline,
            final(self).input == old(self).input,
            final(self).patterns == old(self).patterns,
    {
        self.pattern_range.0 = self.pipeline.len();
        self.pattern_range.1 = self.signals.len();
    }

    /// Ends a capture begun by `build_begin`: turns the nodes appended since
    /// the marker into a pattern registered under `pattern_name`, whose
    /// input ports are `inputs` and whose outputs are the internal nodes
    /// producing `outputs`, then rolls the signal table and the pipeline
    /// back to the marker.
    pub fn build_end(&mut self, pattern_name: &str, inputs: &[usize], outputs: &[usize]) -> (r: Result<(), BuildError>)
        ensures
            r == capture_outcome(*old(self), pattern_name@, inputs@, outputs@),
            r is Err ==> *final(self) == *old(self),
            r is Ok ==> captured(*old(self), *final(self), pattern_name@, inputs@, outputs@, false),
            old(self).wf() ==> final(self).wf(),
    {
        self.build_end_with(pattern_name, inputs, outputs, false)
    }

    /// `build_end`, except that with `keep_instance` set the captured nodes
    /// and their signals stay in the circuit beside the registered pattern.
    pub fn build_end_with(&mut self, pattern_name: &str, inputs: &[usize], outputs: &[usize], keep_instance: bool) -> (r: Result<(), BuildError>)
        ensures
            r == capture_outcome(*old(self), pattern_name@, inputs@, outputs@),
            r is Err ==> *final(self) == *old(self),
            r is Ok ==> captured(*old(self), *final(self), pattern_name@, inputs@, outputs@, keep_instance),
            old(self).wf() ==> final(self).wf(),
    {
        let name = pattern_name.to_owned();
        if self.find_pattern(&name).is_some() {
            return Err(BuildError::DuplicatePatternName);
        }
        let pattern_start = self.pattern_range.0;
        let signal_start = self.pattern_range.1;
        if pattern_start > self.pipeline.len() || signal_start > self.signals.len() {
            return Err(BuildError::MalformedPatternCapture);
        }
        let ghost c = *self;
        let mut pattern_nodes: Vec<PatternNode> = Vec::new();
        let mut k: usize = pattern_start;
        while k < self.pipeline.len()
            invariant
                *self == c,
                c == *old(self),
                !has_name(c.patterns@, pattern_name@),
                c.pattern_range.1 <= c.signals@.len(),
                pattern_start == c.pattern_range.0,
                pattern_start <= k <= c.pipeline@.len(),
                pattern_nodes@.len() == k - pattern_start,
                forall|i: int|
                    0 <= i < k - pattern_start ==> node_captured(
                        c,
                        inputs@,
                        #[trigger] c.pipeline@[pattern_start + i],
                        pattern_nodes@[i],
                    ),
            decreases c.pipeline@.len() - k,
        {
            let node = &self.pipeline[k];
            if !node.node_type.is_gate() {
                assert(!node_capturable(c, inputs@, c.pipeline@[k as int]));
                return Err(BuildError::MalformedPatternCapture);
            }
            let mut node_inputs: Vec<PniType> = Vec::new();
            let mut j: usize = 0;
            while j < node.inputs.len()
                invariant
                    *self == c,
                    c == *old(self),
                    !has_name(c.patterns@, pattern_name@),
                    c.pattern_range.1 <= c.signals@.len(),
                    pattern_start == c.pattern_range.0,
                    pattern_start <= k < c.pipeline@.len(),
                    *node == c.pipeline@[k as int],
                    0 <= j <= node.inputs@.len(),
                    node_inputs@.len() == j,
                    forall|i: int|
                        0 <= i < j ==> capture_ref(c, inputs@, #[trigger] node.inputs@[i]) == Some(node_inputs@[i]),
                decreases node.inputs@.len() - j,
            {
                match self.capture_ref_exec(inputs, node.inputs[j]) {
                    Some(p) => node_inputs.push(p),
                    None => {
                        assert(capture_ref(c, inputs@, node.inputs@[j as int]) is None);
                        assert(!node_capturable(c, inputs@, c.pipeline@[k as int]));
                        return Err(BuildError::MalformedPatternCapture);
                    },
                }
                j = j + 1;
            }
            pattern_nodes.push(PatternNode::new(node.node_type.duplicate(), node_inputs));
            k = k + 1;
        }
        proof {
            assert forall|k: int| pattern_start <= k < c.pipeline@.len() implies node_capturable(
                c,
                inputs@,
                #[trigger] c.pipeline@[k],
            ) by {
                assert(node_captured(c, inputs@, c.pipeline@[pattern_start + (k - pattern_start)], pattern_nodes@[k - pattern_start]));
            }
        }
        let mut output_node: Vec<(usize, usize)> = Vec::new();
        let mut j: usize = 0;
        while j < outputs.len()
            invariant
                *self == c,
                c == *old(self),
                !has_name(c.patterns@, pattern_name@),
                c.pattern_range.1 <= c.signals@.len(),
                pattern_start == c.pattern_range.0,
                pattern_start <= c.pipeline@.len(),
                forall|k: int| pattern_start <= k < c.pipeline@.len() ==> node_capturable(c, inputs@, #[trigger] c.pipeline@[k]),
                0 <= j <= outputs@.len(),
                output_node@.len() == j,
                forall|i: int| 0 <= i < j ==> trace(c, #[trigger] outputs@[i]) == Some(output_node@[i]),
            decreases outputs@.len() - j,
        {
            match self.trace_exec(outputs[j]) {
                Some(t) => output_node.push(t),
                None => {
                    assert(trace(c, outputs@[j as int]) is None);
                    return Err(BuildError::MalformedPatternCapture);
                },
            }
            j = j + 1;
        }
        let new_pattern = Pattern::new(inputs.len(), output_node, pattern_nodes);
        if !keep_instance {
            self.signals.truncate(signal_start);
            self.pipeline.truncate(pattern_start);
        }
        self.patterns.push((name, new_pattern));
        proof {
            let p = self.patterns@.last().1;
            assert forall|i: int| 0 <= i < p.pattern@.len() implies node_captured(
                c,
                inputs@,
                #[trigger] c.pipeline@[pattern_start + i],
                p.pattern@[i],
            ) by {}
            assert(self.patterns@.drop_last() =~= c.patterns@);
            if c.wf() {
                lemma_register_keeps_names_distinct(c.patterns@, self.patterns@);
            }
        }
        Ok(())
    }

    /// The reference that a captured node's input `id` becomes.
    fn capture_ref_exec(&self, inputs: &[usize], id: usize) -> (r: Option<PniType>)
        ensures
            r == capture_ref(*self, inputs@, id),
    {
        match position(inputs, id) {
            Some(k) => Some(PniType::Input(k)),
            None => match self.trace_exec(id) {
                Some(t) => Some(PniType::NodeOutput(t)),
                None => None,
            },
        }
    }

    /// The captured node that produced signal `id`, as a local index and slot.
    fn trace_exec(&self, id: usize) -> (r: Option<(usize, usize)>)
        ensures
            r == trace(*self, id),
    {
        if id >= self.signals.len() {
            return None;
        }
        match self.signals[id].parent {
            Some(p) => if self.pattern_range.0 <= p && p < self.pipeline.len() {
                Some((p - self.pattern_range.0, 0))
            } else {
                None
            },
            None => None,
        }
    }

    /// The truth table of the signals `choose_outputs` over all
    /// `2^input_size` combinations of the leading `input_size` primary
    /// inputs, in increasing binary order with input 0 as the most
    /// significant bit; the other inputs keep their current values. Each row is an independent
    /// `execute_sequential`; the first failing row stops the enumeration.
    pub fn truth_table(circuit: &Circuit, input_size: usize, choose_outputs: &[usize]) -> (r: Result<
        Vec<(Vec<Signal>, Vec<Signal>)>,
        BuildError,
    >)
        requires
            pow2(input_size as nat) <= usize::MAX,
        ensures
            match r {
                Ok(rows) => {
                    &&& rows@.len() == pow2(input_size as nat)
                    &&& forall|i: int|
                        0 <= i < rows@.len() ==> (#[trigger] rows@[i]).0@ == row_inputs(input_size as nat, i as nat)
                            && table_row(*circuit, input_size as nat, choose_outputs@, i as nat)
                            == Ok::<Seq<Signal>, BuildError>(rows@[i].1@)
                },
                Err(e) => exists|i: nat|
                    i < pow2(input_size as nat) && table_row(*circuit, input_size as nat, choose_outputs@, i)
                        == Err::<Seq<Signal>, BuildError>(e) && forall|j: nat|
                        j < i ==> #[trigger] table_row(*circuit, input_size as nat, choose_outputs@, j) is Ok,
            },
    {
        let mut n: usize = 1;
        let mut e: usize = 0;
        proof {
            lemma2_to64();
        }
        while e < input_size
            invariant
                0 <= e <= input_size,
                pow2(input_size as nat) <= usize::MAX,
                n == pow2(e as nat),
            decreases input_size - e,
        {
            proof {
                lemma_pow2_unfold((e + 1) as nat);
                if e + 1 < input_size {
                    lemma_pow2_strictly_increases((e + 1) as nat, input_size as nat);
                }
            }
            n = n * 2;
            e = e + 1;
        }
        let mut result: Vec<(Vec<Signal>, Vec<Signal>)> = Vec::new();
        let mut i: usize = 0;
        while i < n
            invariant
                0 <= i <= n,
                n == pow2(input_size as nat),
                result@.len() == i,
                forall|k: int|
                    0 <= k < i ==> (#[trigger] result@[k]).0@ == row_inputs(input_size as nat, k as nat)
                        && table_row(*circuit, input_size as nat, choose_outputs@, k as nat)
                        == Ok::<Seq<Signal>, BuildError>(result@[k].1@),
            decreases n - i,
        {
            let line_input = row_bits_exec(input_size, i);
            let inputs = usize_signal_vec(line_input.as_slice());
            proof {
                assert forall|j: nat| j < i implies #[trigger] table_row(*circuit, input_size as nat, choose_outputs@, j) is Ok by {
                    assert(result@[j as int].0@ == row_inputs(input_size as nat, j));
                }
            }
            match circuit.execute_sequential(line_input.as_slice()) {
                Err(e) => {
                    assert(table_row(*circuit, input_size as nat, choose_outputs@, i as nat) == Err::<Seq<Signal>, BuildError>(e));
                    return Err(e);
                },
                Ok(res) => {
                    if !check_ids(choose_outputs, res.len()) {
                        assert(table_row(*circuit, input_size as nat, choose_outputs@, i as nat)
                            == Err::<Seq<Signal>, BuildError>(BuildError::SignalIndexOutOfRange));
                        return Err(BuildError::SignalIndexOutOfRange);
                    }
                    let outputs = gather_signals(choose_outputs, res.as_slice());
                    result.push((inputs, outputs));
                },
            }
            i = i + 1;
        }
        Ok(result)
    }

    /// Names the ports of the pattern registered under `name` and describes
    /// it; its wiring is left as it is.
    pub fn describe_pattern(&mut self, name: &str, input_name: &[&str], output_name: &[&str], description: &str) -> (r: Result<(), BuildError>)
        ensures
            lookup(old(self).patterns@, name@) is None ==> r == Err::<(), BuildError>(BuildError::PatternNotFound)
                && *final(self) == *old(self),
            lookup(old(self).patterns@, name@) matches Some(p) ==> r is Ok && {
                let i = choose|i: int| first_named(old(self).patterns@, name@, i);
                let q = final(self).patterns@[i].1;
                &&& final(self).patterns@.len() == old(self).patterns@.len()
                &&& forall|j: int| 0 <= j < old(self).patterns@.len() && j != i ==> final(self).patterns@[j] == old(self).patterns@[j]
                &&& final(self).patterns@[i].0 == old(self).patterns@[i].0
                &&& q.input_size == p.input_size && q.output == p.output && q.pattern == p.pattern
                &&& q.input_names@.len() == input_name@.len()
                &&& forall|k: int| 0 <= k < input_name@.len() ==> (#[trigger] q.input_names@[k])@ == input_name@[k]@
                &&& q.output_names@.len() == output_name@.len()
                &&& forall|k: int| 0 <= k < output_name@.len() ==> (#[trigger] q.output_names@[k])@ == output_name@[k]@
                &&& q.description@ == description@
                &&& final(self).signals == old(self).signals
                &&& final(self).pipeline == old(self).pipeline
                &&& final(self).input == old(self).input
                &&& final(self).pattern_range == old(self).pattern_range
            },
            old(self).wf() ==> final(self).wf(),
    {
        let owned = name.to_owned();
        match self.find_pattern(&owned) {
            None => {
                assert(!exists|k: int| first_named(self.patterns@, name@, k)) by {
                    if exists|k: int| first_named(self.patterns@, name@, k) {
                        let k = choose|k: int| first_named(self.patterns@, name@, k);
                        assert(self.patterns@[k].0@ == name@);
                    }
                }
                Err(BuildError::PatternNotFound)
            },
            Some(i) => {
                proof {
                    let k = choose|k: int| first_named(self.patterns@, name@, k);
                    if k < i {
                    } else if k > i {
                    }
                    assert(k == i);
                }
                self.patterns[i].1.set_name(input_name, output_name);
                self.patterns[i].1.set_description(description);
                assert forall|j: int| 0 <= j < self.patterns@.len() implies (#[trigger] self.patterns@[j]).0
                    == old(self).patterns@[j].0 by {}
                Ok(())
            },
        }
    }

    /// Registers `pattern` under `name`, unless that name is taken.
    pub fn register_pattern(&mut self, name: &str, pattern: Pattern) -> (r: Result<(), BuildError>)
        ensures
            has_name(old(self).patterns@, name@) ==> r == Err::<(), BuildError>(BuildError::DuplicatePatternName)
                && *final(self) == *old(self),
            !has_name(old(self).patterns@, name@) ==> r is Ok && registered(*old(self), *final(self), name@, pattern),
            old(self).wf() ==> final(self).wf(),
    {
        let owned = name.to_owned();
        if self.find_pattern(&owned).is_some() {
            return Err(BuildError::DuplicatePatternName);
        }
        self.patterns.push((owned, pattern));
        assert(self.patterns@.drop_last() =~= old(self).patterns@);
        proof {
            if old(self).wf() {
                lemma_register_keeps_names_distinct(old(self).patterns@, self.patterns@);
            }
        }
        Ok(())
    }
}

/// A failure of the first `k` nodes is the outcome of any longer prefix.
pub proof fn lemma_run_nodes_err(ps: Seq<(String, Pattern)>, nodes: Seq<Node>, sig: Seq<Signal>, k: nat, m: nat)
    requires
        k <= m <= nodes.len(),
        run_nodes(ps, nodes.take(k as int), sig) is Err,
    ensures
        run_nodes(ps, nodes.take(m as int), sig) == run_nodes(ps, nodes.take(k as int), sig),
    decreases m - k,
{
    if k < m {
        lemma_run_nodes_err(ps, nodes, sig, k, (m - 1) as nat);
        assert(nodes.take(m as int).drop_last() =~= nodes.take(m - 1));
    }
}

/// How many outputs `apply_pattern` reserves, unless the pattern is not
/// registered, the input count differs from its arity or an input id is
/// out of range.
pub open spec fn apply_outcome(c: Circuit, name: Seq<char>, inputs: Seq<usize>) -> Result<nat, BuildError> {
    match lookup(c.patterns@, name) {
        None => Err(BuildError::PatternNotFound),
        Some(p) => if inputs.len() != p.input_size {
            Err(BuildError::ArityMismatch)
        } else if !ids_in_range(inputs, c.signals@.len()) {
            Err(BuildError::SignalIndexOutOfRange)
        } else {
            Ok(p.output@.len())
        },
    }
}

/// `after` is `before` with a node referring to pattern `name`, bound to
/// `inputs` and `outs`, appended to the pipeline.
pub open spec fn applied(before: Circuit, after: Circuit, name: Seq<char>, inputs: Seq<usize>, outs: Seq<usize>) -> bool {
    let node = after.pipeline@.last();
    &&& after.pipeline@.len() == before.pipeline@.len() + 1
    &&& after.pipeline@.drop_last() == before.pipeline@
    &&& node.node_type matches NodeType::Pattern(s) && s@ == name
    &&& node.inputs@ == inputs
    &&& node.outputs@ == outs
    &&& after.input == before.input
    &&& after.pattern_range == before.pattern_range
    &&& after.patterns == before.patterns
}

/// The first position of `x` in `s`, or -1.
pub open spec fn first_index_of(s: Seq<usize>, x: usize) -> int {
    if exists|k: int| is_first_index(s, x, k) {
        choose|k: int| is_first_index(s, x, k)
    } else {
        -1
    }
}

pub open spec fn is_first_index(s: Seq<usize>, x: usize, k: int) -> bool {
    &&& 0 <= k < s.len()
    &&& s[k] == x
    &&& forall|j: int| 0 <= j < k ==> s[j] != x
}

/// The first position of `x` in `s`.
pub fn position(s: &[usize], x: usize) -> (r: Option<usize>)
    ensures
        match r {
            Some(k) => first_index_of(s@, x) == k,
            None => first_index_of(s@, x) == -1 && forall|j: int| 0 <= j < s@.len() ==> s@[j] != x,
        },
{
    let mut i: usize = 0;
    while i < s.len()
        invariant
            0 <= i <= s@.len(),
            forall|j: int| 0 <= j < i ==> s@[j] != x,
        decreases s@.len() - i,
    {
        if s[i] == x {
            proof {
                assert(is_first_index(s@, x, i as int));
                let k = choose|k: int| is_first_index(s@, x, k);
                if k < i {
                } else if k > i {
                }
            }
            return Some(i);
        }
        i = i + 1;
    }
    None
}

/// The captured node that produced signal `id`, as a pattern-local index
/// and slot: the signal's recorded producer must lie at or after the
/// capture marker.
pub open spec fn trace(c: Circuit, id: usize) -> Option<(usize, usize)> {
    if id < c.signals@.len() {
        match c.signals@[id as int].parent {
            Some(p) => if c.pattern_range.0 <= p < c.pipeline@.len() {
                Some(((p - c.pattern_range.0) as usize, 0usize))
            } else {
                None
            },
            None => None,
        }
    } else {
        None
    }
}

/// The reference that input `id` of a captured node becomes: the first
/// declared input port equal to it, else the captured node producing it.
pub open spec fn capture_ref(c: Circuit, inputs: Seq<usize>, id: usize) -> Option<PniType> {
    let k = first_index_of(inputs, id);
    if k >= 0 {
        Some(PniType::Input(k as usize))
    } else {
        match trace(c, id) {
            Some(t) => Some(PniType::NodeOutput(t)),
            None => None,
        }
    }
}

/// A captured node must be a primitive gate whose every input resolves.
pub open spec fn node_capturable(c: Circuit, inputs: Seq<usize>, node: Node) -> bool {
    &&& is_gate(node.node_type)
    &&& forall|i: int| 0 <= i < node.inputs@.len() ==> capture_ref(c, inputs, #[trigger] node.inputs@[i]) is Some
}

/// `pn` is the relocated form of the captured node `node`.
pub open spec fn node_captured(c: Circuit, inputs: Seq<usize>, node: Node, pn: PatternNode) -> bool {
    &&& pn.gate_type == node.node_type
    &&& is_gate(node.node_type)
    &&& pn.inputs@.len() == node.inputs@.len()
    &&& forall|i: int| 0 <= i < node.inputs@.len() ==> capture_ref(c, inputs, #[trigger] node.inputs@[i]) == Some(pn.inputs@[i])
}

/// What `build_end` returns for the capture `c` is in.
pub open spec fn capture_outcome(c: Circuit, name: Seq<char>, inputs: Seq<usize>, outputs: Seq<usize>) -> Result<(), BuildError> {
    let m = c.pattern_range.0;
    if has_name(c.patterns@, name) {
        Err(BuildError::DuplicatePatternName)
    } else if m > c.pipeline@.len() || c.pattern_range.1 > c.signals@.len() {
        Err(BuildError::MalformedPatternCapture)
    } else if !(forall|k: int| m <= k < c.pipeline@.len() ==> node_capturable(c, inputs, #[trigger] c.pipeline@[k])) {
        Err(BuildError::MalformedPatternCapture)
    } else if !(forall|j: int| 0 <= j < outputs.len() ==> trace(c, #[trigger] outputs[j]) is Some) {
        Err(BuildError::MalformedPatternCapture)
    } else {
        Ok(())
    }
}

/// `p` is the pattern captured from `c` with ports `inputs` and `outputs`.
pub open spec fn captured_pattern(c: Circuit, inputs: Seq<usize>, outputs: Seq<usize>, p: Pattern) -> bool {
    let m = c.pattern_range.0;
    &&& p.input_size == inputs.len()
    &&& p.pattern@.len() == c.pipeline@.len() - m
    &&& forall|i: int| 0 <= i < p.pattern@.len() ==> node_captured(c, inputs, #[trigger] c.pipeline@[m + i], p.pattern@[i])
    &&& p.output@.len() == outputs.len()
    &&& forall|j: int| 0 <= j < outputs.len() ==> trace(c, #[trigger] outputs[j]) == Some(p.output@[j])
    &&& p.input_names@.len() == 0
    &&& p.output_names@.len() == 0
    &&& p.description@.len() == 0
}

/// `after` is `before` with the captured pattern registered under `name`
/// and, unless `keep` is set, the signal table and the pipeline rolled back
/// to the capture marker.
pub open spec fn captured(before: Circuit, after: Circuit, name: Seq<char>, inputs: Seq<usize>, outputs: Seq<usize>, keep: bool) -> bool {
    &&& after.patterns@.len() == before.patterns@.len() + 1
    &&& after.patterns@.drop_last() == before.patterns@
    &&& after.patterns@.last().0@ == name
    &&& captured_pattern(before, inputs, outputs, after.patterns@.last().1)
    &&& if keep {
        after.signals == before.signals && after.pipeline == before.pipeline
    } else {
        &&& after.signals@ == before.signals@.take(before.pattern_range.1 as int)
        &&& after.pipeline@ == before.pipeline@.take(before.pattern_range.0 as int)
    }
    &&& after.input == before.input
    &&& after.pattern_range == before.pattern_range
}

/// Bit `p` of row `i` of an `n`-input truth table, input 0 being the most
/// significant.
pub open spec fn row_bits(n: nat, i: nat) -> Seq<usize> {
    Seq::new(n, |p: int| ((i / pow2((n - 1 - p) as nat)) % 2) as usize)
}

/// The input signals of row `i`.
pub open spec fn row_inputs(n: nat, i: nat) -> Seq<Signal> {
    row_bits(n, i).map_values(|u: usize| signal_of_usize(u))
}

/// The outputs `chosen` of row `i`: one pass with the inputs set to the
/// row's bits.
pub open spec fn table_row(c: Circuit, n: nat, chosen: Seq<usize>, i: nat) -> Result<Seq<Signal>, BuildError> {
    match run_circuit(c, row_bits(n, i)) {
        Err(e) => Err(e),
        Ok(s) => if ids_in_range(chosen, s.len()) {
            Ok(gather(chosen, s))
        } else {
            Err(BuildError::SignalIndexOutOfRange)
        },
    }
}

/// The bits of row `i` of an `n`-input truth table.
pub(crate) fn row_bits_exec(n: usize, i: usize) -> (r: Vec<usize>)
    ensures
        r@ == row_bits(n as nat, i as nat),
{
    let mut line: Vec<usize> = Vec::new();
    let mut j: usize = 0;
    while j < n
        invariant
            0 <= j <= n,
            line@.len() == j,
        decreases n - j,
    {
        line.push(0);
        j = j + 1;
    }
    let mut temp: usize = i;
    let mut j: usize = 0;
    proof {
        lemma2_to64();
    }
    while j < n
        invariant
            0 <= j <= n,
            line@.len() == n,
            temp == i as nat / pow2(j as nat),
            forall|p: int| n - j <= p < n ==> #[trigger] line@[p] == row_bits(n as nat, i as nat)[p],
        decreases n - j,
    {
        let v = temp % 2;
        proof {
            lemma_pow2_pos(j as nat);
            lemma_pow2_unfold((j + 1) as nat);
            lemma_div_denominator(i as int, pow2(j as nat) as int, 2);
            assert(((n - 1 - (n - j - 1)) as nat) == j as nat);
        }
        line[n - j - 1] = v;
        temp = temp / 2;
        j = j + 1;
    }
    assert(line@ =~= row_bits(n as nat, i as nat));
    line
}

/// `after` is `before` with `p` registered under `name` at the end of the
/// registry, and nothing else changed.
pub open spec fn registered(before: Circuit, after: Circuit, name: Seq<char>, p: Pattern) -> bool {
    &&& after.patterns@.len() == before.patterns@.len() + 1
    &&& after.patterns@.drop_last() == before.patterns@
    &&& after.patterns@.last().0@ == name
    &&& after.patterns@.last().1 == p
    &&& after.signals == before.signals
    &&& after.pipeline == before.pipeline
    &&& after.input == before.input
    &&& after.pattern_range == before.pattern_range
}

/// `ids` are the ids that an operation on `before` handed out, resulting
/// in `after`: the next ones past the end of the table, each appended once.
pub open spec fn issued(before: Circuit, after: Circuit, ids: Seq<usize>) -> bool {
    &&& ids == fresh_ids(before.signals@.len(), ids.len())
    &&& after.signals@.len() == before.signals@.len() + ids.len()
}

/// Signal ids handed out by `add_gate` or `advance_output` increase
/// strictly: within one call, and from one call to any later one, as long
/// as the table has not shrunk in between (closing a capture rolls it back).
pub proof fn lemma_fresh_ids_increase(
    before1: Circuit,
    after1: Circuit,
    ids1: Seq<usize>,
    before2: Circuit,
    after2: Circuit,
    ids2: Seq<usize>,
)
    requires
        issued(before1, after1, ids1),
        issued(before2, after2, ids2),
        after1.signals@.len() <= before2.signals@.len(),
    ensures
        forall|i: int, j: int| 0 <= i < j < ids1.len() ==> ids1[i] < ids1[j],
        forall|i: int, j: int| 0 <= i < ids1.len() && 0 <= j < ids2.len() ==> ids1[i] < ids2[j],
        forall|i: int| 0 <= i < ids1.len() ==> before1.signals@.len() <= #[trigger] ids1[i] < after1.signals@.len(),
{
    assert(after1.signals.len() == after1.signals@.len());
    assert(after2.signals.len() == after2.signals@.len());
    assert forall|i: int| 0 <= i < ids1.len() implies before1.signals@.len() <= #[trigger] ids1[i] < after1.signals@.len() by {
        assert(ids1[i] == fresh_ids(before1.signals@.len(), ids1.len())[i]);
    }
    assert forall|i: int, j: int| 0 <= i < ids1.len() && 0 <= j < ids2.len() implies ids1[i] < ids2[j] by {
        assert(ids1[i] == fresh_ids(before1.signals@.len(), ids1.len())[i]);
        assert(ids2[j] == fresh_ids(before2.signals@.len(), ids2.len())[j]);
    }
    assert forall|i: int, j: int| 0 <= i < j < ids1.len() implies ids1[i] < ids1[j] by {
        assert(ids1[i] == fresh_ids(before1.signals@.len(), ids1.len())[i]);
        assert(ids1[j] == fresh_ids(before1.signals@.len(), ids1.len())[j]);
    }
}

/// The ids `start, start + 1, ..., start + n - 1`.
pub open spec fn fresh_ids(start: nat, n: nat) -> Seq<usize> {
    Seq::new(n, |i: int| (start + i) as usize)
}

/// Whether the primary inputs can be set to the bits `vals`.
pub open spec fn input_outcome(c: Circuit, vals: Seq<usize>) -> Result<(), BuildError> {
    if vals.len() > c.input {
        Err(BuildError::ArityMismatch)
    } else if c.input > c.signals@.len() {
        Err(BuildError::SignalIndexOutOfRange)
    } else {
        Ok(())
    }
}

/// What `add_gate_t` returns: the id of the signal it appends, unless the
/// gate kind, its arity or an input id is refused.
pub open spec fn add_gate_outcome(c: Circuit, t: NodeType, input: Seq<usize>) -> Result<usize, BuildError> {
    if !is_gate(t) {
        Err(BuildError::UnknownGateName)
    } else if !arity_ok(t, input.len() as int) {
        Err(BuildError::ArityMismatch)
    } else if !ids_in_range(input, c.signals@.len()) {
        Err(BuildError::SignalIndexOutOfRange)
    } else {
        Ok(c.signals@.len() as usize)
    }
}

/// `after` is `before` with one gate node of kind `t` reading `input`
/// appended, and one fresh signal that it produces.
pub open spec fn added_gate(before: Circuit, after: Circuit, t: NodeType, input: Seq<usize>) -> bool {
    let id = before.signals@.len() as usize;
    let node = after.pipeline@.last();
    &&& after.signals@ == before.signals@.push(Signal { parent: Some(before.pipeline@.len() as usize), value: None })
    &&& after.pipeline@.len() == before.pipeline@.len() + 1
    &&& after.pipeline@.drop_last() == before.pipeline@
    &&& node.node_type == t
    &&& node.inputs@ == input
    &&& node.outputs@ == seq![id]
    &&& after.input == before.input
    &&& after.pattern_range == before.pattern_range
    &&& after.patterns == before.patterns
}

} // verus!
