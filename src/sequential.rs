use vstd::prelude::*;
use crate::circuit::{Circuit, has_name, registered};
use crate::error::BuildError;
use crate::node::NodeType;
use crate::pattern::{
    Pattern, PatternNode, PniType, pattern_call, seed, run_internal, write_back, unknown_buffer, pnode_result,
    pni_signal, call_in_range,
};
use crate::node::{ids_in_range, gather, bit_signal, all_known, all_high, with_value};
use crate::signal::{Signal, known, high};

verus! {

/// `pn` is gate `t` reading `ins`.
pub open spec fn gate_is(pn: PatternNode, t: NodeType, ins: Seq<PniType>) -> bool {
    pn.gate_type == t && pn.inputs@ == ins
}

/// `p` names its input ports `ins` and its outputs `outs`, in order, and
/// is described by `desc`.
pub open spec fn has_ports(p: Pattern, ins: Seq<Seq<char>>, outs: Seq<Seq<char>>, desc: Seq<char>) -> bool {
    &&& p.input_names@.len() == ins.len()
    &&& forall|i: int| 0 <= i < ins.len() ==> (#[trigger] p.input_names@[i])@ == ins[i]
    &&& p.output_names@.len() == outs.len()
    &&& forall|i: int| 0 <= i < outs.len() ==> (#[trigger] p.output_names@[i])@ == outs[i]
    &&& p.description@ == desc
}

/// Output slot 0 of internal node `n`.
pub open spec fn out(n: usize) -> PniType {
    PniType::NodeOutput((n, 0))
}

/// An internal node of gate `t` reading `ins`.
pub fn gate_node(t: NodeType, ins: &[PniType]) -> (r: PatternNode)
    ensures
        gate_is(r, t, ins@),
{
    PatternNode::new(t, vstd::slice::slice_to_vec(ins))
}

/// The cross-coupled NAND latch: inputs `rd`, `sd` (active low); outputs
/// `nq`, `q` with `nq = nand(rd, q)` then `q = nand(sd, nq)`.
pub open spec fn is_basic_rsff(p: Pattern) -> bool {
    &&& p.input_size == 2
    &&& p.output@ == seq![(0usize, 0usize), (1usize, 0usize)]
    &&& p.pattern@.len() == 2
    &&& gate_is(p.pattern@[0], NodeType::NAnd, seq![PniType::Input(0), out(1)])
    &&& gate_is(p.pattern@[1], NodeType::NAnd, seq![PniType::Input(1), out(0)])
}

/// The clocked RS flip-flop: inputs `r`, `cp`, `s`; outputs `nq`, `q`.
pub open spec fn is_rsff(p: Pattern) -> bool {
    &&& p.input_size == 3
    &&& p.output@ == seq![(2usize, 0usize), (3usize, 0usize)]
    &&& p.pattern@.len() == 4
    &&& gate_is(p.pattern@[0], NodeType::NAnd, seq![PniType::Input(0), PniType::Input(1)])
    &&& gate_is(p.pattern@[1], NodeType::NAnd, seq![PniType::Input(1), PniType::Input(2)])
    &&& gate_is(p.pattern@[2], NodeType::NAnd, seq![out(1), out(3)])
    &&& gate_is(p.pattern@[3], NodeType::NAnd, seq![out(2), out(0)])
}

/// The D flip-flop: inputs `cp`, `d`; outputs `nq`, `q`.
pub open spec fn is_dff(p: Pattern) -> bool {
    &&& p.input_size == 2
    &&& p.output@ == seq![(2usize, 0usize), (3usize, 0usize)]
    &&& p.pattern@.len() == 4
    &&& gate_is(p.pattern@[0], NodeType::NAnd, seq![PniType::Input(0), PniType::Input(1)])
    &&& gate_is(p.pattern@[1], NodeType::NAnd, seq![PniType::Input(0), out(0)])
    &&& gate_is(p.pattern@[2], NodeType::NAnd, seq![out(0), out(3)])
    &&& gate_is(p.pattern@[3], NodeType::NAnd, seq![out(1), out(2)])
}

/// The T flip-flop: inputs `cp`, `t`; outputs `nq`, `q`.
pub open spec fn is_tff(p: Pattern) -> bool {
    &&& p.input_size == 2
    &&& p.output@ == seq![(2usize, 0usize), (3usize, 0usize)]
    &&& p.pattern@.len() == 4
    &&& gate_is(p.pattern@[0], NodeType::NAnd, seq![PniType::Input(1), PniType::Input(0), out(3)])
    &&& gate_is(p.pattern@[1], NodeType::NAnd, seq![out(2), PniType::Input(0), PniType::Input(1)])
    &&& gate_is(p.pattern@[2], NodeType::NAnd, seq![out(0), out(3)])
    &&& gate_is(p.pattern@[3], NodeType::NAnd, seq![out(1), out(2)])
}

/// The JK flip-flop: inputs `k`, `cp`, `j`; outputs `nq`, `q`.
pub open spec fn is_jkff(p: Pattern) -> bool {
    &&& p.input_size == 3
    &&& p.output@ == seq![(2usize, 0usize), (3usize, 0usize)]
    &&& p.pattern@.len() == 4
    &&& gate_is(p.pattern@[0], NodeType::NAnd, seq![PniType::Input(0), PniType::Input(1), out(3)])
    &&& gate_is(p.pattern@[1], NodeType::NAnd, seq![out(2), PniType::Input(1), PniType::Input(2)])
    &&& gate_is(p.pattern@[2], NodeType::NAnd, seq![out(0), out(3)])
    &&& gate_is(p.pattern@[3], NodeType::NAnd, seq![out(1), out(2)])
}

/// One pass of the cross-coupled NAND latch at a call site: with the
/// inputs `rd`, `sd` and the previous `q` known, the new outputs are
/// `nq' = nand(rd, q)` and then `q' = nand(sd, nq')`, and no other signal
/// changes. So `(rd, sd) = (1, 0)` sets `q`, `(0, 1)` resets it (and sets
/// `nq`), and `(1, 1)` keeps `q` and makes `nq` its negation.
pub proof fn lemma_basic_latch_step(p: Pattern, site_in: Seq<usize>, site_out: Seq<usize>, sig: Seq<Signal>)
    requires
        is_basic_rsff(p),
        site_in.len() == 2,
        site_out.len() == 2,
        ids_in_range(site_in, sig.len()),
        ids_in_range(site_out, sig.len()),
        site_out[0] != site_out[1],
        known(sig[site_in[0] as int]),
        known(sig[site_in[1] as int]),
        known(sig[site_out[1] as int]),
    ensures
        ({
            let rd = high(sig[site_in[0] as int]);
            let sd = high(sig[site_in[1] as int]);
            let q = high(sig[site_out[1] as int]);
            let nq2 = !(rd && q);
            let q2 = !(sd && nq2);
            pattern_call(p, site_in, site_out, sig) matches Ok(s) && {
                &&& s.len() == sig.len()
                &&& s[site_out[0] as int].value == Some(nq2)
                &&& s[site_out[1] as int].value == Some(q2)
                &&& forall|k: int| 0 <= k < sig.len() && k != site_out[0] && k != site_out[1] ==> s[k] == sig[k]
                &&& (rd && !sd ==> q2)
                &&& (!rd && sd ==> !q2 && nq2)
                &&& (rd && sd ==> q2 == q && nq2 == !q)
            }
        }),
{
    let rd_s = sig[site_in[0] as int];
    let sd_s = sig[site_in[1] as int];
    let q_s = sig[site_out[1] as int];
    let rd = high(rd_s);
    let sd = high(sd_s);
    let q = high(q_s);
    let nq2 = !(rd && q);
    assert(call_in_range(p, site_in, site_out, sig.len()));
    let ins = gather(site_in, sig);
    assert(ins[0] == rd_s && ins[1] == sd_s);
    let outs = p.output@;
    let buf0 = seed(outs, site_out, sig, unknown_buffer(2), 2);
    assert(outs[0].0 == 0 && outs[1].0 == 1);
    assert(seed(outs, site_out, sig, unknown_buffer(2), 0) == unknown_buffer(2));
    assert(seed(outs, site_out, sig, unknown_buffer(2), 1) == unknown_buffer(2).update(0, sig[site_out[0] as int]));
    assert(buf0 == unknown_buffer(2).update(0, sig[site_out[0] as int]).update(1, q_s));
    assert(buf0.len() == 2 && buf0[1] == q_s);
    let n0 = p.pattern@[0];
    let r0 = n0.inputs@.map_values(|x: PniType| pni_signal(x, ins, buf0));
    assert(r0 =~= seq![rd_s, q_s]);
    assert(all_known(r0)) by {
        assert(known(r0[0]) && known(r0[1]));
    }
    assert(all_high(r0) == (rd && q)) by {
        if rd && q {
            assert(high(r0[0]) && high(r0[1]));
        } else if !rd {
            assert(!high(r0[0]));
        } else {
            assert(!high(r0[1]));
        }
    }
    assert(pnode_result(n0, ins, buf0) == Ok::<Signal, BuildError>(bit_signal(nq2)));
    let buf1 = buf0.update(0, bit_signal(nq2));
    assert(run_internal(p.pattern@, ins, buf0, 0) == Ok::<Seq<Signal>, BuildError>(buf0));
    assert(run_internal(p.pattern@, ins, buf0, 1) == Ok::<Seq<Signal>, BuildError>(buf1));
    let n1 = p.pattern@[1];
    let r1 = n1.inputs@.map_values(|x: PniType| pni_signal(x, ins, buf1));
    assert(r1 =~= seq![sd_s, bit_signal(nq2)]);
    assert(all_known(r1)) by {
        assert(known(r1[0]) && known(r1[1]));
    }
    assert(all_high(r1) == (sd && nq2)) by {
        if sd && nq2 {
            assert(high(r1[0]) && high(r1[1]));
        } else if !sd {
            assert(!high(r1[0]));
        } else {
            assert(!high(r1[1]));
        }
    }
    let q2 = !(sd && nq2);
    assert(pnode_result(n1, ins, buf1) == Ok::<Signal, BuildError>(bit_signal(q2)));
    let buf2 = buf1.update(1, bit_signal(q2));
    assert(run_internal(p.pattern@, ins, buf0, 2) == Ok::<Seq<Signal>, BuildError>(buf2));
    assert(write_back(outs, site_out, buf2, sig, 0) == sig);
    assert(buf2[0].value == Some(nq2) && buf2[1].value == Some(q2));
    let w1 = write_back(outs, site_out, buf2, sig, 1);
    assert(w1 == sig.update(site_out[0] as int, with_value(sig[site_out[0] as int], Some(nq2))));
    let w2 = write_back(outs, site_out, buf2, sig, 2);
    assert(w2 == w1.update(site_out[1] as int, with_value(w1[site_out[1] as int], Some(q2))));
    assert(pattern_call(p, site_in, site_out, sig) == Ok::<Seq<Signal>, BuildError>(w2));
}

/// The output list exposing slot 0 of internal nodes `a` and `b`.
fn outputs_of(a: usize, b: usize) -> (r: Vec<(usize, usize)>)
    ensures
        r@ == seq![(a, 0usize), (b, 0usize)],
{
    let mut r: Vec<(usize, usize)> = Vec::new();
    r.push((a, 0));
    r.push((b, 0));
    assert(r@ =~= seq![(a, 0usize), (b, 0usize)]);
    r
}

impl Pattern {
    /// Registers the JK flip-flop as "jkff".
    pub fn build_jkff(circuit: &mut Circuit) -> (r: Result<(), BuildError>)
        ensures
            has_name(old(circuit).patterns@, "jkff"@) ==> r == Err::<(), BuildError>(BuildError::DuplicatePatternName)
                && *final(circuit) == *old(circuit),
            !has_name(old(circuit).patterns@, "jkff"@) ==> r is Ok
                && registered(*old(circuit), *final(circuit), "jkff"@, final(circuit).patterns@.last().1)
                && is_jkff(final(circuit).patterns@.last().1)
                && has_ports(final(circuit).patterns@.last().1, seq!["k"@, "cp"@, "j"@], seq!["nq"@, "q"@], "Qn+1 = (J and not(Qn)) or (not(K) and Qn)"@),
            old(circuit).wf() ==> final(circuit).wf(),
    {
        let (k, cp, j) = (PniType::Input(0), PniType::Input(1), PniType::Input(2));
        let (nq, q): (usize, usize) = (2, 3);
        let mut pattern: Vec<PatternNode> = Vec::new();
        pattern.push(gate_node(NodeType::NAnd, [k, cp, PniType::NodeOutput((q, 0))].as_slice()));
        pattern.push(gate_node(NodeType::NAnd, [PniType::NodeOutput((nq, 0)), cp, j].as_slice()));
        pattern.push(gate_node(NodeType::NAnd, [PniType::NodeOutput((0, 0)), PniType::NodeOutput((q, 0))].as_slice()));
        pattern.push(gate_node(NodeType::NAnd, [PniType::NodeOutput((1, 0)), PniType::NodeOutput((nq, 0))].as_slice()));
        let mut pattern = Pattern::new(3, outputs_of(nq, q), pattern);
        pattern.set_name(["k", "cp", "j"].as_slice(), ["nq", "q"].as_slice());
        pattern.set_description("Qn+1 = (J and not(Qn)) or (not(K) and Qn)");
        circuit.register_pattern("jkff", pattern)
    }

    /// Registers the T flip-flop as "tff".
    pub fn build_tff(circuit: &mut Circuit) -> (r: Result<(), BuildError>)
        ensures
            has_name(old(circuit).patterns@, "tff"@) ==> r == Err::<(), BuildError>(BuildError::DuplicatePatternName)
                && *final(circuit) == *old(circuit),
            !has_name(old(circuit).patterns@, "tff"@) ==> r is Ok
                && registered(*old(circuit), *final(circuit), "tff"@, final(circuit).patterns@.last().1)
                && is_tff(final(circuit).patterns@.last().1)
                && has_ports(final(circuit).patterns@.last().1, seq!["cp"@, "t"@], seq!["nq"@, "q"@], "Qn+1 = Qn xor T"@),
            old(circuit).wf() ==> final(circuit).wf(),
    {
        let (cp, t) = (PniType::Input(0), PniType::Input(1));
        let (nq, q): (usize, usize) = (2, 3);
        let mut pattern: Vec<PatternNode> = Vec::new();
        pattern.push(gate_node(NodeType::NAnd, [t, cp, PniType::NodeOutput((q, 0))].as_slice()));
        pattern.push(gate_node(NodeType::NAnd, [PniType::NodeOutput((nq, 0)), cp, t].as_slice()));
        pattern.push(gate_node(NodeType::NAnd, [PniType::NodeOutput((0, 0)), PniType::NodeOutput((q, 0))].as_slice()));
        pattern.push(gate_node(NodeType::NAnd, [PniType::NodeOutput((1, 0)), PniType::NodeOutput((nq, 0))].as_slice()));
        let mut pattern = Pattern::new(2, outputs_of(nq, q), pattern);
        pattern.set_name(["cp", "t"].as_slice(), ["nq", "q"].as_slice());
        pattern.set_description("Qn+1 = Qn xor T");
        circuit.register_pattern("tff", pattern)
    }

    /// Registers the D flip-flop as "dff".
    pub fn build_dff(circuit: &mut Circuit) -> (r: Result<(), BuildError>)
        ensures
            has_name(old(circuit).patterns@, "dff"@) ==> r == Err::<(), BuildError>(BuildError::DuplicatePatternName)
                && *final(circuit) == *old(circuit),
            !has_name(old(circuit).patterns@, "dff"@) ==> r is Ok
                && registered(*old(circuit), *final(circuit), "dff"@, final(circuit).patterns@.last().1)
                && is_dff(final(circuit).patterns@.last().1)
                && has_ports(final(circuit).patterns@.last().1, seq!["cp"@, "d"@], seq!["nq"@, "q"@], "Qn+1 = D"@),
            old(circuit).wf() ==> final(circuit).wf(),
    {
        let (cp, d) = (PniType::Input(0), PniType::Input(1));
        let (nq, q): (usize, usize) = (2, 3);
        let mut pattern: Vec<PatternNode> = Vec::new();
        pattern.push(gate_node(NodeType::NAnd, [cp, d].as_slice()));
        pattern.push(gate_node(NodeType::NAnd, [cp, PniType::NodeOutput((0, 0))].as_slice()));
        pattern.push(gate_node(NodeType::NAnd, [PniType::NodeOutput((0, 0)), PniType::NodeOutput((q, 0))].as_slice()));
        pattern.push(gate_node(NodeType::NAnd, [PniType::NodeOutput((1, 0)), PniType::NodeOutput((nq, 0))].as_slice()));
        let mut pattern = Pattern::new(2, outputs_of(nq, q), pattern);
        pattern.set_name(["cp", "d"].as_slice(), ["nq", "q"].as_slice());
        pattern.set_description("Qn+1 = D");
        circuit.register_pattern("dff", pattern)
    }

    /// Registers the clocked RS flip-flop as "rsff".
    pub fn build_rsff(circuit: &mut Circuit) -> (r: Result<(), BuildError>)
        ensures
            has_name(old(circuit).patterns@, "rsff"@) ==> r == Err::<(), BuildError>(BuildError::DuplicatePatternName)
                && *final(circuit) == *old(circuit),
            !has_name(old(circuit).patterns@, "rsff"@) ==> r is Ok
                && registered(*old(circuit), *final(circuit), "rsff"@, final(circuit).patterns@.last().1)
                && is_rsff(final(circuit).patterns@.last().1)
                && has_ports(final(circuit).patterns@.last().1, seq!["r"@, "cp"@, "s"@], seq!["nq"@, "q"@], "Qn+1 = S or (not(R) and Qn)"@),
            old(circuit).wf() ==> final(circuit).wf(),
    {
        let (r, cp, s) = (PniType::Input(0), PniType::Input(1), PniType::Input(2));
        let (nq, q): (usize, usize) = (2, 3);
        let mut pattern: Vec<PatternNode> = Vec::new();
        pattern.push(gate_node(NodeType::NAnd, [r, cp].as_slice()));
        pattern.push(gate_node(NodeType::NAnd, [cp, s].as_slice()));
        pattern.push(gate_node(NodeType::NAnd, [PniType::NodeOutput((1, 0)), PniType::NodeOutput((q, 0))].as_slice()));
        pattern.push(gate_node(NodeType::NAnd, [PniType::NodeOutput((nq, 0)), PniType::NodeOutput((0, 0))].as_slice()));
        let mut pattern = Pattern::new(3, outputs_of(nq, q), pattern);
        pattern.set_name(["r", "cp", "s"].as_slice(), ["nq", "q"].as_slice());
        pattern.set_description("Qn+1 = S or (not(R) and Qn)");
        circuit.register_pattern("rsff", pattern)
    }

    /// Registers the cross-coupled NAND latch as "brsff".
    pub fn build_basic_rsff(circuit: &mut Circuit) -> (r: Result<(), BuildError>)
        ensures
            has_name(old(circuit).patterns@, "brsff"@) ==> r == Err::<(), BuildError>(BuildError::DuplicatePatternName)
                && *final(circuit) == *old(circuit),
            !has_name(old(circuit).patterns@, "brsff"@) ==> r is Ok
                && registered(*old(circuit), *final(circuit), "brsff"@, final(circuit).patterns@.last().1)
                && is_basic_rsff(final(circuit).patterns@.last().1)
                && has_ports(final(circuit).patterns@.last().1, seq!["rd"@, "sd"@], seq!["nq"@, "q"@], Seq::empty()),
            old(circuit).wf() ==> final(circuit).wf(),
    {
        let mut pattern: Vec<PatternNode> = Vec::new();
        pattern.push(gate_node(NodeType::NAnd, [PniType::Input(0), PniType::NodeOutput((1, 0))].as_slice()));
        pattern.push(gate_node(NodeType::NAnd, [PniType::Input(1), PniType::NodeOutput((0, 0))].as_slice()));
        let mut pattern = Pattern::new(2, outputs_of(0, 1), pattern);
        pattern.set_name(["rd", "sd"].as_slice(), ["nq", "q"].as_slice());
        assert(pattern.description@ =~= Seq::<char>::empty());
        circuit.register_pattern("brsff", pattern)
    }
}

} // verus!
