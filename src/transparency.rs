use vstd::prelude::*;
use crate::circuit::{Circuit, captured_pattern, run_nodes, run_circuit, with_inputs, captured, applied, capture_outcome,
    fresh_ids, has_name, lookup, lemma_register_keeps_names_distinct, lemma_lookup_distinct, trace, first_index_of, is_first_index, capture_ref, node_captured, lemma_run_nodes_err};
use crate::error::BuildError;
use crate::node::{Node, NodeType, gate_result, gather, ids_in_range, node_step, is_gate, all_known, all_high, any_high, with_value};
use crate::pattern::{Pattern, PniType, pattern_call, seed, run_internal, write_back, unknown_buffer, pnode_result, pni_signal, pni_fits, call_in_range};
use crate::signal::{Signal, known, high};

verus! {

/// The nodes appended since the capture marker.
pub open spec fn captured_nodes(c: Circuit) -> Seq<Node> {
    c.pipeline@.subrange(c.pattern_range.0 as int, c.pipeline@.len() as int)
}

/// The signal written by captured node `k`.
pub open spec fn out_id(c: Circuit, k: int) -> usize {
    captured_nodes(c)[k].outputs@[0]
}

/// The captured nodes form a feed-forward network with consistent
/// provenance: each writes one signal of its own that records it as its
/// producer (and no other signal does), no declared input is written by
/// one of them, and each reads, besides declared inputs, only signals
/// written by captured nodes before it.
pub open spec fn feed_forward(c: Circuit, ins: Seq<usize>) -> bool {
    let m = c.pattern_range.0 as int;
    let n = c.pipeline@.len() - m;
    let nodes = captured_nodes(c);
    &&& m <= c.pipeline@.len()
    &&& forall|k: int|
        0 <= k < n ==> (#[trigger] nodes[k]).outputs@.len() == 1 && nodes[k].outputs@[0] < c.signals@.len()
            && c.signals@[nodes[k].outputs@[0] as int].parent == Some((m + k) as usize)
    &&& forall|id: int, k: int|
        0 <= id < c.signals@.len() && 0 <= k < n && #[trigger] c.signals@[id].parent == Some((m + k) as usize) ==> id
            == #[trigger] out_id(c, k)
    &&& forall|i: int, k: int| 0 <= i < ins.len() && 0 <= k < n ==> #[trigger] ins[i] != #[trigger] out_id(c, k)
    &&& forall|k: int, i: int|
        0 <= k < n && 0 <= i < nodes[k].inputs@.len() && first_index_of(ins, #[trigger] nodes[k].inputs@[i]) < 0
            ==> (trace(c, nodes[k].inputs@[i]) matches Some(t) && t.0 < k)
}

/// Gate evaluation looks only at the values of its inputs.
pub proof fn lemma_gate_result_values(t: NodeType, s1: Seq<Signal>, s2: Seq<Signal>)
    requires
        s1.len() == s2.len(),
        forall|i: int| 0 <= i < s1.len() ==> (#[trigger] s1[i]).value == s2[i].value,
    ensures
        gate_result(t, s1) == gate_result(t, s2),
{
    assert(all_known(s1) == all_known(s2)) by {
        if all_known(s1) {
            assert forall|i: int| 0 <= i < s2.len() implies known(#[trigger] s2[i]) by {
                assert(known(s1[i]));
            }
        }
        if all_known(s2) {
            assert forall|i: int| 0 <= i < s1.len() implies known(#[trigger] s1[i]) by {
                assert(known(s2[i]));
            }
        }
    }
    assert(all_high(s1) == all_high(s2)) by {
        if all_high(s1) {
            assert forall|i: int| 0 <= i < s2.len() implies high(#[trigger] s2[i]) by {
                assert(high(s1[i]));
            }
        }
        if all_high(s2) {
            assert forall|i: int| 0 <= i < s1.len() implies high(#[trigger] s1[i]) by {
                assert(high(s2[i]));
            }
        }
    }
    assert(any_high(s1) == any_high(s2)) by {
        if any_high(s1) {
            let i = choose|i: int| 0 <= i < s1.len() && high(#[trigger] s1[i]);
            assert(high(s2[i]));
        }
        if any_high(s2) {
            let i = choose|i: int| 0 <= i < s2.len() && high(#[trigger] s2[i]);
            assert(high(s1[i]));
        }
    }
    if s1.len() >= 2 {
        assert(high(s1[0]) == high(s2[0]));
        assert(high(s1[1]) == high(s2[1]));
    } else if s1.len() == 1 {
        assert(high(s1[0]) == high(s2[0]));
    }
}

/// Seeding keeps the buffer's length.
pub proof fn lemma_seed_len(outs: Seq<(usize, usize)>, site: Seq<usize>, sig: Seq<Signal>, buf: Seq<Signal>, k: nat)
    requires
        k <= outs.len(),
        forall|j: int| 0 <= j < outs.len() ==> (#[trigger] outs[j]).0 < buf.len(),
    ensures
        seed(outs, site, sig, buf, k).len() == buf.len(),
    decreases k,
{
    if k > 0 {
        lemma_seed_len(outs, site, sig, buf, (k - 1) as nat);
    }
}

/// Copying back to distinct call-site outputs leaves each one holding its
/// exposed slot's value, and keeps the table's length.
pub proof fn lemma_write_back_values(outs: Seq<(usize, usize)>, site: Seq<usize>, buf: Seq<Signal>, sig: Seq<Signal>, k: nat)
    requires
        k <= outs.len(),
        site.len() == outs.len(),
        ids_in_range(site, sig.len()),
        forall|j: int| 0 <= j < outs.len() ==> (#[trigger] outs[j]).0 < buf.len(),
        forall|i: int, j: int| 0 <= i < j < site.len() ==> site[i] != site[j],
    ensures
        write_back(outs, site, buf, sig, k).len() == sig.len(),
        forall|j: int|
            0 <= j < k ==> write_back(outs, site, buf, sig, k)[#[trigger] site[j] as int].value == buf[outs[j].0 as int].value,
    decreases k,
{
    if k > 0 {
        lemma_write_back_values(outs, site, buf, sig, (k - 1) as nat);
        let w = write_back(outs, site, buf, sig, (k - 1) as nat);
        assert(site[k - 1] < sig.len());
        assert forall|j: int| 0 <= j < k implies write_back(outs, site, buf, sig, k)[#[trigger] site[j] as int].value
            == buf[outs[j].0 as int].value by {
            if j < k - 1 {
                assert(site[j] != site[k - 1]);
            }
        }
    }
}

/// A successful pass over the first `k` captured nodes, and the matching
/// prefix of the pattern's internal evaluation, agree on every value the
/// nodes wrote, and the declared inputs keep their values.
proof fn lemma_prefix_agrees(
    c: Circuit,
    ps: Seq<(String, Pattern)>,
    ins: Seq<usize>,
    outs: Seq<usize>,
    p: Pattern,
    t: Seq<Signal>,
    tp: Seq<Signal>,
    buf0: Seq<Signal>,
    k: nat,
)
    requires
        captured_pattern(c, ins, outs, p),
        feed_forward(c, ins),
        t.len() == c.signals@.len(),
        ids_in_range(ins, t.len()),
        ids_in_range(ins, tp.len()),
        forall|i: int| 0 <= i < ins.len() ==> (#[trigger] tp[ins[i] as int]).value == t[ins[i] as int].value,
        buf0.len() == p.pattern@.len(),
        k <= p.pattern@.len(),
        run_nodes(ps, captured_nodes(c), t) is Ok,
    ensures
        run_nodes(ps, captured_nodes(c).take(k as int), t) matches Ok(tk) && run_internal(
            p.pattern@,
            gather(ins, tp),
            buf0,
            k,
        ) matches Ok(bk) && {
            &&& tk.len() == t.len()
            &&& bk.len() == p.pattern@.len()
            &&& forall|j: int| 0 <= j < k ==> (#[trigger] bk[j]).value == tk[out_id(c, j) as int].value
            &&& forall|i: int| 0 <= i < ins.len() ==> tk[#[trigger] ins[i] as int] == t[ins[i] as int]
        },
    decreases k,
{
    let nodes = captured_nodes(c);
    let m = c.pattern_range.0 as int;
    let n = p.pattern@.len();
    assert(nodes.len() == n);
    if run_nodes(ps, nodes.take(k as int), t) is Err {
        lemma_run_nodes_err(ps, nodes, t, k, n);
        assert(nodes.take(n as int) =~= nodes);
    }
    if k == 0 {
        assert(nodes.take(0) =~= Seq::<Node>::empty());
    } else {
        let k1 = (k - 1) as nat;
        lemma_prefix_agrees(c, ps, ins, outs, p, t, tp, buf0, k1);
        let tk = run_nodes(ps, nodes.take(k1 as int), t)->Ok_0;
        let bk = run_internal(p.pattern@, gather(ins, tp), buf0, k1)->Ok_0;
        let node = nodes[k1 as int];
        assert(nodes.take(k as int).drop_last() =~= nodes.take(k1 as int));
        assert(nodes.take(k as int).last() == node);
        assert(node == c.pipeline@[m + k1]);
        let pn = p.pattern@[k1 as int];
        assert(node_captured(c, ins, c.pipeline@[m + k1], pn));
        assert(is_gate(node.node_type));
        assert(node.outputs@.len() == 1);
        let o = node.outputs@[0];
        assert(o == out_id(c, k1 as int));
        let insv = gather(ins, tp);
        let resolved = pn.inputs@.map_values(|x: PniType| pni_signal(x, insv, bk));
        let direct = gather(node.inputs@, tk);
        assert(ids_in_range(node.inputs@, tk.len())) by {
            assert forall|i: int| 0 <= i < node.inputs@.len() implies #[trigger] node.inputs@[i] < tk.len() by {
                let id = node.inputs@[i];
                let f = first_index_of(ins, id);
                if f >= 0 {
                    let w = choose|w: int| is_first_index(ins, id, w);
                    assert(is_first_index(ins, id, w));
                    assert(ins[w] < t.len());
                } else {
                    assert(trace(c, id) is Some);
                }
            }
        }
        assert forall|i: int| 0 <= i < pn.inputs@.len() implies pni_fits(#[trigger] pn.inputs@[i], insv.len() as int, bk.len() as int)
            && pni_signal(pn.inputs@[i], insv, bk).value == tk[node.inputs@[i] as int].value by {
            let id = node.inputs@[i];
            assert(capture_ref(c, ins, id) == Some(pn.inputs@[i]));
            let f = first_index_of(ins, id);
            if f >= 0 {
                let w = choose|w: int| is_first_index(ins, id, w);
                assert(is_first_index(ins, id, w));
                assert(w == f);
                assert(pn.inputs@[i] == PniType::Input(w as usize));
                assert(ins[w] == id);
                assert(tk[ins[w] as int] == t[ins[w] as int]);
                assert(tp[ins[w] as int].value == t[ins[w] as int].value);
            } else {
                assert(first_index_of(ins, nodes[k1 as int].inputs@[i]) < 0);
                let tr = trace(c, id)->Some_0;
                assert(tr.0 < k1);
                assert(pn.inputs@[i] == PniType::NodeOutput(tr));
                let j = tr.0 as int;
                assert(c.signals@[id as int].parent == Some((m + j) as usize));
                assert(id == out_id(c, j));
                assert(bk[j].value == tk[out_id(c, j) as int].value);
            }
        }
        assert(resolved.len() == direct.len());
        assert forall|i: int| 0 <= i < resolved.len() implies (#[trigger] resolved[i]).value == direct[i].value by {
            assert(pni_signal(pn.inputs@[i], insv, bk).value == tk[node.inputs@[i] as int].value);
        }
        lemma_gate_result_values(node.node_type, resolved, direct);
        assert(pn.gate_type == node.node_type);
        assert(o < tk.len());
        let step = node_step(ps, node, tk);
        assert(run_nodes(ps, nodes.take(k as int), t) == step);
        assert(step is Ok);
        let s = gate_result(node.node_type, direct)->Ok_0;
        assert(pnode_result(pn, insv, bk) == Ok::<Signal, BuildError>(s));
        let tk2 = tk.update(o as int, with_value(tk[o as int], s.value));
        let bk2 = bk.update(k1 as int, s);
        assert(step == Ok::<Seq<Signal>, BuildError>(tk2));
        assert(run_internal(p.pattern@, insv, buf0, k) == Ok::<Seq<Signal>, BuildError>(bk2));
        assert forall|j: int| 0 <= j < k implies (#[trigger] bk2[j]).value == tk2[out_id(c, j) as int].value by {
            if j < k1 {
                assert(nodes[j].outputs@.len() == 1);
                let oj = out_id(c, j);
                assert(c.pipeline.len() == c.pipeline@.len());
                assert(c.signals@[oj as int].parent == Some((m + j) as usize));
                assert(c.signals@[o as int].parent == Some((m + k1) as usize));
                assert((m + j) as usize != (m + k1) as usize);
                assert(oj != o);
            }
        }
        assert forall|i: int| 0 <= i < ins.len() implies tk2[#[trigger] ins[i] as int] == t[ins[i] as int] by {
            assert(ins[i] != out_id(c, k1 as int));
        }
    }
}

/// Pattern transparency: instantiating a pattern captured from a
/// feed-forward sub-network and evaluating it gives, at each of its
/// outputs, the value that re-running the captured gates themselves gives
/// to the corresponding captured output, on any signal table `t` on which
/// that run succeeds. The instance runs on a table `tp` whose declared
/// inputs hold the same values as in `t`, and its outputs may be any
/// distinct signals of `tp`.
pub proof fn lemma_pattern_transparency(
    c: Circuit,
    ps: Seq<(String, Pattern)>,
    ins: Seq<usize>,
    outs: Seq<usize>,
    p: Pattern,
    t: Seq<Signal>,
    tp: Seq<Signal>,
    site_out: Seq<usize>,
)
    requires
        captured_pattern(c, ins, outs, p),
        feed_forward(c, ins),
        t.len() == c.signals@.len(),
        ids_in_range(ins, t.len()),
        site_out.len() == outs.len(),
        ids_in_range(ins, tp.len()),
        forall|i: int| 0 <= i < ins.len() ==> (#[trigger] tp[ins[i] as int]).value == t[ins[i] as int].value,
        ids_in_range(site_out, tp.len()),
        forall|i: int, j: int| 0 <= i < j < site_out.len() ==> site_out[i] != site_out[j],
        run_nodes(ps, captured_nodes(c), t) is Ok,
    ensures
        pattern_call(p, ins, site_out, tp) matches Ok(s) && forall|j: int|
            0 <= j < outs.len() ==> (#[trigger] s[site_out[j] as int]).value == run_nodes(ps, captured_nodes(c), t)->Ok_0[outs[j] as int].value,
{
    let n = p.pattern@.len();
    let m = c.pattern_range.0 as int;
    assert forall|j: int| 0 <= j < p.output@.len() implies (#[trigger] p.output@[j]).0 < n && p.output@[j].1 == 0 by {
        assert(trace(c, outs[j]) == Some(p.output@[j]));
    }
    assert(call_in_range(p, ins, site_out, tp.len()));
    let buf0 = seed(p.output@, site_out, tp, unknown_buffer(n), p.output@.len());
    lemma_seed_len(p.output@, site_out, tp, unknown_buffer(n), p.output@.len());
    lemma_prefix_agrees(c, ps, ins, outs, p, t, tp, buf0, n);
    assert(captured_nodes(c).take(n as int) =~= captured_nodes(c));
    let tn = run_nodes(ps, captured_nodes(c), t)->Ok_0;
    let bn = run_internal(p.pattern@, gather(ins, tp), buf0, n)->Ok_0;
    lemma_write_back_values(p.output@, site_out, bn, tp, p.output@.len());
    let s = write_back(p.output@, site_out, bn, tp, p.output@.len());
    assert(pattern_call(p, ins, site_out, tp) == Ok::<Seq<Signal>, BuildError>(s));
    assert forall|j: int| 0 <= j < outs.len() implies (#[trigger] s[site_out[j] as int]).value == tn[outs[j] as int].value by {
        let l = p.output@[j].0 as int;
        assert(trace(c, outs[j]) == Some(p.output@[j]));
        assert(c.signals@[outs[j] as int].parent == Some((m + l) as usize));
        assert(outs[j] == out_id(c, l));
        assert(bn[l].value == tn[out_id(c, l) as int].value);
    }
}

/// Pattern transparency over whole passes: capture a feed-forward network
/// built on an empty pipeline over signals that existed before the capture,
/// let `build_end` roll back, and instantiate the pattern on the same inputs
/// with `apply_pattern`. Then a pass over the resulting circuit gives, at
/// the instance's outputs, the values that a pass over the ungrouped
/// circuit gives at the captured outputs, for every input vector on which
/// the ungrouped pass succeeds.
pub proof fn lemma_capture_apply_transparency(
    u: Circuit,
    c2: Circuit,
    c3: Circuit,
    name: Seq<char>,
    ins: Seq<usize>,
    outs: Seq<usize>,
    o: Seq<usize>,
    x: Seq<usize>,
)
    requires
        u.wf(),
        u.pattern_range.0 == 0,
        u.input <= u.pattern_range.1,
        forall|i: int| 0 <= i < ins.len() ==> #[trigger] ins[i] < u.pattern_range.1,
        feed_forward(u, ins),
        capture_outcome(u, name, ins, outs) is Ok,
        captured(u, c2, name, ins, outs, false),
        applied(c2, c3, name, ins, o),
        o == fresh_ids(c2.signals@.len(), outs.len()),
        c3.signals@.len() == c2.signals@.len() + outs.len(),
        c3.signals@.subrange(0, c2.signals@.len() as int) == c2.signals@,
        run_circuit(u, x) is Ok,
    ensures
        run_circuit(c3, x) matches Ok(s) && forall|k: int|
            0 <= k < outs.len() ==> (#[trigger] s[o[k] as int]).value == run_circuit(u, x)->Ok_0[outs[k] as int].value,
{
    let m1 = u.pattern_range.1 as int;
    let p = c2.patterns@.last().1;
    let ps = c2.patterns@;
    assert(!has_name(u.patterns@, name));
    lemma_register_keeps_names_distinct(u.patterns@, ps);
    lemma_lookup_distinct(ps, name, ps.len() - 1);
    assert(c3.patterns@ == ps);
    assert(lookup(c3.patterns@, name) == Some(p));
    let t = with_inputs(u.signals@, x);
    let t3 = with_inputs(c3.signals@, x);
    assert(u.pipeline@.take(0) =~= Seq::<Node>::empty());
    assert(c2.pipeline@.len() == 0);
    let node = c3.pipeline@.last();
    assert(c3.pipeline@.len() == 1);
    assert(c3.pipeline@.drop_last() =~= Seq::<Node>::empty());
    assert(captured_nodes(u) =~= u.pipeline@);
    assert(c3.signals.len() == c3.signals@.len());
    assert(c2.signals@ == u.signals@.take(m1));
    assert forall|i: int| 0 <= i < ins.len() implies (#[trigger] t3[ins[i] as int]).value == t[ins[i] as int].value by {
        let idx = ins[i] as int;
        assert(idx < m1);
        assert(c3.signals@[idx] == c2.signals@[idx]);
    }
    assert(ids_in_range(ins, t.len())) by {
        assert forall|i: int| 0 <= i < ins.len() implies #[trigger] ins[i] < t.len() by {
            assert(ins[i] < m1);
        }
    }
    assert(ids_in_range(ins, t3.len())) by {
        assert forall|i: int| 0 <= i < ins.len() implies #[trigger] ins[i] < t3.len() by {
            assert(ins[i] < m1);
        }
    }
    assert(ids_in_range(o, t3.len())) by {
        assert forall|k: int| 0 <= k < o.len() implies #[trigger] o[k] < t3.len() by {
            assert(o[k] == fresh_ids(c2.signals@.len(), outs.len())[k]);
        }
    }
    assert forall|i: int, j: int| 0 <= i < j < o.len() implies o[i] != o[j] by {
        assert(o[i] == fresh_ids(c2.signals@.len(), outs.len())[i]);
        assert(o[j] == fresh_ids(c2.signals@.len(), outs.len())[j]);
    }
    lemma_pattern_transparency(u, u.patterns@, ins, outs, p, t, t3, o);
    assert(x.len() <= u.input);
    assert(c3.input == u.input);
    assert(c3.input <= c3.signals@.len());
    assert(run_nodes(c3.patterns@, Seq::<Node>::empty(), t3) == Ok::<Seq<Signal>, BuildError>(t3));
    assert(run_nodes(c3.patterns@, c3.pipeline@, t3) == node_step(c3.patterns@, node, t3));
    assert(node.inputs@ == ins && node.outputs@ == o);
    assert(node_step(c3.patterns@, node, t3) == pattern_call(p, ins, o, t3));
    assert(run_circuit(c3, x) == pattern_call(p, ins, o, t3));
}

} // verus!
