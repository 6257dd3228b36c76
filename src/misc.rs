use vstd::prelude::*;
use crate::error::BuildError;
use crate::node::{NodeType, gather, ids_in_range, gather_signals};
use crate::signal::{Signal, signal_of_usize};

verus! {

/// The primitive gate that a lower-case gate name denotes.
pub open spec fn gate_of_name(name: Seq<char>) -> Option<NodeType> {
    if name == seq!['n', 'o', 't'] {
        Some(NodeType::Not)
    } else if name == seq!['a', 'n', 'd'] {
        Some(NodeType::And)
    } else if name == seq!['o', 'r'] {
        Some(NodeType::Or)
    } else if name == seq!['x', 'o', 'r'] {
        Some(NodeType::Xor)
    } else if name == seq!['n', 'a', 'n', 'd'] {
        Some(NodeType::NAnd)
    } else {
        None
    }
}

/// The primitive gate named `node_type` ("not", "and", "or", "xor", "nand").
pub fn gain_gate_type(node_type: &str) -> (r: Result<NodeType, BuildError>)
    ensures
        r == match gate_of_name(node_type@) {
            Some(t) => Ok(t),
            None => Err::<NodeType, BuildError>(BuildError::UnknownGateName),
        },
{
    let name = node_type.to_owned();
    let not_name = "not".to_owned();
    let and_name = "and".to_owned();
    let or_name = "or".to_owned();
    let xor_name = "xor".to_owned();
    let nand_name = "nand".to_owned();
    proof {
        reveal_strlit("not");
        reveal_strlit("and");
        reveal_strlit("or");
        reveal_strlit("xor");
        reveal_strlit("nand");
        assert("not"@ =~= seq!['n', 'o', 't']);
        assert("and"@ =~= seq!['a', 'n', 'd']);
        assert("or"@ =~= seq!['o', 'r']);
        assert("xor"@ =~= seq!['x', 'o', 'r']);
        assert("nand"@ =~= seq!['n', 'a', 'n', 'd']);
    }
    if name == not_name {
        Ok(NodeType::Not)
    } else if name == and_name {
        Ok(NodeType::And)
    } else if name == or_name {
        Ok(NodeType::Or)
    } else if name == xor_name {
        Ok(NodeType::Xor)
    } else if name == nand_name {
        Ok(NodeType::NAnd)
    } else {
        Err(BuildError::UnknownGateName)
    }
}

/// The bits `usize_vec` as signals: zero is false, anything else true.
pub fn usize_signal_vec(usize_vec: &[usize]) -> (r: Vec<Signal>)
    ensures
        r@ == usize_vec@.map_values(|u: usize| signal_of_usize(u)),
{
    let mut r: Vec<Signal> = Vec::new();
    let mut i: usize = 0;
    while i < usize_vec.len()
        invariant
            0 <= i <= usize_vec@.len(),
            r@ =~= usize_vec@.take(i as int).map_values(|u: usize| signal_of_usize(u)),
        decreases usize_vec@.len() - i,
    {
        r.push(Signal::from_usize(usize_vec[i]));
        assert(usize_vec@.take(i + 1) =~= usize_vec@.take(i as int).push(usize_vec@[i as int]));
        i = i + 1;
    }
    assert(usize_vec@.take(i as int) =~= usize_vec@);
    r
}

/// The signals of `signals` at the positions `indexes`, in that order.
pub fn choose_signals(signals: &[Signal], indexes: &[usize]) -> (r: Vec<Signal>)
    requires
        ids_in_range(indexes@, signals@.len()),
    ensures
        r@ == gather(indexes@, signals@),
{
    gather_signals(indexes, signals)
}

} // verus!
