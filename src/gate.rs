use vstd::prelude::*;
use crate::error::BuildError;
use crate::node::{Node, NodeType, gate_result, gather, ids_in_range, check_ids, gather_signals, with_value};
use crate::signal::Signal;

verus! {

/// Where a gate's result went: its id and the signal it wrote.
#[derive(Clone, Copy, Debug, PartialEq, Eq, Structural)]
pub struct GateOutput {
    pub gate_id: usize,
    pub output: usize,
}

/// A primitive gate kind with its input count.
#[derive(Clone, Copy, Debug, PartialEq, Eq, Structural)]
pub enum GateType {
    Not(usize),
    And(usize),
    Or(usize),
    Xor(usize),
    NAnd(usize),
}

/// A primitive gate with its inputs and output held inline: the signal ids
/// it reads and the signal id it writes.
#[derive(Clone, Copy, Debug)]
pub enum LogicGate {
    Not1([usize; 1], usize),
    And2([usize; 2], usize),
    Or2([usize; 2], usize),
    Xor2([usize; 2], usize),
    NAnd2([usize; 2], usize),
    NAnd3([usize; 3], usize),
}

/// The pipeline node kind of a gate kind.
pub open spec fn kind_of(t: GateType) -> NodeType {
    match t {
        GateType::Not(_) => NodeType::Not,
        GateType::And(_) => NodeType::And,
        GateType::Or(_) => NodeType::Or,
        GateType::Xor(_) => NodeType::Xor,
        GateType::NAnd(_) => NodeType::NAnd,
    }
}

/// How many inputs a `LogicGate` of kind `t` holds, if it can hold that kind.
pub open spec fn held_arity(t: GateType) -> Option<nat> {
    match t {
        GateType::Not(_) => Some(1),
        GateType::And(_) | GateType::Or(_) | GateType::Xor(_) => Some(2),
        GateType::NAnd(n) => if n == 2 || n == 3 {
            Some(n as nat)
        } else {
            None
        },
    }
}

/// The lower-case name of a gate kind.
pub open spec fn gate_name(t: GateType) -> Seq<char> {
    match t {
        GateType::Not(_) => seq!['n', 'o', 't'],
        GateType::And(_) => seq!['a', 'n', 'd'],
        GateType::Or(_) => seq!['o', 'r'],
        GateType::Xor(_) => seq!['x', 'o', 'r'],
        GateType::NAnd(_) => seq!['n', 'a', 'n', 'd'],
    }
}

impl GateType {
    /// The lower-case name of this gate kind, as commands write it.
    pub fn to_string(&self) -> (r: String)
        ensures
            r@ == gate_name(*self),
    {
        proof {
            reveal_strlit("not");
            reveal_strlit("and");
            reveal_strlit("or");
            reveal_strlit("xor");
            reveal_strlit("nand");
        }
        match self {
            GateType::Not(_) => {
                assert("not"@ =~= seq!['n', 'o', 't']);
                "not".to_owned()
            },
            GateType::And(_) => {
                assert("and"@ =~= seq!['a', 'n', 'd']);
                "and".to_owned()
            },
            GateType::Or(_) => {
                assert("or"@ =~= seq!['o', 'r']);
                "or".to_owned()
            },
            GateType::Xor(_) => {
                assert("xor"@ =~= seq!['x', 'o', 'r']);
                "xor".to_owned()
            },
            GateType::NAnd(_) => {
                assert("nand"@ =~= seq!['n', 'a', 'n', 'd']);
                "nand".to_owned()
            },
        }
    }

    /// Evaluates this gate kind on `input`.
    pub fn execute(&self, input: &[Signal]) -> (r: Result<Signal, BuildError>)
        ensures
            r == gate_result(kind_of(*self), input@),
    {
        let t = match self {
            GateType::Not(_) => NodeType::Not,
            GateType::And(_) => NodeType::And,
            GateType::Or(_) => NodeType::Or,
            GateType::Xor(_) => NodeType::Xor,
            GateType::NAnd(_) => NodeType::NAnd,
        };
        Node::execute_gate(&t, input)
    }
}

impl LogicGate {
    /// The kind of this gate, with its input count.
    pub open spec fn spec_type(&self) -> GateType {
        match self {
            LogicGate::Not1(_, _) => GateType::Not(1),
            LogicGate::And2(_, _) => GateType::And(2),
            LogicGate::Or2(_, _) => GateType::Or(2),
            LogicGate::Xor2(_, _) => GateType::Xor(2),
            LogicGate::NAnd2(_, _) => GateType::NAnd(2),
            LogicGate::NAnd3(_, _) => GateType::NAnd(3),
        }
    }

    /// The signal ids this gate reads.
    pub open spec fn spec_input(&self) -> Seq<usize> {
        match self {
            LogicGate::Not1(i, _) => i@,
            LogicGate::And2(i, _) => i@,
            LogicGate::Or2(i, _) => i@,
            LogicGate::Xor2(i, _) => i@,
            LogicGate::NAnd2(i, _) => i@,
            LogicGate::NAnd3(i, _) => i@,
        }
    }

    /// The signal id this gate writes.
    pub open spec fn spec_output(&self) -> usize {
        match self {
            LogicGate::Not1(_, o) => *o,
            LogicGate::And2(_, o) => *o,
            LogicGate::Or2(_, o) => *o,
            LogicGate::Xor2(_, o) => *o,
            LogicGate::NAnd2(_, o) => *o,
            LogicGate::NAnd3(_, o) => *o,
        }
    }

    /// A gate of kind `typ` reading `input` and writing `output`; `input`
    /// must hold exactly as many ids as the kind takes (NAND takes two or
    /// three, as its count says).
    pub fn new(typ: GateType, input: &[usize], output: usize) -> (r: Result<LogicGate, BuildError>)
        ensures
            match held_arity(typ) {
                Some(n) if n == input@.len() => r matches Ok(g) && kind_of(g.spec_type()) == kind_of(typ)
                    && g.spec_input() == input@ && g.spec_output() == output,
                _ => r == Err::<LogicGate, BuildError>(BuildError::ArityMismatch),
            },
    {
        let n = input.len();
        match typ {
            GateType::Not(_) => if n == 1 {
                let g = LogicGate::Not1([input[0]], output);
                assert(g.spec_input() =~= input@);
                Ok(g)
            } else {
                Err(BuildError::ArityMismatch)
            },
            GateType::And(_) => if n == 2 {
                let g = LogicGate::And2([input[0], input[1]], output);
                assert(g.spec_input() =~= input@);
                Ok(g)
            } else {
                Err(BuildError::ArityMismatch)
            },
            GateType::Or(_) => if n == 2 {
                let g = LogicGate::Or2([input[0], input[1]], output);
                assert(g.spec_input() =~= input@);
                Ok(g)
            } else {
                Err(BuildError::ArityMismatch)
            },
            GateType::Xor(_) => if n == 2 {
                let g = LogicGate::Xor2([input[0], input[1]], output);
                assert(g.spec_input() =~= input@);
                Ok(g)
            } else {
                Err(BuildError::ArityMismatch)
            },
            GateType::NAnd(size) => if size == 2 && n == 2 {
                let g = LogicGate::NAnd2([input[0], input[1]], output);
                assert(g.spec_input() =~= input@);
                Ok(g)
            } else if size == 3 && n == 3 {
                let g = LogicGate::NAnd3([input[0], input[1], input[2]], output);
                assert(g.spec_input() =~= input@);
                Ok(g)
            } else {
                Err(BuildError::ArityMismatch)
            },
        }
    }

    pub fn get_type(&self) -> (r: GateType)
        ensures
            r == self.spec_type(),
    {
        match self {
            LogicGate::Not1(_, _) => GateType::Not(1),
            LogicGate::And2(_, _) => GateType::And(2),
            LogicGate::Or2(_, _) => GateType::Or(2),
            LogicGate::Xor2(_, _) => GateType::Xor(2),
            LogicGate::NAnd2(_, _) => GateType::NAnd(2),
            LogicGate::NAnd3(_, _) => GateType::NAnd(3),
        }
    }

    /// Rebinds input `index` to signal `value`.
    pub fn set_input(&mut self, index: usize, value: usize)
        requires
            index < old(self).spec_input().len(),
        ensures
            final(self).spec_type() == old(self).spec_type(),
            final(self).spec_output() == old(self).spec_output(),
            final(self).spec_input() == old(self).spec_input().update(index as int, value),
    {
        match self {
            LogicGate::Not1(input, _) => input[index] = value,
            LogicGate::And2(input, _) => input[index] = value,
            LogicGate::Or2(input, _) => input[index] = value,
            LogicGate::Xor2(input, _) => input[index] = value,
            LogicGate::NAnd2(input, _) => input[index] = value,
            LogicGate::NAnd3(input, _) => input[index] = value,
        }
    }

    pub fn get_input(&self) -> (r: &[usize])
        ensures
            r@ == self.spec_input(),
    {
        match self {
            LogicGate::Not1(input, _) => input.as_slice(),
            LogicGate::And2(input, _) => input.as_slice(),
            LogicGate::Or2(input, _) => input.as_slice(),
            LogicGate::Xor2(input, _) => input.as_slice(),
            LogicGate::NAnd2(input, _) => input.as_slice(),
            LogicGate::NAnd3(input, _) => input.as_slice(),
        }
    }

    pub fn get_output(&self) -> (r: usize)
        ensures
            r == self.spec_output(),
    {
        match self {
            LogicGate::Not1(_, output) => *output,
            LogicGate::And2(_, output) => *output,
            LogicGate::Or2(_, output) => *output,
            LogicGate::Xor2(_, output) => *output,
            LogicGate::NAnd2(_, output) => *output,
            LogicGate::NAnd3(_, output) => *output,
        }
    }

    /// The value this gate computes from the signal table `ctx`.
    pub fn execute(&self, ctx: &[Signal]) -> (r: Result<Signal, BuildError>)
        ensures
            r == (if ids_in_range(self.spec_input(), ctx@.len()) {
                gate_result(kind_of(self.spec_type()), gather(self.spec_input(), ctx@))
            } else {
                Err(BuildError::SignalIndexOutOfRange)
            }),
    {
        let input = self.get_input();
        if !check_ids(input, ctx.len()) {
            return Err(BuildError::SignalIndexOutOfRange);
        }
        let values = gather_signals(input, ctx);
        self.get_type().execute(values.as_slice())
    }

    /// Evaluates this gate on `ctx` and writes the value to its output; on
    /// failure `ctx` is unchanged.
    pub fn execute_mut(&self, ctx: &mut Vec<Signal>) -> (r: Result<(), BuildError>)
        ensures
            !ids_in_range(self.spec_input(), old(ctx)@.len()) || self.spec_output() >= old(ctx)@.len()
                ==> r == Err::<(), BuildError>(BuildError::SignalIndexOutOfRange) && final(ctx)@ == old(ctx)@,
            ids_in_range(self.spec_input(), old(ctx)@.len()) && self.spec_output() < old(ctx)@.len() ==> match gate_result(
                kind_of(self.spec_type()),
                gather(self.spec_input(), old(ctx)@),
            ) {
                Ok(s) => r is Ok && final(ctx)@ == old(ctx)@.update(
                    self.spec_output() as int,
                    with_value(old(ctx)@[self.spec_output() as int], s.value),
                ),
                Err(e) => r == Err::<(), BuildError>(e) && final(ctx)@ == old(ctx)@,
            },
    {
        let o = self.get_output();
        if o >= ctx.len() {
            return Err(BuildError::SignalIndexOutOfRange);
        }
        match self.execute(ctx.as_slice()) {
            Err(e) => Err(e),
            Ok(s) => {
                let parent = ctx[o].parent;
                ctx[o] = Signal { parent, value: s.value };
                Ok(())
            },
        }
    }
}

} // verus!
