use vstd::prelude::*;
use crate::error::BuildError;

verus! {

/// A tri-state boolean value (true, false or unknown) together with the
/// index of the node that produced it, if any.
#[derive(Clone, Copy, Debug)]
pub struct Signal {
    pub parent: Option<usize>,
    pub value: Option<bool>,
}

/// The signal carries a known value.
pub open spec fn known(s: Signal) -> bool {
    s.value is Some
}

/// The signal carries the value true.
pub open spec fn high(s: Signal) -> bool {
    s.value == Some(true)
}

/// The signal that encodes `u` as a bit: zero is false, anything else true.
pub open spec fn signal_of_usize(u: usize) -> Signal {
    Signal { parent: None, value: Some(u != 0) }
}

impl PartialEq for Signal {
    /// Two signals are equal when they carry the same value; provenance is ignored.
    fn eq(&self, other: &Signal) -> (r: bool)
        ensures
            r == (self.value == other.value),
    {
        match (self.value, other.value) {
            (Some(a), Some(b)) => a == b,
            (None, None) => true,
            _ => false,
        }
    }
}

impl vstd::std_specs::cmp::PartialEqSpecImpl for Signal {
    open spec fn obeys_eq_spec() -> bool {
        true
    }

    open spec fn eq_spec(&self, other: &Signal) -> bool {
        self.value == other.value
    }
}

impl Eq for Signal {
}

impl Default for Signal {
    fn default() -> (r: Signal)
        ensures
            r.value is None,
            r.parent is None,
    {
        Signal { parent: None, value: None }
    }
}

impl Signal {
    /// The known value of the signal.
    pub fn get_unchecked(&self) -> (r: bool)
        requires
            known(*self),
        ensures
            Some(r) == self.value,
    {
        self.value.unwrap()
    }

    /// A signal with value `b` and no producing node.
    pub fn from_bool(b: Option<bool>) -> (r: Signal)
        ensures
            r.value == b,
            r.parent is None,
    {
        Signal { parent: None, value: b }
    }

    /// Whether the value is known.
    pub fn is_valid(&self) -> (r: bool)
        ensures
            r == known(*self),
    {
        self.value.is_some()
    }

    /// The signal for bit `u`: zero is false, anything else true.
    pub fn from_usize(u: usize) -> (r: Signal)
        ensures
            r == signal_of_usize(u),
    {
        if u == 0 {
            Self::from_bool(Some(false))
        } else {
            Self::from_bool(Some(true))
        }
    }

    /// The index of the node that produced this signal.
    pub fn get_parent(&self) -> (r: Option<usize>)
        ensures
            r == self.parent,
    {
        self.parent
    }

    /// A signal with value `b` produced by node `p`.
    pub fn with_parent(b: Option<bool>, p: usize) -> (r: Signal)
        ensures
            r.value == b,
            r.parent == Some(p),
    {
        Signal { parent: Some(p), value: b }
    }

    /// Records node `p` as the producer of this signal.
    pub fn set_parent(&mut self, p: usize)
        ensures
            final(self).parent == Some(p),
            final(self).value == old(self).value,
    {
        self.parent = Some(p);
    }

    /// Negation; an unknown value is reported as `UnknownOperand`.
    pub fn not(&self) -> (r: Result<Signal, BuildError>)
        ensures
            known(*self) ==> r == Ok::<Signal, BuildError>(Signal { parent: None, value: Some(!high(*self)) }),
            !known(*self) ==> r == Err::<Signal, BuildError>(BuildError::UnknownOperand),
    {
        match self.value {
            Some(a) => Ok(Self::from_bool(Some(!a))),
            None => Err(BuildError::UnknownOperand),
        }
    }

    /// Conjunction; an unknown operand is reported as `UnknownOperand`.
    pub fn and(&self, other: &Signal) -> (r: Result<Signal, BuildError>)
        ensures
            known(*self) && known(*other) ==> r == Ok::<Signal, BuildError>(
                Signal { parent: None, value: Some(high(*self) && high(*other)) },
            ),
            !(known(*self) && known(*other)) ==> r == Err::<Signal, BuildError>(BuildError::UnknownOperand),
    {
        match (self.value, other.value) {
            (Some(a), Some(b)) => Ok(Self::from_bool(Some(a && b))),
            _ => Err(BuildError::UnknownOperand),
        }
    }

    /// Disjunction; an unknown operand is reported as `UnknownOperand`.
    pub fn or(&self, other: &Signal) -> (r: Result<Signal, BuildError>)
        ensures
            known(*self) && known(*other) ==> r == Ok::<Signal, BuildError>(
                Signal { parent: None, value: Some(high(*self) || high(*other)) },
            ),
            !(known(*self) && known(*other)) ==> r == Err::<Signal, BuildError>(BuildError::UnknownOperand),
    {
        match (self.value, other.value) {
            (Some(a), Some(b)) => Ok(Self::from_bool(Some(a || b))),
            _ => Err(BuildError::UnknownOperand),
        }
    }

    /// Exclusive or, `(l and not r) or (not l and r)`; an unknown operand is
    /// reported as `UnknownOperand`.
    pub fn xor(&self, other: &Signal) -> (r: Result<Signal, BuildError>)
        ensures
            known(*self) && known(*other) ==> r == Ok::<Signal, BuildError>(
                Signal {
                    parent: None,
                    value: Some((high(*self) && !high(*other)) || (!high(*self) && high(*other))),
                },
            ),
            !(known(*self) && known(*other)) ==> r == Err::<Signal, BuildError>(BuildError::UnknownOperand),
    {
        match (self.value, other.value) {
            (Some(l), Some(r)) => Ok(Self::from_bool(Some(!l && r || l && !r))),
            _ => Err(BuildError::UnknownOperand),
        }
    }
}

} // verus!
