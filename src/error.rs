use vstd::prelude::*;

verus! {

/// Why building or running a circuit was refused.
#[derive(Clone, Copy, Debug, PartialEq, Eq, Structural)]
pub enum BuildError {
    /// A gate was evaluated on an input whose value is unknown.
    UnknownOperand,
    /// A gate name or gate kind that is not a primitive gate.
    UnknownGateName,
    /// A gate or pattern was given the wrong number of inputs or outputs.
    ArityMismatch,
    /// A signal index (or a pattern-local index) lies outside its table.
    SignalIndexOutOfRange,
    /// A pattern of that name is already registered.
    DuplicatePatternName,
    /// No pattern of that name is registered.
    PatternNotFound,
    /// A captured sub-network could not be traced back to its producing gates.
    MalformedPatternCapture,
}

} // verus!
