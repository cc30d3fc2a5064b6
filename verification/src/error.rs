//! The error values that the runtime hands back to its caller.
use vstd::prelude::*;
use vstd::string::StringExecFns;

verus! {

/// What went wrong.
#[derive(Debug, Clone, Copy, PartialEq, Eq, Structural)]
pub enum ErrorKind {
    /// A position was outside its container: too few operands on the stack,
    /// no active frame, a module or type index past the end of its table, or
    /// a handle whose object is gone.
    IndexError,
    /// A callable was given a number of arguments other than its arity.
    WrongArgumentCount,
    /// An object had another type or payload than the operation needs.
    TypeError,
    /// A member, a name, a method or a module could not be resolved.
    NameError,
    /// The step budget of the interpreter ran out.
    BudgetExhausted,
    /// Calls and destructions were nested deeper than the interpreter
    /// allows.
    DepthExceeded,
}

/// An error of the runtime.
#[derive(Debug, Clone, Copy, PartialEq, Eq, Structural)]
pub struct TriconeError {
    pub kind: ErrorKind,
}

impl TriconeError {
    /// An error of the given kind.
    pub fn new(kind: ErrorKind) -> (e: TriconeError)
        ensures
            e.kind == kind,
    {
        TriconeError { kind }
    }

    /// A short description of the error, for diagnostics.
    pub fn message(&self) -> (s: String)
        ensures
            s@ == Self::spec_message(self.kind),
    {
        match self.kind {
            ErrorKind::IndexError => String::from_str("index out of range"),
            ErrorKind::WrongArgumentCount => String::from_str("wrong number of arguments"),
            ErrorKind::TypeError => String::from_str("unexpected type"),
            ErrorKind::NameError => String::from_str("unresolved name"),
            ErrorKind::BudgetExhausted => String::from_str("step budget exhausted"),
            ErrorKind::DepthExceeded => String::from_str("nested too deeply"),
        }
    }

    /// The text that [`TriconeError::message`] gives for each kind.
    pub open spec fn spec_message(kind: ErrorKind) -> Seq<char> {
        match kind {
            ErrorKind::IndexError => "index out of range"@,
            ErrorKind::WrongArgumentCount => "wrong number of arguments"@,
            ErrorKind::TypeError => "unexpected type"@,
            ErrorKind::NameError => "unresolved name"@,
            ErrorKind::BudgetExhausted => "step budget exhausted"@,
            ErrorKind::DepthExceeded => "nested too deeply"@,
        }
    }
}

} // verus!
