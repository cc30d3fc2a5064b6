//! Procedures that a host supplies: each answers the values that its
//! arguments hold with a value, with nothing, or with an error.
use vstd::prelude::*;
use crate::error::{ErrorKind, TriconeError};

verus! {

/// What a host procedure is given for one argument, and what it may give
/// back: the payload of an object.
#[derive(Debug)]
pub enum HostValue {
    /// An object without a payload.
    Nothing,
    Bool(bool),
    Int(i64),
    Text(String),
}

/// The model of a host value.
pub enum HostValueM {
    Nothing,
    Bool(bool),
    Int(i64),
    Text(Seq<char>),
}

impl View for HostValue {
    type V = HostValueM;

    open spec fn view(&self) -> HostValueM {
        match *self {
            HostValue::Nothing => HostValueM::Nothing,
            HostValue::Bool(b) => HostValueM::Bool(b),
            HostValue::Int(i) => HostValueM::Int(i),
            HostValue::Text(s) => HostValueM::Text(s@),
        }
    }
}

impl HostValue {
    /// The same value once more.
    pub fn duplicate(&self) -> (copy: HostValue)
        ensures
            copy@ == self@,
    {
        match self {
            HostValue::Nothing => HostValue::Nothing,
            HostValue::Bool(b) => HostValue::Bool(*b),
            HostValue::Int(i) => HostValue::Int(*i),
            HostValue::Text(text) => HostValue::Text(text.clone()),
        }
    }
}

/// The models of a sequence of host values.
pub open spec fn host_values_view(values: Seq<HostValue>) -> Seq<HostValueM> {
    Seq::new(values.len(), |i: int| values[i]@)
}

/// The model of what a host procedure returns.
pub open spec fn host_result_view(r: Result<Option<HostValue>, TriconeError>) -> Result<
    Option<HostValueM>,
    ErrorKind,
> {
    match r {
        Ok(Some(value)) => Ok(Some(value@)),
        Ok(None) => Ok(None),
        Err(e) => Err(e.kind),
    }
}

/// A procedure of the host.  It sees the payloads of its arguments and
/// nothing else of the machine, and what it answers depends on them alone.
/// The contracts of the machine hold of a run with a host procedure as far
/// as the procedure keeps the contract of `run`: of an implementation that
/// is not verified this is taken on trust.
pub trait HostProcedure {
    /// What the procedure answers to the given values.
    spec fn answer(&self, args: Seq<HostValueM>) -> Result<Option<HostValueM>, ErrorKind>;

    /// Runs the procedure on the values of the arguments, the first
    /// argument first.
    fn run(&self, args: &[HostValue]) -> (r: Result<Option<HostValue>, TriconeError>)
        ensures
            host_result_view(r) == self.answer(host_values_view(args@)),
    ;
}

/// A host procedure as a native body holds it.
pub struct Hosted {
    pub procedure: Box<dyn HostProcedure>,
}

impl Hosted {
    /// What the procedure answers to the given values.
    pub open spec fn answer(&self, args: Seq<HostValueM>) -> Result<Option<HostValueM>, ErrorKind> {
        self.procedure.answer(args)
    }

    /// Runs the procedure on the values of the arguments.
    pub fn run(&self, args: &[HostValue]) -> (r: Result<Option<HostValue>, TriconeError>)
        ensures
            host_result_view(r) == self.answer(host_values_view(args@)),
    {
        self.procedure.run(args)
    }
}

/// The host procedure that answers one boolean with the other one.
pub struct Negation;

impl HostProcedure for Negation {
    open spec fn answer(&self, args: Seq<HostValueM>) -> Result<Option<HostValueM>, ErrorKind> {
        if args.len() != 1 {
            Err(ErrorKind::WrongArgumentCount)
        } else {
            match args[0] {
                HostValueM::Bool(b) => Ok(Some(HostValueM::Bool(!b))),
                _ => Err(ErrorKind::TypeError),
            }
        }
    }

    fn run(&self, args: &[HostValue]) -> (r: Result<Option<HostValue>, TriconeError>) {
        if args.len() != 1 {
            return Err(TriconeError::new(ErrorKind::WrongArgumentCount));
        }
        match &args[0] {
            HostValue::Bool(b) => Ok(Some(HostValue::Bool(!*b))),
            _ => Err(TriconeError::new(ErrorKind::TypeError)),
        }
    }
}

/// The host procedure that answers with the value of its first argument,
/// and with nothing where it has no argument.
pub struct FirstValue;

impl HostProcedure for FirstValue {
    open spec fn answer(&self, args: Seq<HostValueM>) -> Result<Option<HostValueM>, ErrorKind> {
        if args.len() == 0 {
            Ok(None)
        } else {
            Ok(Some(args[0]))
        }
    }

    fn run(&self, args: &[HostValue]) -> (r: Result<Option<HostValue>, TriconeError>) {
        if args.len() == 0 {
            Ok(None)
        } else {
            Ok(Some(args[0].duplicate()))
        }
    }
}

} // verus!
