//! Callable units: a body, an arity and the scope that the body closes over.
use vstd::prelude::*;
use std::rc::Rc;
use crate::consts::function_type_id;
use crate::error::{ErrorKind, TriconeError};
use crate::generic::create_object_from_val;
use crate::host::Hosted;
use crate::instruction::Instruction;
use crate::interpreter::{fails_with, steps_to, unchanged, Interpreter, MAX_DEPTH};
use crate::model::{function_view, result_view, tokens_view};
use crate::object::{Object, ObjectStore, ObjectToken, Payload};
use crate::semantics::{
    m_call,
    m_call_in_frame,
    m_invoke,
    m_native,
    m_run_code,
    m_with_new_frame,
    m_with_new_scope,
};

verus! {

/// A lexical scope: an object of the scope type whose members are the
/// bindings, with the parent scope under a reserved member name.
pub struct Scope {
    pub vars: ObjectToken,
}

/// The kinds of native payload.
#[derive(Debug, Clone, Copy, PartialEq, Eq, Structural)]
pub enum NativeKind {
    Bool,
    Int,
    Text,
    Function,
}

/// The native procedures: the bodies that are written in the host language
/// and not in instructions.
pub enum NativeProc {
    /// The `create` hook of a native type: gives the object the default
    /// payload of the kind.
    Create(NativeKind),
    /// The `drop` hook of a native type: destroys the payload in place.
    Drop(NativeKind),
    /// The sum of two integer objects, as a new object.
    Add,
    /// The text of a boolean or integer object, as a new string object.
    ToString,
    /// Writes a string object to the output.
    Println,
    /// Calls the second argument if the first is true, the third otherwise.
    If,
    /// Calls the second argument for as long as calling the first yields
    /// true.
    While,
    /// Writes a fixed line to the output.
    Emit(String),
    /// A procedure of the host, run on the payloads of the arguments; what
    /// it answers with becomes a new object.
    Host(Hosted),
    /// The body of a function that was never given one.
    Uninitialized,
}

/// What a function runs.
pub enum Body {
    Bytecode(Vec<Instruction>),
    Native(NativeProc),
}

/// The body of a function, shared between all duplicates of the function.
pub struct Code {
    pub body: Rc<Body>,
}

/// A callable unit.
pub struct Function {
    pub code: Code,
    pub arity: usize,
    pub closure: Scope,
}

/// `Rc::clone`: another pointer to the same body.  The new pointer is the
/// same value as the old one.
#[verifier::external_body]
fn share_body(body: &Rc<Body>) -> (shared: Rc<Body>)
    ensures
        shared == *body,
{
    Rc::clone(body)
}

impl Scope {
    /// Another handle to the same scope: the bindings are shared, not
    /// copied.
    pub fn dup(&self, store: &mut ObjectStore) -> (scope: Scope)
        ensures
            scope == *self,
            final(store).cells@ == old(store).retained(self.vars@),
            final(store)@ == crate::model::m_retain(old(store)@, self.vars@),
    {
        Scope { vars: self.vars.dup(store) }
    }
}

impl Code {
    /// Code that runs the given instructions.
    pub fn create(instructions: Vec<Instruction>) -> (code: Code)
        ensures
            *code.body == Body::Bytecode(instructions),
    {
        Code { body: Rc::new(Body::Bytecode(instructions)) }
    }

    /// Code that runs a native procedure.
    pub fn native(procedure: NativeProc) -> (code: Code)
        ensures
            *code.body == Body::Native(procedure),
    {
        Code { body: Rc::new(Body::Native(procedure)) }
    }

    /// The same code again; the body is shared.
    pub fn share(&self) -> (code: Code)
        ensures
            code == *self,
    {
        Code { body: share_body(&self.body) }
    }
}

impl Function {
    /// A function with a native body.
    pub fn new(code: NativeProc, arity: usize, closure: Scope) -> (func: Function)
        ensures
            *func.code.body == Body::Native(code),
            func.arity == arity,
            func.closure == closure,
    {
        Function { code: Code::native(code), arity, closure }
    }

    /// A function with a native body that the caller holds in a box.
    pub fn from_boxed_fn(code: Box<NativeProc>, arity: usize, closure: Scope) -> (func: Function)
        ensures
            *func.code.body == Body::Native(*code),
            func.arity == arity,
            func.closure == closure,
    {
        Function { code: Code::native(*code), arity, closure }
    }

    /// A function with the given code.
    pub fn from_code(code: Code, arity: usize, closure: Scope) -> (func: Function)
        ensures
            func == (Function { code, arity, closure }),
    {
        Function { code, arity, closure }
    }

    /// A shallow duplicate: the body is shared, and the closure is another
    /// handle to the same scope.
    pub fn dup(&self, store: &mut ObjectStore) -> (func: Function)
        ensures
            func == *self,
            final(store).cells@ == old(store).retained(self.closure.vars@),
            final(store)@ == crate::model::m_retain(old(store)@, self.closure.vars@),
    {
        Function { code: self.code.share(), arity: self.arity, closure: self.closure.dup(store) }
    }
}

/// Registers the type of function objects in `module`.  The interpreter
/// tells function objects by the identity of this type, so the type has to
/// be the third of the core module.
pub fn register_func_type(interpreter: &mut Interpreter,
    module: &mut crate::types::Module) -> (index:
    crate::object::TypeIndex)
    ensures
        index.0 == old(module).index,
        index.1 == old(module).types@.len(),
        final(module).types@.len() == old(module).types@.len() + 1,
        final(module).types@.subrange(0, old(module).types@.len() as int) == old(module).types@,
        final(module).types@.last().name@ == "Function"@,
        final(module).types@.last().index == index,
        final(module).types@.last().methods.distinct(),
        final(module).types@.last().scope.vars@ == old(interpreter).store.cells@.len(),
        crate::types::methods_match(
            final(module).types@.last().methods@,
            crate::generic::native_methods(
                NativeKind::Function,
                Map::<Seq<char>, crate::moduledef::FunctionDef>::empty(),
            ),
            final(module).types@.last().scope,
        ),
        final(module).name == old(module).name,
        final(module).index == old(module).index,
        final(module).globals == old(module).globals,
        crate::types::adds_scope(old(interpreter).store, final(interpreter).store),
        crate::types::scope_counted(final(interpreter).store, final(module).types@.last()),
        final(interpreter).modules == old(interpreter).modules,
        final(interpreter).thread == old(interpreter).thread,
        final(interpreter).output == old(interpreter).output,
        final(interpreter).budget == old(interpreter).budget,
        final(interpreter).depth == old(interpreter).depth,
{
    crate::generic::create_type_for(
        &mut interpreter.store,
        module,
        "Function",
        NativeKind::Function,
        crate::moduledef::TypeDef::new(),
    )
}

/// Puts `func` into the store as a function object and returns the first
/// handle to it.
pub fn function_object_from_function(func: Function, store: &mut ObjectStore) -> (token:
    ObjectToken)
    ensures
        token@ == old(store).cells@.len(),
        final(store).cells@.len() == old(store).cells@.len() + 1,
        final(store).cells@.subrange(0, old(store).cells@.len() as int) == old(store).cells@,
        final(store).live(token@),
        final(store).count(token@) == 1,
        final(store).object(token@).type_ == function_type_id(),
        final(store).object(token@).data == Payload::Function(func),
        final(store).object(token@).members.entries@.len() == 0,
        old(store).tables_distinct() ==> final(store).tables_distinct(),
{
    let token = ObjectToken::new(
        create_object_from_val(function_type_id(), Payload::Function(func)),
        store,
    );
    assert(store.cells@.subrange(0, old(store).cells@.len() as int) =~= old(store).cells@);
    token
}

/// Whether `obj` is a function object.
pub open spec fn is_function_object(obj: Object) -> bool {
    obj.type_ == function_type_id() && obj.data is Function
}

/// The function that a function object holds; a `TypeError` for an object
/// of another type or without a function in its payload.
pub fn function_from_function_object(obj: &Object) -> (func: Result<&Function, TriconeError>)
    ensures
        is_function_object(*obj) ==> func == Ok::<&Function, TriconeError>(&obj.data->Function_0),
        !is_function_object(*obj) ==> func == Err::<&Function, TriconeError>(
            TriconeError { kind: ErrorKind::TypeError },
        ),
{
    if obj.type_ == function_type_id() {
        match &obj.data {
            Payload::Function(func) => Ok(func),
            _ => Err(TriconeError::new(ErrorKind::TypeError)),
        }
    } else {
        Err(TriconeError::new(ErrorKind::TypeError))
    }
}

impl Function {
    /// Calls the function in a frame of its own.
    ///
    /// A number of arguments other than the arity is refused with
    /// `WrongArgumentCount` before anything happens.  Otherwise the call
    /// takes one step from the budget, counts as one level of nesting while
    /// it runs, pushes a frame whose scope is a new child of the closure,
    /// runs the body, and pops the frame again, whether the body failed or
    /// not.
    pub fn call(&self, interpreter: &mut Interpreter, args: &[ObjectToken]) -> (r: Result<
        Option<ObjectToken>,
        TriconeError,
    >)
        ensures
            (final(interpreter)@, result_view(r)) == m_call(
                old(interpreter)@,
                function_view(*self),
                tokens_view(args@),
            ),
            steps_to(*old(interpreter), *final(interpreter)),
            args@.len() != self.arity ==> r == fails_with(ErrorKind::WrongArgumentCount)
                && unchanged(*old(interpreter), *final(interpreter)),
            args@.len() == self.arity && old(interpreter).budget == 0 ==> r == fails_with(
                ErrorKind::BudgetExhausted,
            ) && unchanged(*old(interpreter), *final(interpreter)),
            args@.len() == self.arity && old(interpreter).budget > 0 && old(interpreter).depth
                >= MAX_DEPTH ==> r == fails_with(ErrorKind::DepthExceeded) && unchanged(
                *old(interpreter),
                *final(interpreter),
            ),
            r is Ok ==> final(interpreter).budget < old(interpreter).budget,
        decreases old(interpreter).budget, 0int,
    {
        reveal(m_call);
        reveal(m_with_new_frame);
        proof {
            crate::model::lemma_tokens_view(args@);
        }
        if self.arity != args.len() {
            return Err(TriconeError::new(ErrorKind::WrongArgumentCount));
        }
        match interpreter.enter() {
            Err(e) => {
                return Err(e);
            },
            Ok(()) => {},
        }
        let scope = self.closure.dup(&mut interpreter.store);
        let ran = interpreter.with_new_frame(scope, self, args);
        interpreter.leave();
        ran
    }

    /// Calls the function in a nested scope of the active frame, so that
    /// the body shares the frame of its caller.
    ///
    /// A number of arguments other than the arity is refused with
    /// `WrongArgumentCount` before anything happens, and a call without an
    /// active frame with `IndexError`.
    pub fn call_in_frame(&self, interpreter: &mut Interpreter, args: &[ObjectToken]) -> (r: Result<
        Option<ObjectToken>,
        TriconeError,
    >)
        ensures
            (final(interpreter)@, result_view(r)) == m_call_in_frame(
                old(interpreter)@,
                function_view(*self),
                tokens_view(args@),
            ),
            steps_to(*old(interpreter), *final(interpreter)),
            args@.len() != self.arity ==> r == fails_with(ErrorKind::WrongArgumentCount)
                && unchanged(*old(interpreter), *final(interpreter)),
            args@.len() == self.arity && old(interpreter).budget == 0 ==> r == fails_with(
                ErrorKind::BudgetExhausted,
            ) && unchanged(*old(interpreter), *final(interpreter)),
            args@.len() == self.arity && old(interpreter).budget > 0 && old(interpreter).depth
                >= MAX_DEPTH ==> r == fails_with(ErrorKind::DepthExceeded) && unchanged(
                *old(interpreter),
                *final(interpreter),
            ),
            r is Ok ==> final(interpreter).budget < old(interpreter).budget,
        decreases old(interpreter).budget, 0int,
    {
        reveal(m_call_in_frame);
        reveal(m_with_new_scope);
        proof {
            crate::model::lemma_tokens_view(args@);
        }
        if self.arity != args.len() {
            return Err(TriconeError::new(ErrorKind::WrongArgumentCount));
        }
        match interpreter.enter() {
            Err(e) => {
                return Err(e);
            },
            Ok(()) => {},
        }
        let ran = interpreter.with_new_scope(self, args);
        interpreter.leave();
        ran
    }

    /// Runs the body of the function in the active frame.
    pub fn invoke(&self, interpreter: &mut Interpreter, args: &[ObjectToken]) -> (r: Result<
        Option<ObjectToken>,
        TriconeError,
    >)
        ensures
            (final(interpreter)@, result_view(r)) == m_invoke(
                old(interpreter)@,
                function_view(*self),
                tokens_view(args@),
            ),
            steps_to(*old(interpreter), *final(interpreter)),
        decreases old(interpreter).budget, 17int,
    {
        reveal(m_invoke);
        reveal(m_run_code);
        reveal(m_native);
        match &*self.code.body {
            Body::Bytecode(instructions) => interpreter.run_code(instructions.as_slice()),
            Body::Native(procedure) => crate::natives::run_native(interpreter, procedure, args),
        }
    }
}

} // verus!
