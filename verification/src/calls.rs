//! Making objects and calling methods and functions on them.
use vstd::prelude::*;
use crate::consts::{scope_type_id, unit_type_id, CREATE_METHOD_NAME};
use crate::error::{ErrorKind, TriconeError};
use crate::function::{
    function_from_function_object,
    is_function_object,
    Code,
    Function,
    Scope,
};
use crate::instruction::Instruction;
use crate::interpreter::{
    fails_with,
    first_error,
    same_but_store,
    steps_to,
    unchanged,
    Interpreter,
};
use crate::model::{
    function_result_view,
    function_view,
    lemma_raw_view,
    lemma_tokens_add,
    lemma_tokens_single,
    option_view,
    result_view,
    token_result_view,
    tokens_view,
    unit_result_view,
};
use crate::object::{Object, ObjectToken, TypeIndex};
use crate::semantics::{
    m_call,
    m_call_method,
    m_call_owned,
    m_create_object,
    m_drop_token,
    m_drop_unit,
    m_finish_call,
    m_function_of,
    m_initialise,
    m_release_seq,
    m_run_program,
    m_settle,
};

verus! {

impl Interpreter {
    /// Calls `func` on `args` and then gives up the arguments and the
    /// function's closure.
    pub fn call_function_with_owned_args(&mut self, func: Function, args: Vec<ObjectToken>) -> (r:
        Result<Option<ObjectToken>, TriconeError>)
        ensures
            (final(self)@, result_view(r)) == m_call_owned(
                old(self)@,
                function_view(func),
                tokens_view(args@),
            ),
            steps_to(*old(self), *final(self)),
            args@.len() != func.arity ==> r == fails_with(ErrorKind::WrongArgumentCount),
        decreases old(self).budget, 6int,
    {
        reveal(m_call_owned);
        reveal(m_call);
        reveal(m_release_seq);
        reveal(m_drop_token);
        reveal(m_settle);
        let res = func.call(self, args.as_slice());
        let released = self.release_all(args);
        let closed = self.drop_token(func.closure.vars);
        self.settle(res, first_error(released, closed))
    }

    /// Runs the `create` method of the type `tyidx`, if it has one, on the
    /// new object behind `obj` and the operands `extra`, and gives the
    /// operands up.  The method has to yield nothing, or a unit object.
    pub fn initialise(&mut self, obj: &ObjectToken, tyidx: TypeIndex,
        extra: Vec<ObjectToken>) -> (r:
        Result<(), TriconeError>)
        ensures
            (final(self)@, unit_result_view(r)) == m_initialise(
                old(self)@,
                obj@,
                tyidx,
                tokens_view(extra@),
            ),
            steps_to(*old(self), *final(self)),
        decreases old(self).budget, 7int,
    {
        reveal(m_initialise);
        reveal(m_call_owned);
        reveal(m_drop_unit);
        reveal(m_release_seq);
        let mut extra = extra;
        match self.get_method_of_type(tyidx, CREATE_METHOD_NAME) {
            Some(create) => {
                let receiver = obj.dup(&mut self.store);
                let mut args: Vec<ObjectToken> = Vec::new();
                args.push(receiver);
                proof {
                    lemma_tokens_add(args@, extra@);
                    lemma_tokens_single(receiver);
                    assert(args@ =~= seq![receiver]);
                }
                args.append(&mut extra);
                match self.call_function_with_owned_args(create, args) {
                    Ok(unit) => self.drop_unit(unit),
                    Err(e) => Err(e),
                }
            },
            None => self.release_all(extra),
        }
    }

    /// Makes an object of the type `tyidx`: takes the top `num_args`
    /// operands off the stack, puts a new object into the store and runs
    /// the `create` method of the type, if it has one, on the object and
    /// those operands.  Returns the first handle to the object.  Where the
    /// method fails, the object is given up again.
    ///
    /// Fails with `IndexError`, and changes nothing, where there is no such
    /// type or the stack holds fewer than `num_args` operands.
    pub fn create_object(&mut self, tyidx: TypeIndex, num_args: usize) -> (r: Result<
        ObjectToken,
        TriconeError,
    >)
        ensures
            (final(self)@, token_result_view(r)) == m_create_object(old(self)@, tyidx, num_args),
            steps_to(*old(self), *final(self)),
            !old(self).has_type(tyidx) || old(self).thread.operation_stack@.len() < num_args ==> r
                == Err::<ObjectToken, TriconeError>(TriconeError { kind: ErrorKind::IndexError })
                && unchanged(*old(self), *final(self)),
            r is Ok ==> old(self).has_type(tyidx) && r->Ok_0@ == old(self).store.cells@.len(),
            r is Ok && final(self).store.live(r->Ok_0@) ==> final(self).store.object(
                r->Ok_0@,
            ).type_ == tyidx,
        decreases old(self).budget, 8int,
    {
        reveal(m_create_object);
        reveal(m_initialise);
        reveal(m_drop_token);
        proof {
            crate::model::lemma_tokens_view(self.thread.operation_stack@);
        }
        if !self.is_type(tyidx) {
            return Err(TriconeError::new(ErrorKind::IndexError));
        }
        if self.thread.operation_stack.len() < num_args {
            return Err(TriconeError::new(ErrorKind::IndexError));
        }
        let obj = ObjectToken::new(Object::raw_new(tyidx), &mut self.store);
        proof {
            lemma_raw_view(self.store.cells@.last()->0);
            crate::model::lemma_store_view(old(self).store, 0);
        }
        let extra = self.get_args_from_stack(num_args);
        match self.initialise(&obj, tyidx, extra) {
            Ok(()) => Ok(obj),
            Err(e) => {
                let _ = self.drop_token(obj);
                Err(e)
            },
        }
    }

    /// A new unit object.
    pub fn get_unit_object(&mut self) -> (r: Result<ObjectToken, TriconeError>)
        ensures
            (final(self)@, token_result_view(r)) == m_create_object(old(self)@, unit_type_id(), 0),
            steps_to(*old(self), *final(self)),
            !old(self).has_type(unit_type_id()) ==> r == Err::<ObjectToken, TriconeError>(
                TriconeError { kind: ErrorKind::IndexError },
            ) && unchanged(*old(self), *final(self)),
            r is Ok ==> r->Ok_0@ == old(self).store.cells@.len(),
        decreases old(self).budget, 9int,
    {
        self.create_object(unit_type_id(), 0)
    }

    /// A new scope object, made as the instruction `CreateObject` makes it.
    pub fn create_scope(&mut self) -> (r: Result<Scope, TriconeError>)
        ensures
            (
                final(self)@,
                match r {
                    Ok(scope) => Ok::<int, ErrorKind>(scope.vars@),
                    Err(e) => Err::<int, ErrorKind>(e.kind),
                },
            ) == m_create_object(old(self)@, scope_type_id(), 0),
            steps_to(*old(self), *final(self)),
            !old(self).has_type(scope_type_id()) ==> r == Err::<Scope, TriconeError>(
                TriconeError { kind: ErrorKind::IndexError },
            ) && unchanged(*old(self), *final(self)),
            r is Ok ==> r->Ok_0.vars@ == old(self).store.cells@.len(),
        decreases old(self).budget, 9int,
    {
        match self.create_object(scope_type_id(), 0) {
            Ok(vars) => Ok(Scope { vars }),
            Err(e) => Err(e),
        }
    }

    /// Calls the method `name` of the type of the last argument, the
    /// receiver, on `args`.
    ///
    /// Fails, and changes nothing, with `IndexError` where `args` is empty
    /// or the receiver is gone, and with `NameError` where the receiver's
    /// type has no such method.
    pub fn call_method(&mut self, name: &str, args: &[ObjectToken]) -> (r: Result<
        Option<ObjectToken>,
        TriconeError,
    >)
        ensures
            (final(self)@, result_view(r)) == m_call_method(
                old(self)@,
                name@,
                tokens_view(args@),
            ),
            steps_to(*old(self), *final(self)),
            args@.len() == 0 || !old(self).store.live(args@.last()@) ==> r == fails_with(
                ErrorKind::IndexError,
            ) && unchanged(*old(self), *final(self)),
            args@.len() > 0 && old(self).store.live(args@.last()@) && old(self).method_of(
                old(self).store.object(args@.last()@).type_,
                name@,
            ) is None ==> r == fails_with(ErrorKind::NameError) && unchanged(
                *old(self),
                *final(self),
            ),
        decreases old(self).budget, 10int,
    {
        reveal(m_call_method);
        reveal(m_call);
        reveal(m_drop_token);
        reveal(m_settle);
        proof {
            crate::model::lemma_tokens_view(args@);
        }
        if args.len() == 0 {
            return Err(TriconeError::new(ErrorKind::IndexError));
        }
        let target = &args[args.len() - 1];
        let ty = match self.type_of(target) {
            Some(ty) => ty,
            None => {
                return Err(TriconeError::new(ErrorKind::IndexError));
            },
        };
        let method = match self.get_method_of_type(ty, name) {
            Some(method) => method,
            None => {
                return Err(TriconeError::new(ErrorKind::NameError));
            },
        };
        let res = method.call(self, args);
        let closed = self.drop_token(method.closure.vars);
        self.settle(res, closed)
    }

    /// A duplicate of the function that the function object behind `token`
    /// holds.
    pub fn function_of(&mut self, token: &ObjectToken) -> (r: Result<Function, TriconeError>)
        ensures
            (final(self)@, function_result_view(r)) == m_function_of(old(self)@, token@),
            same_but_store(*old(self), *final(self)),
            !old(self).store.live(token@) ==> r == Err::<Function, TriconeError>(
                TriconeError { kind: ErrorKind::IndexError },
            ) && final(self).store.cells@ == old(self).store.cells@,
            old(self).store.live(token@) && !is_function_object(old(self).store.object(token@))
                ==> r == Err::<Function, TriconeError>(TriconeError { kind: ErrorKind::TypeError })
                && final(self).store.cells@ == old(self).store.cells@,
            old(self).store.live(token@) && is_function_object(old(self).store.object(token@))
                ==> r == Ok::<Function, TriconeError>(
                old(self).store.object(token@).data->Function_0,
            ) && final(self).store.cells@ == old(self).store.retained(
                old(self).store.object(token@).data->Function_0.closure.vars@,
            ),
    {
        let parts = match token.obj(&self.store) {
            None => Err(TriconeError::new(ErrorKind::IndexError)),
            Some(object) => match function_from_function_object(object) {
                Ok(func) => Ok((func.code.share(), func.arity, func.closure.vars.index())),
                Err(e) => Err(e),
            },
        };
        match parts {
            Err(e) => Err(e),
            Ok((code, arity, closure)) => {
                let vars = ObjectToken::at(closure);
                proof {
                    ObjectToken::lemma_same_cell(
                        vars,
                        old(self).store.object(token@).data->Function_0.closure.vars,
                    );
                }
                self.store.retain(closure);
                Ok(Function { code, arity, closure: Scope { vars } })
            },
        }
    }

    /// What an instruction yields for the result of a call: with
    /// `use_result` the value, or a new unit object where the call yielded
    /// none; without it nothing, and the value is given up.
    pub fn finish_call(&mut self, res: Option<ObjectToken>, use_result: bool) -> (r: Result<
        Option<ObjectToken>,
        TriconeError,
    >)
        ensures
            (final(self)@, result_view(r)) == m_finish_call(
                old(self)@,
                option_view(res),
                use_result,
            ),
            steps_to(*old(self), *final(self)),
            use_result && res is Some ==> r == Ok::<Option<ObjectToken>, TriconeError>(res)
                && unchanged(*old(self), *final(self)),
            !use_result && res is None ==> r == Ok::<Option<ObjectToken>, TriconeError>(None)
                && unchanged(*old(self), *final(self)),
            r is Ok ==> (r->Ok_0 is Some) == use_result,
        decreases old(self).budget, 11int,
    {
        reveal(m_finish_call);
        reveal(m_create_object);
        reveal(m_drop_token);
        if use_result {
            match res {
                Some(value) => Ok(Some(value)),
                None => match self.get_unit_object() {
                    Ok(unit) => Ok(Some(unit)),
                    Err(e) => Err(e),
                },
            }
        } else {
            match res {
                Some(value) => match self.drop_token(value) {
                    Ok(()) => Ok(None),
                    Err(e) => Err(e),
                },
                None => Ok(None),
            }
        }
    }

    /// Runs a program: a function without arguments whose body is the
    /// given instructions is called in a frame of its own, closed over a
    /// new scope, and that scope is given up again.  Returns what the last
    /// instruction yielded.
    pub fn run_program(&mut self, instructions: Vec<Instruction>) -> (r: Result<
        Option<ObjectToken>,
        TriconeError,
    >)
        ensures
            (final(self)@, result_view(r)) == m_run_program(old(self)@, instructions),
            steps_to(*old(self), *final(self)),
    {
        reveal(m_call);
        reveal(m_drop_token);
        reveal(m_settle);
        proof {
            crate::model::lemma_store_view(self.store, 0);
        }
        let closure = Scope::new(&mut self.store);
        let function = Function::from_code(Code::create(instructions), 0, closure);
        let none: Vec<ObjectToken> = Vec::new();
        proof {
            crate::model::lemma_tokens_empty(none@);
        }
        let res = function.call(self, none.as_slice());
        let closed = self.drop_token(function.closure.vars);
        self.settle(res, closed)
    }
}

} // verus!
