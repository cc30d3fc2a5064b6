//! The instructions, one function each, and their dispatch.
use vstd::prelude::*;
use crate::error::{ErrorKind, TriconeError};
use crate::function::{is_function_object, Scope};
use crate::instruction::Instruction;
use crate::interpreter::{
    fails_with,
    first_error,
    same_but_store,
    steps_to,
    unchanged,
    Interpreter,
};
use crate::model::result_view;
use crate::names::first_position;
use crate::object::{release_in, ObjectToken};
use crate::semantics::{
    m_assign_member,
    m_call,
    m_call_method,
    m_create_native,
    m_create_object,
    m_drop_token,
    m_exec_assign,
    m_exec_call_function_object,
    m_exec_call_method,
    m_exec_debug_print_object,
    m_exec_get_member,
    m_exec_get_module_globals,
    m_exec_get_top_scope,
    m_exec_lookup_name,
    m_finish_call,
    m_from_object,
    m_release_seq,
    m_run_instruction,
    m_settle,
};

verus! {

/// The successful result of an instruction that yields `token`.
pub open spec fn yields(token: ObjectToken) -> Result<Option<ObjectToken>, TriconeError> {
    Ok(Some(token))
}

/// The successful result of an instruction that yields nothing.
pub open spec fn yields_nothing() -> Result<Option<ObjectToken>, TriconeError> {
    Ok(None)
}

impl Interpreter {
    /// The scope of the active frame.
    pub open spec fn top_scope(&self) -> Option<Scope> {
        if self.thread.frame_stack@.len() > 0 {
            Some(self.thread.frame_stack@.last().top_scope)
        } else {
            None
        }
    }

    /// `Assign`: pops a scope handle, then a value handle, and binds `name`
    /// to the value in that scope; the binding that the name had there is
    /// given up, and so is the scope handle.
    ///
    /// Fails with `IndexError`, and changes nothing, where the stack holds
    /// fewer than two operands; with `TypeError` where the first operand is
    /// no live scope, and then both operands are given up.
    pub fn exec_assign(&mut self, name: &String) -> (r: Result<Option<ObjectToken>, TriconeError>)
        ensures
            (final(self)@, result_view(r)) == m_exec_assign(old(self)@, name@),
            steps_to(*old(self), *final(self)),
            old(self).thread.operation_stack@.len() < 2 ==> r == fails_with(ErrorKind::IndexError)
                && unchanged(*old(self), *final(self)),
            old(self).thread.operation_stack@.len() >= 2 && !old(self).store.is_scope(
                old(self).thread.operation_stack@.last()@,
            ) ==> r == fails_with(ErrorKind::TypeError),
            r is Ok ==> r == yields_nothing(),
        decreases old(self).budget, 14int,
    {
        proof {
            crate::model::lemma_tokens_view(self.thread.operation_stack@);
            if self.thread.operation_stack@.len() > 0 {
                crate::model::lemma_store_view(self.store, self.thread.operation_stack@.last()@);
            }
        }
        reveal(m_exec_assign);
        reveal(m_assign_member);
        reveal(m_from_object);
        reveal(m_drop_token);
        if self.thread.operation_stack.len() < 2 {
            return Err(TriconeError::new(ErrorKind::IndexError));
        }
        let scope = self.pop_operand();
        let value = self.pop_operand();
        proof {
            let stack = old(self)@.stack;
            assert(stack.drop_last().drop_last() =~= stack.subrange(0, stack.len() - 2));
        }
        match (scope, value) {
            (Some(scope), Some(value)) => match Scope::from_object(scope, self) {
                Ok(scope) => {
                    let bound = scope.vars.assign_member(name.clone(), value, self);
                    let closed = self.drop_token(scope.vars);
                    match first_error(bound, closed) {
                        Ok(()) => Ok(None),
                        Err(e) => Err(e),
                    }
                },
                Err(e) => {
                    let _ = self.drop_token(value);
                    Err(e)
                },
            },
            _ => Err(TriconeError::new(ErrorKind::IndexError)),
        }
    }

    /// `GetTopScope`: yields a new handle to the scope of the active frame.
    /// Fails with `IndexError` where no frame is active.
    pub fn exec_get_top_scope(&mut self) -> (r: Result<Option<ObjectToken>, TriconeError>)
        ensures
            (final(self)@, result_view(r)) == m_exec_get_top_scope(old(self)@),
            same_but_store(*old(self), *final(self)),
            match old(self).top_scope() {
                None => r == fails_with(ErrorKind::IndexError)
                    && unchanged(*old(self), *final(self)),
                Some(scope) => r == yields(scope.vars)
                    && final(self).store.cells@ == old(self).store.retained(scope.vars@),
            },
    {
        proof {
            crate::model::lemma_frames_view(self.thread.frame_stack@);
        }
        let n = self.thread.frame_stack.len();
        if n == 0 {
            return Err(TriconeError::new(ErrorKind::IndexError));
        }
        let frame = &self.thread.frame_stack[n - 1];
        Ok(Some(frame.top_scope.vars.dup(&mut self.store)))
    }

    /// `GetModuleGlobals`: yields a new handle to the globals scope of the
    /// first module named `name`.  Fails with `NameError` where there is no
    /// such module.
    pub fn exec_get_module_globals(&mut self, name: &str) -> (r: Result<
        Option<ObjectToken>,
        TriconeError,
    >)
        ensures
            (final(self)@, result_view(r)) == m_exec_get_module_globals(old(self)@, name@),
            same_but_store(*old(self), *final(self)),
            match first_position(old(self).module_names(), name@) {
                None => r == fails_with(ErrorKind::NameError)
                    && unchanged(*old(self), *final(self)),
                Some(i) => r == yields(old(self).modules@[i].globals.vars)
                    && final(self).store.cells@
                    == old(self).store.retained(old(self).modules@[i].globals.vars@),
            },
    {
        match self.lookup_module_index(name) {
            None => Err(TriconeError::new(ErrorKind::NameError)),
            Some(index) => {
                let module = &self.modules[index.0];
                Ok(Some(module.globals.vars.dup(&mut self.store)))
            },
        }
    }

    /// `LookupName`: yields a new handle to what `name` is bound to in the
    /// scope chain of the active frame.  Fails with `IndexError` where no
    /// frame is active and with `NameError` where the name is not bound.
    pub fn exec_lookup_name(&mut self, name: &str) -> (r: Result<Option<ObjectToken>, TriconeError>)
        ensures
            (final(self)@, result_view(r)) == m_exec_lookup_name(old(self)@, name@),
            same_but_store(*old(self), *final(self)),
            match old(self).top_scope() {
                None => r == fails_with(ErrorKind::IndexError)
                    && unchanged(*old(self), *final(self)),
                Some(scope) => match old(self).store.resolves(scope.vars@, name@) {
                    None => r == fails_with(ErrorKind::NameError)
                        && unchanged(*old(self), *final(self)),
                    Some(token) => r == yields(token)
                        && final(self).store.cells@ == old(self).store.retained(token@),
                },
            },
    {
        proof {
            crate::model::lemma_frames_view(self.thread.frame_stack@);
        }
        let n = self.thread.frame_stack.len();
        if n == 0 {
            return Err(TriconeError::new(ErrorKind::IndexError));
        }
        let frame = &self.thread.frame_stack[n - 1];
        match frame.top_scope.lookup_name(name, &mut self.store) {
            Some(token) => Ok(Some(token)),
            None => Err(TriconeError::new(ErrorKind::NameError)),
        }
    }

    /// `GetMember`: pops an object, yields a new handle to its member
    /// `name` and gives the object's handle up.
    ///
    /// Fails with `IndexError` where the stack is empty, which changes
    /// nothing, or the object is gone, and with `NameError` where it has no
    /// such member.
    pub fn exec_get_member(&mut self, name: &str) -> (r: Result<Option<ObjectToken>, TriconeError>)
        ensures
            (final(self)@, result_view(r)) == m_exec_get_member(old(self)@, name@),
            steps_to(*old(self), *final(self)),
            old(self).thread.operation_stack@.len() == 0 ==> r == fails_with(ErrorKind::IndexError)
                && unchanged(*old(self), *final(self)),
            old(self).thread.operation_stack@.len() > 0 ==> {
                let item = old(self).thread.operation_stack@.last();
                &&& !old(self).store.live(item@) ==> r == fails_with(ErrorKind::IndexError)
                &&& old(self).store.live(item@) && old(self).store.member_of(item@, name@) is None
                    ==> r is Err
                &&& old(self).store.count(item@) > 1 ==> {
                    &&& final(self).budget == old(self).budget
                    &&& final(self).output@ == old(self).output@
                    &&& final(self).thread.frame_stack@ == old(self).thread.frame_stack@
                    &&& final(self).thread.operation_stack@
                        == old(self).thread.operation_stack@.drop_last()
                    &&& match old(self).store.member_of(item@, name@) {
                        Some(member) => r == yields(member) && final(self).store.cells@
                            == release_in(old(self).store.retained(member@), item@),
                        None => r == fails_with(ErrorKind::NameError) && final(self).store.cells@
                            == old(self).store.released(item@),
                    }
                }
            },
            r is Ok ==> r->Ok_0 is Some,
        decreases old(self).budget, 14int,
    {
        proof {
            crate::model::lemma_tokens_view(self.thread.operation_stack@);
        }
        reveal(m_exec_get_member);
        reveal(m_drop_token);
        let item = match self.pop_operand() {
            Some(item) => item,
            None => {
                return Err(TriconeError::new(ErrorKind::IndexError));
            },
        };
        if !self.store.is_live(item.index()) {
            return Err(TriconeError::new(ErrorKind::IndexError));
        }
        let member = item.get_member(name, &mut self.store);
        let released = self.drop_token(item);
        match member {
            Some(member) => match released {
                Ok(()) => Ok(Some(member)),
                Err(e) => {
                    let _ = self.drop_token(member);
                    Err(e)
                },
            },
            None => Err(TriconeError::new(ErrorKind::NameError)),
        }
    }

    /// `CallMethod`: takes the top `num_args + 1` operands, the last of
    /// which is the receiver, calls the receiver's method `name` on them
    /// and gives the operands up.
    ///
    /// Fails with `IndexError`, and changes nothing, where the stack holds
    /// too few operands.
    pub fn exec_call_method(&mut self, name: &str, num_args: usize, use_result: bool) -> (r:
        Result<Option<ObjectToken>, TriconeError>)
        ensures
            (final(self)@, result_view(r))
                == m_exec_call_method(old(self)@, name@, num_args, use_result),
            steps_to(*old(self), *final(self)),
            old(self).thread.operation_stack@.len() <= num_args ==> r == fails_with(
                ErrorKind::IndexError,
            ) && unchanged(*old(self), *final(self)),
            r is Ok ==> (r->Ok_0 is Some) == use_result,
        decreases old(self).budget, 14int,
    {
        proof {
            crate::model::lemma_tokens_view(self.thread.operation_stack@);
        }
        reveal(m_exec_call_method);
        reveal(m_call_method);
        reveal(m_release_seq);
        reveal(m_settle);
        reveal(m_finish_call);
        if self.thread.operation_stack.len() <= num_args {
            return Err(TriconeError::new(ErrorKind::IndexError));
        }
        let args = self.get_args_from_stack(num_args + 1);
        let res = self.call_method(name, args.as_slice());
        let released = self.release_all(args);
        match self.settle(res, released) {
            Ok(value) => self.finish_call(value, use_result),
            Err(e) => Err(e),
        }
    }

    /// `CallFunctionObject`: takes the top `num_args` operands and then a
    /// function object, calls the function on the operands and gives them
    /// and the function object up.
    ///
    /// Fails with `IndexError`, and changes nothing, where the stack holds
    /// too few operands; with `TypeError` where the object below the
    /// arguments is no function object.
    pub fn exec_call_function_object(&mut self, num_args: usize, use_result: bool) -> (r: Result<
        Option<ObjectToken>,
        TriconeError,
    >)
        ensures
            (final(self)@, result_view(r))
                == m_exec_call_function_object(old(self)@, num_args, use_result),
            steps_to(*old(self), *final(self)),
            old(self).thread.operation_stack@.len() <= num_args ==> r == fails_with(
                ErrorKind::IndexError,
            ) && unchanged(*old(self), *final(self)),
            old(self).thread.operation_stack@.len() > num_args ==> {
                let target = old(self).thread.operation_stack@[old(
                    self).thread.operation_stack@.len() - num_args - 1];
                old(self).store.live(target@) && !is_function_object(
                    old(self).store.object(target@),
                ) ==> r == fails_with(ErrorKind::TypeError)
            },
            r is Ok ==> (r->Ok_0 is Some) == use_result,
        decreases old(self).budget, 14int,
    {
        proof {
            crate::model::lemma_tokens_view(self.thread.operation_stack@);
        }
        reveal(m_exec_call_function_object);
        reveal(m_call);
        reveal(m_drop_token);
        reveal(m_settle);
        reveal(m_release_seq);
        reveal(m_finish_call);
        if self.thread.operation_stack.len() <= num_args {
            return Err(TriconeError::new(ErrorKind::IndexError));
        }
        let args = self.get_args_from_stack(num_args);
        proof {
            let stack = old(self)@.stack;
            let n = stack.len() - num_args;
            assert(stack.subrange(0, n).drop_last() =~= stack.subrange(0, n - 1));
            assert(stack.subrange(0, n).last() == stack[n - 1]);
        }
        let function_obj = match self.pop_operand() {
            Some(token) => token,
            None => {
                let _ = self.release_all(args);
                return Err(TriconeError::new(ErrorKind::IndexError));
            },
        };
        let res = match self.function_of(&function_obj) {
            Ok(function) => {
                let res = function.call(self, args.as_slice());
                let closed = self.drop_token(function.closure.vars);
                self.settle(res, closed)
            },
            Err(e) => Err(e),
        };
        let released = self.release_all(args);
        let dropped = self.drop_token(function_obj);
        match self.settle(res, first_error(released, dropped)) {
            Ok(value) => self.finish_call(value, use_result),
            Err(e) => Err(e),
        }
    }

    /// `DebugPrintObject`: looks at the top operand, if there is one, and
    /// leaves it where it is.  Nothing changes and nothing is yielded.
    pub fn exec_debug_print_object(&self) -> (r: Result<Option<ObjectToken>, TriconeError>)
        ensures
            r == yields_nothing(),
            result_view(r) == m_exec_debug_print_object(self@).1,
    {
        let _ = self.thread.operation_stack.as_slice().last();
        Ok(None)
    }

    /// Whether the instruction yields a value when it succeeds.
    pub open spec fn yields_value(insn: Instruction) -> bool {
        match insn {
            Instruction::CreateObject { .. } => true,
            Instruction::Assign { .. } => false,
            Instruction::GetTopScope => true,
            Instruction::GetModuleGlobals { .. } => true,
            Instruction::CallMethod { use_result, .. } => use_result,
            Instruction::GetMember { .. } => true,
            Instruction::LookupName { .. } => true,
            Instruction::CallFunctionObject { use_result, .. } => use_result,
            Instruction::CreateString { .. } => true,
            Instruction::CreateInt { .. } => true,
            Instruction::Diag => false,
            Instruction::DebugPrintObject => false,
        }
    }

    /// The number of operands that the instruction needs on the stack.
    pub open spec fn operands_needed(insn: Instruction) -> int {
        match insn {
            Instruction::CreateObject { num_args, .. } => num_args as int,
            Instruction::Assign { .. } => 2,
            Instruction::CallMethod { num_args, .. } => num_args + 1,
            Instruction::GetMember { .. } => 1,
            Instruction::CallFunctionObject { num_args, .. } => num_args + 1,
            _ => 0,
        }
    }

    /// Runs one instruction and returns the value that it yields.
    ///
    /// An instruction that finds fewer operands on the stack than it needs
    /// fails with `IndexError` and changes nothing.  The instructions that
    /// neither call nor give up anything, `GetTopScope`, `GetModuleGlobals`,
    /// `LookupName`, `Diag` and `DebugPrintObject`, are stated in full.
    pub fn run_instruction(&mut self, insn: &Instruction) -> (r: Result<
        Option<ObjectToken>,
        TriconeError,
    >)
        ensures
            (final(self)@, result_view(r)) == m_run_instruction(old(self)@, *insn),
            steps_to(*old(self), *final(self)),
            old(self).thread.operation_stack@.len() < Self::operands_needed(*insn) ==> r
                == fails_with(ErrorKind::IndexError) && unchanged(*old(self), *final(self)),
            r is Ok ==> (r->Ok_0 is Some) == Self::yields_value(*insn),
            match *insn {
                Instruction::GetTopScope => same_but_store(*old(self), *final(self))
                    && match old(self).top_scope() {
                    None => r == fails_with(ErrorKind::IndexError)
                        && unchanged(*old(self), *final(self)),
                    Some(scope) => r == yields(scope.vars)
                        && final(self).store.cells@ == old(self).store.retained(scope.vars@),
                },
                Instruction::GetModuleGlobals { name } => same_but_store(
                    *old(self),
                    *final(self),
                ) && match first_position(old(self).module_names(), name@) {
                    None => r == fails_with(ErrorKind::NameError)
                        && unchanged(*old(self), *final(self)),
                    Some(i) => r == yields(old(self).modules@[i].globals.vars)
                        && final(self).store.cells@ == old(self).store.retained(
                        old(self).modules@[i].globals.vars@,
                    ),
                },
                Instruction::LookupName { name } => same_but_store(*old(self), *final(self))
                    && match old(self).top_scope() {
                    None => r == fails_with(ErrorKind::IndexError)
                        && unchanged(*old(self), *final(self)),
                    Some(scope) => match old(self).store.resolves(scope.vars@, name@) {
                        None => r == fails_with(ErrorKind::NameError)
                            && unchanged(*old(self), *final(self)),
                        Some(token) => r == yields(token)
                            && final(self).store.cells@ == old(self).store.retained(token@),
                    },
                },
                Instruction::Diag => r == yields_nothing() && unchanged(*old(self), *final(self)),
                Instruction::DebugPrintObject => r == yields_nothing()
                    && unchanged(*old(self), *final(self)),
                Instruction::CreateObject { type_, .. } => !old(self).has_type(type_) ==> r
                    == fails_with(ErrorKind::IndexError) && unchanged(*old(self), *final(self)),
                _ => true,
            },
        decreases old(self).budget, 15int,
    {
        reveal(m_run_instruction);
        reveal(m_create_object);
        reveal(m_exec_assign);
        reveal(m_exec_call_method);
        reveal(m_exec_get_member);
        reveal(m_exec_call_function_object);
        reveal(m_create_native);
        reveal(crate::semantics::m_create_holding);
        match insn {
            Instruction::CreateObject { type_, num_args } => {
                match self.create_object(*type_, *num_args) {
                    Ok(token) => Ok(Some(token)),
                    Err(e) => Err(e),
                }
            },
            Instruction::Assign { name } => self.exec_assign(name),
            Instruction::GetTopScope => self.exec_get_top_scope(),
            Instruction::GetModuleGlobals { name } => self.exec_get_module_globals(name.as_str()),
            Instruction::CallMethod { name, num_args, use_result } => self.exec_call_method(
                name.as_str(),
                *num_args,
                *use_result,
            ),
            Instruction::GetMember { name } => self.exec_get_member(name.as_str()),
            Instruction::LookupName { name } => self.exec_lookup_name(name.as_str()),
            Instruction::CallFunctionObject { num_args, use_result } => {
                self.exec_call_function_object(*num_args, *use_result)
            },
            Instruction::CreateString { value } => {
                match crate::string::create_string(self, value.clone()) {
                    Ok(token) => Ok(Some(token)),
                    Err(e) => Err(e),
                }
            },
            Instruction::CreateInt { value } => match crate::int_::create_int(self, *value) {
                Ok(token) => Ok(Some(token)),
                Err(e) => Err(e),
            },
            Instruction::Diag => Ok(None),
            Instruction::DebugPrintObject => self.exec_debug_print_object(),
        }
    }
}

} // verus!
