//! Frames and scopes around the body of a call, and the running of
//! instruction sequences.
use vstd::prelude::*;
use crate::consts::unit_type_id;
use crate::error::{ErrorKind, TriconeError};
use crate::function::{Function, Scope};
use crate::instruction::Instruction;
use crate::interpreter::{first_error, steps_to, unchanged, Interpreter};
use crate::model::{function_view, option_view, result_view, tokens_view, unit_result_view};
use crate::object::ObjectToken;
use crate::scope::Frame;
use crate::semantics::{
    m_create_object,
    m_drop_token,
    m_invoke,
    m_pop_scope,
    m_run_code,
    m_run_instruction,
    m_settle,
    m_with_new_frame,
    m_with_new_scope,
    m_yield,
};

verus! {

impl Frame {
    /// Leaves the innermost scope: the frame's scope becomes the parent of
    /// the scope that it had, and the handle to that scope is given up.
    /// Fails with `NameError` where the scope has no parent and with
    /// `TypeError` where its parent is no scope; the frame is then as it
    /// was.
    pub fn pop_scope(&mut self, interpreter: &mut Interpreter) -> (r: Result<(), TriconeError>)
        ensures
            (final(interpreter)@, final(self).top_scope.vars@, unit_result_view(r)) == m_pop_scope(
                old(interpreter)@,
                old(self).top_scope.vars@,
            ),
            steps_to(*old(interpreter), *final(interpreter)),
            match old(interpreter).store.parent_of(old(self).top_scope.vars@) {
                None => r == Err::<(), TriconeError>(TriconeError { kind: ErrorKind::NameError })
                    && *final(self) == *old(self) && unchanged(
                    *old(interpreter),
                    *final(interpreter),
                ),
                Some(link) => if old(interpreter).store.is_scope(link@) {
                    final(self).top_scope.vars == link
                } else {
                    r == Err::<(), TriconeError>(TriconeError { kind: ErrorKind::TypeError })
                        && *final(self) == *old(self) && unchanged(
                        *old(interpreter),
                        *final(interpreter),
                    )
                },
            },
        decreases old(interpreter).budget, 2int,
    {
        reveal(m_pop_scope);
        reveal(m_drop_token);
        match self.top_scope.parent(&mut interpreter.store) {
            Ok(Some(parent)) => {
                let mut inner = parent;
                std::mem::swap(&mut inner, &mut self.top_scope);
                interpreter.drop_token(inner.vars)
            },
            Ok(None) => Err(TriconeError::new(ErrorKind::NameError)),
            Err(e) => Err(e),
        }
    }
}

impl Interpreter {
    /// Runs `function` on `args` in a new frame whose scope is a new child
    /// of `scope`, and pops the frame again: its two scopes are given up,
    /// the inner one first.
    pub fn with_new_frame(&mut self, scope: Scope, function: &Function, args: &[ObjectToken]) -> (r:
        Result<Option<ObjectToken>, TriconeError>)
        ensures
            (final(self)@, result_view(r)) == m_with_new_frame(
                old(self)@,
                scope.vars@,
                function_view(*function),
                tokens_view(args@),
            ),
            steps_to(*old(self), *final(self)),
        decreases old(self).budget, 18int,
    {
        reveal(m_with_new_frame);
        reveal(m_invoke);
        reveal(m_settle);
        reveal(m_pop_scope);
        reveal(m_drop_token);
        proof {
            crate::model::lemma_store_view(self.store, 0);
        }
        let mut frame = Frame::new(scope);
        frame.push_scope(&mut self.store);
        self.push_frame(frame);
        let ghost pushed = *self;
        let res = function.invoke(self, args);
        assert(self.thread.frame_stack@.len() == pushed.thread.frame_stack@.len());
        match self.pop_frame() {
            Some(frame) => {
                let mut frame = frame;
                let left = frame.pop_scope(self);
                let closed = self.drop_token(frame.top_scope.vars);
                self.settle(res, first_error(left, closed))
            },
            None => self.settle(res, Err(TriconeError::new(ErrorKind::IndexError))),
        }
    }

    /// Runs `function` on `args` in a new nested scope of the active frame,
    /// and leaves that scope again.  Fails with `IndexError` where no frame
    /// is active.
    pub fn with_new_scope(&mut self, function: &Function, args: &[ObjectToken]) -> (r: Result<
        Option<ObjectToken>,
        TriconeError,
    >)
        ensures
            (final(self)@, result_view(r)) == m_with_new_scope(
                old(self)@,
                function_view(*function),
                tokens_view(args@),
            ),
            steps_to(*old(self), *final(self)),
        decreases old(self).budget, 18int,
    {
        reveal(m_with_new_scope);
        reveal(m_invoke);
        reveal(m_settle);
        reveal(m_pop_scope);
        proof {
            crate::model::lemma_store_view(self.store, 0);
        }
        match self.pop_frame() {
            None => {
                return Err(TriconeError::new(ErrorKind::IndexError));
            },
            Some(frame) => {
                let mut frame = frame;
                frame.push_scope(&mut self.store);
                self.push_frame(frame);
            },
        }
        let res = function.invoke(self, args);
        match self.pop_frame() {
            Some(frame) => {
                let mut frame = frame;
                let left = frame.pop_scope(self);
                self.push_frame(frame);
                self.settle(res, left)
            },
            None => self.settle(res, Err(TriconeError::new(ErrorKind::IndexError))),
        }
    }

    /// Runs a sequence of instructions, each once and in order.  The value
    /// that an instruction yields is pushed onto the operand stack before
    /// the next instruction runs.  The result is the value of the last
    /// instruction or, where the sequence is empty or its last instruction
    /// yielded nothing, a new unit object.  The first error ends the run.
    pub fn run_code(&mut self, instructions: &[Instruction]) -> (r: Result<
        Option<ObjectToken>,
        TriconeError,
    >)
        ensures
            (final(self)@, result_view(r)) == m_run_code(old(self)@, instructions@, 0, None),
            steps_to(*old(self), *final(self)),
            instructions@.len() == 0 ==> (final(self)@, result_view(r)) == m_yield(
                m_create_object(old(self)@, unit_type_id(), 0),
            ),
            r is Ok ==> r->Ok_0 is Some,
        decreases old(self).budget, 16int,
    {
        reveal(m_run_code);
        reveal(m_run_instruction);
        reveal(m_create_object);
        let mut prev: Option<ObjectToken> = None;
        let mut i: usize = 0;
        while i < instructions.len()
            invariant
                i <= instructions@.len(),
                steps_to(*old(self), *self),
                i == 0 ==> prev is None && unchanged(*old(self), *self),
                m_run_code(self@, instructions@, i as int, option_view(prev)) == m_run_code(
                    old(self)@,
                    instructions@,
                    0,
                    None,
                ),
            decreases instructions@.len() - i,
        {
            reveal(m_run_code);
            reveal(m_run_instruction);
            match prev {
                Some(value) => {
                    self.push_operand(value);
                },
                None => {},
            }
            match self.run_instruction(&instructions[i]) {
                Ok(value) => {
                    prev = value;
                },
                Err(e) => {
                    return Err(e);
                },
            }
            i = i + 1;
        }
        match prev {
            Some(value) => Ok(Some(value)),
            None => match self.get_unit_object() {
                Ok(unit) => Ok(Some(unit)),
                Err(e) => Err(e),
            },
        }
    }
}

} // verus!
