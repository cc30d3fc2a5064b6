//! Giving up handles: reference counts, the destruction of objects and
//! the hooks that run on it.
use vstd::prelude::*;
use crate::argvec::{argument_slice, held, single_argument, take_argument};
use crate::consts::{unit_type_id, DROP_METHOD_NAME};
use crate::error::{ErrorKind, TriconeError};
use crate::function::Function;
use crate::interpreter::{first_error, same_but_store, steps_to, unchanged, Interpreter, MAX_DEPTH};
use crate::model::{
    bindings,
    lemma_tokens_pop,
    lemma_tokens_single,
    lemma_values_pop,
    option_view,
    result_view,
    tokens_view,
    unit_result_view,
    values_of,
};
use crate::object::{Object, ObjectToken, Payload};
use crate::semantics::{
    m_assign_member,
    m_call,
    m_destroy,
    m_drop_token,
    m_drop_unit,
    m_hook,
    m_release_seq,
    m_settle,
};

verus! {

impl ObjectToken {
    /// Binds `name` to `obj` in the object behind this handle, and gives up
    /// the handle that the name was bound to before.  Where the object is
    /// gone, `obj` is given up and the result is an `IndexError`.
    pub fn assign_member(&self, name: String, obj: ObjectToken,
        interpreter: &mut Interpreter) -> (r:
        Result<(), TriconeError>)
        ensures
            (final(interpreter)@, unit_result_view(r)) == m_assign_member(
                old(interpreter)@,
                self@,
                name@,
                obj@,
            ),
            steps_to(*old(interpreter), *final(interpreter)),
            !old(interpreter).store.live(self@) ==> r is Err,
            old(interpreter).store.live(self@) && !old(interpreter).store.object(
                self@,
            ).members@.dom().contains(name@) ==> {
                &&& r == Ok::<(), TriconeError>(())
                &&& same_but_store(*old(interpreter), *final(interpreter))
                &&& old(interpreter).store.differs_in_object(&final(interpreter).store, self@)
                &&& final(interpreter).store.object(self@).members@
                    == old(interpreter).store.object(self@).members@.insert(name@, obj)
                &&& final(interpreter).store.object(self@).data == old(interpreter).store.object(
                    self@,
                ).data
            },
        decreases old(interpreter).budget, 1int,
    {
        reveal(m_assign_member);
        reveal(m_drop_token);
        match interpreter.store.put_member(self.index(), name, obj) {
            Ok(Some(displaced)) => interpreter.drop_token(displaced),
            Ok(None) => Ok(()),
            Err(value) => {
                let _ = interpreter.drop_token(value);
                Err(TriconeError::new(ErrorKind::IndexError))
            },
        }
    }
}

impl Interpreter {
    /// Gives up a handle.
    ///
    /// Where other handles to the object remain, its count goes down by
    /// one.  Where this was the last handle, the object is destroyed, which
    /// takes one step from the budget and counts as one level of nesting
    /// while it runs: see [`Interpreter::destroy`].  A handle whose object
    /// is gone is refused with `IndexError`.
    pub fn drop_token(&mut self, token: ObjectToken) -> (r: Result<(), TriconeError>)
        ensures
            (final(self)@, unit_result_view(r)) == m_drop_token(old(self)@, token@),
            steps_to(*old(self), *final(self)),
            old(self).store.count(token@) == 0 ==> r == Err::<(), TriconeError>(
                TriconeError { kind: ErrorKind::IndexError },
            ) && unchanged(*old(self), *final(self)),
            old(self).store.count(token@) > 1 ==> r == Ok::<(), TriconeError>(())
                && same_but_store(*old(self), *final(self))
                    && final(self).store.cells@ == old(self).store.released(token@),
            old(self).store.count(token@) == 1 && old(self).budget == 0 ==> r == Err::<
                (),
                TriconeError,
            >(TriconeError { kind: ErrorKind::BudgetExhausted }) && unchanged(
                *old(self),
                *final(self),
            ),
            old(self).store.count(token@) == 1 && old(self).budget > 0 && old(self).depth
                >= MAX_DEPTH ==> r == Err::<(), TriconeError>(
                TriconeError { kind: ErrorKind::DepthExceeded },
            ) && unchanged(*old(self), *final(self)),
            old(self).store.count(token@) == 1 && r is Ok ==> !final(self).store.live(token@),
        decreases old(self).budget, 0int,
    {
        reveal(m_drop_token);
        reveal(m_destroy);
        let index = token.index();
        let count = self.store.strong_count(index);
        if count == 0 {
            return Err(TriconeError::new(ErrorKind::IndexError));
        }
        if count != 1 {
            self.store.release(index);
            return Ok(());
        }
        match self.enter() {
            Err(e) => Err(e),
            Ok(()) => {
                let destroyed = self.destroy(token);
                self.leave();
                destroyed
            },
        }
    }

    /// Destroys the object behind the last handle to it: runs the `drop`
    /// method of the object's type, unless the type is the unit type, with
    /// the object as its receiver, then takes the object out of the store
    /// and gives up the handles that it held: the closure of a function
    /// payload and every member, the last bound first.  A `drop` method
    /// that leaves another handle to its receiver behind keeps the object
    /// alive, and is a `TypeError`.
    pub fn destroy(&mut self, token: ObjectToken) -> (r: Result<(), TriconeError>)
        ensures
            (final(self)@, unit_result_view(r)) == m_destroy(old(self)@, token@),
            steps_to(*old(self), *final(self)),
            old(self).store.count(token@) == 1 && r is Ok ==> !final(self).store.live(token@),
        decreases old(self).budget, 30int,
    {
        reveal(m_destroy);
        reveal(m_hook);
        reveal(m_drop_token);
        reveal(m_release_seq);
        let index = token.index();
        let is_unit = match self.type_of(&token) {
            Some(ty) => ty == unit_type_id(),
            None => {
                return Err(TriconeError::new(ErrorKind::IndexError));
            },
        };
        let mut outcome: Result<(), TriconeError> = Ok(());
        if !is_unit {
            outcome = self.maybe_call_no_args_no_ret_method(&token, DROP_METHOD_NAME);
        }
        let count = self.store.strong_count(index);
        if count != 1 {
            self.store.release(index);
            return first_error(outcome, Err(TriconeError::new(ErrorKind::TypeError)));
        }
        let ghost hooked = *self;
        match self.store.remove(index) {
            Some(object) => {
                let Object { members, type_: _, data } = object;
                match data {
                    Payload::Function(func) => {
                        if self.store.is_live(func.closure.vars.index()) {
                            let closed = self.drop_token(func.closure.vars);
                            outcome = first_error(outcome, closed);
                        }
                    },
                    _ => {},
                }
                let mut members = members;
                loop
                    invariant
                        steps_to(*old(self), *self),
                        0 <= token@ < self.store.cells@.len(),
                        !self.store.live(token@),
                        m_release_seq(
                            self@,
                            values_of(bindings(members.entries@)),
                            unit_result_view(outcome),
                        ) == m_destroy(old(self)@, token@),
                    ensures
                        (self@, unit_result_view(outcome)) == m_destroy(old(self)@, token@),
                    decreases members.entries@.len(),
                {
                    let ghost before = members.entries@;
                    reveal(m_release_seq);
                    reveal(m_drop_token);
                    match members.pop() {
                        Some(entry) => {
                            proof {
                                lemma_values_pop(before);
                            }
                            let released = self.drop_token(entry.value);
                            outcome = first_error(outcome, released);
                        },
                        None => {
                            proof {
                                crate::model::lemma_values_empty(before);
                            }
                            break ;
                        },
                    }
                }
            },
            None => {},
        }
        outcome
    }

    /// Calls the method `name` of the object's type with the object as its
    /// only argument, if the type has such a method.  The method has to
    /// yield nothing, or a unit object.
    pub fn maybe_call_no_args_no_ret_method(&mut self, token: &ObjectToken, name: &str) -> (r:
        Result<(), TriconeError>)
        ensures
            (final(self)@, unit_result_view(r)) == m_hook(old(self)@, token@, name@),
            steps_to(*old(self), *final(self)),
            !old(self).store.live(token@) ==> r == Err::<(), TriconeError>(
                TriconeError { kind: ErrorKind::IndexError },
            ) && unchanged(*old(self), *final(self)),
            old(self).store.live(token@) && old(self).method_of(
                old(self).store.object(token@).type_,
                name@,
            ) is None ==> r == Ok::<(), TriconeError>(()) && unchanged(*old(self), *final(self)),
        decreases old(self).budget, 5int,
    {
        reveal(m_hook);
        reveal(m_call);
        reveal(m_drop_unit);
        reveal(m_release_seq);
        reveal(m_drop_token);
        let ty = match self.type_of(token) {
            Some(ty) => ty,
            None => {
                return Err(TriconeError::new(ErrorKind::IndexError));
            },
        };
        match self.get_method_of_type(ty, name) {
            None => Ok(()),
            Some(method) => {
                let receiver = token.dup(&mut self.store);
                let mut args = single_argument(receiver);
                proof {
                    lemma_tokens_single(receiver);
                }
                let res = method.call(self, argument_slice(&args));
                let mut outcome = match res {
                    Ok(value) => self.drop_unit(value),
                    Err(e) => Err(e),
                };
                let ghost dropped = *self;
                let ghost first = outcome;
                loop
                    invariant
                        steps_to(*old(self), *self),
                        self.budget <= dropped.budget,
                        held(args).len() <= 1,
                        m_release_seq(self@, tokens_view(held(args)), unit_result_view(outcome))
                            == m_release_seq(dropped@, seq![token@], unit_result_view(first)),
                    ensures
                        (self@, unit_result_view(outcome)) == m_release_seq(
                            dropped@,
                            seq![token@],
                            unit_result_view(first),
                        ),
                    decreases held(args).len(),
                {
                    let ghost before = held(args);
                    reveal(m_release_seq);
                    reveal(m_drop_token);
                    match take_argument(&mut args) {
                        Some(arg) => {
                            proof {
                                lemma_tokens_pop(before);
                            }
                            let released = self.drop_token(arg);
                            outcome = first_error(outcome, released);
                        },
                        None => {
                            proof {
                                crate::model::lemma_tokens_empty(before);
                            }
                            break ;
                        },
                    }
                }
                let closed = self.drop_token(method.closure.vars);
                first_error(outcome, closed)
            },
        }
    }

    /// Gives up what a hook returned: nothing, or a unit object.  Another
    /// object is given up too, and is a `TypeError`.
    pub fn drop_unit(&mut self, unit: Option<ObjectToken>) -> (r: Result<(), TriconeError>)
        ensures
            (final(self)@, unit_result_view(r)) == m_drop_unit(old(self)@, option_view(unit)),
            steps_to(*old(self), *final(self)),
            unit is None ==> r == Ok::<(), TriconeError>(()) && unchanged(*old(self), *final(self)),
            unit is Some && !(old(self).store.live(unit->0@) && old(self).store.object(
                unit->0@,
            ).type_ == unit_type_id()) ==> r is Err,
        decreases old(self).budget, 4int,
    {
        reveal(m_drop_unit);
        reveal(m_drop_token);
        
        match unit {
            None => Ok(()),
            Some(obj) => {
                let is_unit = match self.type_of(&obj) {
                    Some(ty) => ty == unit_type_id(),
                    None => false,
                };
                let released = self.drop_token(obj);
                if is_unit {
                    released
                } else {
                    Err(TriconeError::new(ErrorKind::TypeError))
                }
            },
        }
    }

    /// Gives up every handle of `tokens`, the last first, and returns the
    /// first error.
    pub fn release_all(&mut self, tokens: Vec<ObjectToken>) -> (r: Result<(), TriconeError>)
        ensures
            (final(self)@, unit_result_view(r)) == m_release_seq(
                old(self)@,
                tokens_view(tokens@),
                Ok(()),
            ),
            steps_to(*old(self), *final(self)),
            tokens@.len() == 0 ==> r == Ok::<(), TriconeError>(()) && unchanged(
                *old(self),
                *final(self),
            ),
        decreases old(self).budget, 3int,
    {
        reveal(m_release_seq);
        reveal(m_drop_token);
        let ghost given = tokens@;
        let mut tokens = tokens;
        let mut outcome: Result<(), TriconeError> = Ok(());
        loop
            invariant
                steps_to(*old(self), *self),
                given.len() == 0 ==> outcome == Ok::<(), TriconeError>(()) && unchanged(
                    *old(self),
                    *self,
                ) && tokens@.len() == 0,
                m_release_seq(self@, tokens_view(tokens@), unit_result_view(outcome))
                    == m_release_seq(old(self)@, tokens_view(given), Ok(())),
            ensures
                (self@, unit_result_view(outcome)) == m_release_seq(
                    old(self)@,
                    tokens_view(given),
                    Ok(()),
                ),
            decreases tokens@.len(),
        {
            let ghost before = tokens@;
            reveal(m_release_seq);
            reveal(m_drop_token);
            match tokens.pop() {
                Some(token) => {
                    proof {
                        lemma_tokens_pop(before);
                    }
                    let released = self.drop_token(token);
                    outcome = first_error(outcome, released);
                },
                None => {
                    proof {
                        crate::model::lemma_tokens_empty(before);
                    }
                    break ;
                },
            }
        }
        outcome
    }

    /// The result of a call after its clean-up: the error of the call, else
    /// the error of the clean-up, else the value of the call.  A value that
    /// an error of the clean-up supersedes is given up.
    pub fn settle(
        &mut self,
        res: Result<Option<ObjectToken>, TriconeError>,
        cleanup: Result<(), TriconeError>,
    ) -> (r: Result<Option<ObjectToken>, TriconeError>)
        ensures
            (final(self)@, result_view(r)) == m_settle(
                old(self)@,
                result_view(res),
                unit_result_view(cleanup),
            ),
            steps_to(*old(self), *final(self)),
            res is Err ==> r == res && unchanged(*old(self), *final(self)),
            res is Ok && cleanup is Ok ==> r == res && unchanged(*old(self), *final(self)),
            res is Ok && cleanup is Err ==> r == Err::<Option<ObjectToken>, TriconeError>(
                cleanup->Err_0,
            ),
        decreases old(self).budget, 3int,
    {
        reveal(m_settle);
        reveal(m_drop_token);
        match res {
            Err(e) => Err(e),
            Ok(value) => match cleanup {
                Ok(()) => Ok(value),
                Err(e) => {
                    match value {
                        Some(token) => {
                            let _ = self.drop_token(token);
                        },
                        None => {},
                    }
                    Err(e)
                },
            },
        }
    }
}

} // verus!
