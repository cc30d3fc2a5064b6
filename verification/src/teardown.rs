//! Taking the interpreter down.
use vstd::prelude::*;
use crate::error::TriconeError;
use crate::interpreter::Interpreter;
use crate::model::{lemma_tokens_push, tokens_view, unit_result_view};
use crate::object::ObjectToken;
use crate::semantics::m_teardown;
use crate::types::{registry_globals, registry_types};

verus! {

impl Interpreter {
    /// Takes the interpreter down: gives up every handle that the registry
    /// holds and empties the module table.
    ///
    /// The handles are given up as `release_all` gives them up, the last
    /// first: the globals scopes of the modules, from the last module to
    /// the first, and then, from the last type to the first, the closures
    /// of its methods and its scope.  The registry stays in place until
    /// all are given up, so the `drop` methods of the objects that go with
    /// the globals still find their types and the scopes of those types.
    /// Returns the first error; the module table is emptied in any case.
    pub fn teardown(&mut self) -> (r: Result<(), TriconeError>)
        ensures
            (final(self)@, unit_result_view(r)) == m_teardown(old(self)@),
            final(self).modules@.len() == 0,
            final(self).budget <= old(self).budget,
            final(self).depth == old(self).depth,
            old(self).store.grows_to(&final(self).store),
            final(self).thread.frame_stack@.len() == old(self).thread.frame_stack@.len(),
            old(self).output@.len() <= final(self).output@.len(),
            forall|i: int|
                0 <= i < old(self).output@.len()
                    ==> (#[trigger] final(self).output@[i]) == old(self).output@[i],
    {
        let mut held: Vec<ObjectToken> = Vec::new();
        proof {
            crate::model::lemma_tokens_empty(held@);
        }
        let mut i: usize = 0;
        while i < self.modules.len()
            invariant
                i <= self.modules@.len(),
                *self == *old(self),
                tokens_view(held@) == registry_types(self.modules@, i as int),
            decreases self.modules@.len() - i,
        {
            let ghost so_far = tokens_view(held@);
            self.modules[i].hand_over_types(&mut held);
            i = i + 1;
        }
        let mut i: usize = 0;
        while i < self.modules.len()
            invariant
                i <= self.modules@.len(),
                *self == *old(self),
                tokens_view(held@) == registry_types(
                    self.modules@,
                    self.modules@.len() as int,
                ) + registry_globals(self.modules@, i as int),
            decreases self.modules@.len() - i,
        {
            let globals = ObjectToken::at(self.modules[i].globals.vars.index());
            proof {
                lemma_tokens_push(held@, globals);
                let types = registry_types(self.modules@, self.modules@.len() as int);
                assert((types + registry_globals(self.modules@, i as int)).push(globals@) =~= types
                    + registry_globals(self.modules@, i + 1));
            }
            held.push(globals);
            i = i + 1;
        }
        let released = self.release_all(held);
        self.modules = Vec::new();
        released
    }
}

} // verus!
