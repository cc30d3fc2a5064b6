//! The scope chain: creation of scopes, the parent link and name lookup.
use vstd::prelude::*;
use crate::consts::{scope_type_id, PARENT_MEMBER_NAME};
use crate::error::{ErrorKind, TriconeError};
use crate::function::Scope;
use crate::interpreter::{same_but_store, steps_to, unchanged, Interpreter};
use crate::semantics::{m_drop_token, m_from_object};
use crate::model::{
    lemma_child_view,
    lemma_lookup_view,
    lemma_member_view,
    lemma_raw_view,
    m_child,
    m_is_scope,
    m_lookup,
    m_member_of,
    m_raw,
    m_retain,
    option_view,
};
use crate::object::{Object, ObjectStore, ObjectToken, Payload, SObject};

verus! {

/// One activation of a function: the innermost scope of its scope chain.
pub struct Frame {
    pub top_scope: Scope,
}

/// The state of one thread of execution: the operand stack, which all
/// frames share, and the stack of active frames.
pub struct Thread {
    pub operation_stack: Vec<ObjectToken>,
    pub frame_stack: Vec<Frame>,
}

/// The binding of `name` that is visible from the scope object at `scope`:
/// the scope's own binding if it has one, else what is visible from its
/// parent, following at most `steps` parent links.
pub open spec fn lookup_in(
    cells: Seq<Option<SObject>>,
    scope: int,
    name: Seq<char>,
    steps: nat,
) -> Option<ObjectToken>
    decreases steps,
{
    if !(0 <= scope < cells.len() && cells[scope] is Some) {
        None
    } else {
        let members = cells[scope]->0.object.members@;
        if members.dom().contains(name) {
            Some(members[name])
        } else if steps > 0 && members.dom().contains(PARENT_MEMBER_NAME@) {
            lookup_in(cells, members[PARENT_MEMBER_NAME@]@, name, (steps - 1) as nat)
        } else {
            None
        }
    }
}

impl ObjectStore {
    /// The binding of `name` that is visible from the scope object at
    /// `scope`.  A chain of distinct scopes is never longer than the store,
    /// so as many steps as the store has cells reach every scope of it.
    pub open spec fn resolves(&self, scope: int, name: Seq<char>) -> Option<ObjectToken> {
        lookup_in(self.cells@, scope, name, self.cells@.len())
    }

    /// Whether the object at `id` lives and is a scope.
    pub open spec fn is_scope(&self, id: int) -> bool {
        self.live(id) && self.object(id).type_ == scope_type_id()
    }
}

/// A scope object that is bound to the given parent and to nothing else.
pub open spec fn is_child_of(obj: Object, parent: ObjectToken) -> bool {
    &&& obj.type_ == scope_type_id()
    &&& obj.data == Payload::Empty
    &&& obj.members.entries@.len() == 1
    &&& obj.members.entries@[0].name@ == PARENT_MEMBER_NAME@
    &&& obj.members.entries@[0].value == parent
    &&& obj.members@ == Map::<Seq<char>, ObjectToken>::empty().insert(PARENT_MEMBER_NAME@, parent)
}

impl ObjectStore {
    /// Whether the object at `index` lives and is a scope.
    pub fn is_scope_at(&self, index: usize) -> (scope: bool)
        ensures
            scope == self.is_scope(index as int),
            scope == m_is_scope(self@, index as int),
    {
        match self.get(index) {
            Some(object) => object.type_ == scope_type_id(),
            None => false,
        }
    }
}

impl Scope {
    /// A new scope without a parent and without bindings.
    pub fn new(store: &mut ObjectStore) -> (scope: Scope)
        ensures
            scope.vars@ == old(store).cells@.len(),
            final(store).cells@.len() == old(store).cells@.len() + 1,
            final(store).cells@.subrange(0, old(store).cells@.len() as int) == old(store).cells@,
            final(store).count(scope.vars@) == 1,
            final(store).is_scope(scope.vars@),
            final(store).object(scope.vars@).members@ == Map::<Seq<char>, ObjectToken>::empty(),
            final(store).object(scope.vars@).members.entries@.len() == 0,
            final(store).object(scope.vars@).data == Payload::Empty,
            final(store)@ == old(store)@.push(Some(m_raw(scope_type_id()))),
            old(store).tables_distinct() ==> final(store).tables_distinct(),
    {
        let vars = ObjectToken::new(Object::raw_new(scope_type_id()), store);
        assert(store.cells@.subrange(0, old(store).cells@.len() as int) =~= old(store).cells@);
        proof {
            lemma_raw_view(store.cells@.last()->0);
        }
        Scope { vars }
    }

    /// A new scope whose parent is this one.  The handle to this scope
    /// becomes the child's parent link.
    pub fn into_child(self, store: &mut ObjectStore) -> (child: Scope)
        ensures
            child.vars@ == old(store).cells@.len(),
            final(store).cells@.len() == old(store).cells@.len() + 1,
            final(store).cells@.subrange(0, old(store).cells@.len() as int) == old(store).cells@,
            final(store).count(child.vars@) == 1,
            final(store).live(child.vars@),
            is_child_of(final(store).object(child.vars@), self.vars),
            final(store)@ == old(store)@.push(Some(m_child(self.vars@))),
            old(store).tables_distinct() ==> final(store).tables_distinct(),
    {
        let mut obj = Object::raw_new(scope_type_id());
        let link = String::from_str(PARENT_MEMBER_NAME);
        obj.members.insert(link, self.vars);
        let vars = ObjectToken::new(obj, store);
        assert(store.cells@.subrange(0, old(store).cells@.len() as int) =~= old(store).cells@);
        proof {
            lemma_child_view(store.cells@.last()->0, self.vars);
        }
        Scope { vars }
    }

    /// Takes a handle for a scope.  Where the object behind it lives and
    /// is a scope, the scope holds the handle and nothing changes.
    /// Otherwise the handle is given up, as `drop_token` gives it up, and
    /// the result is a `TypeError`.
    pub fn from_object(obj: ObjectToken, interpreter: &mut Interpreter) -> (scope: Result<
        Scope,
        TriconeError,
    >)
        ensures
            (
                final(interpreter)@,
                match scope {
                    Ok(taken) => Ok::<int, ErrorKind>(taken.vars@),
                    Err(e) => Err::<int, ErrorKind>(e.kind),
                },
            ) == m_from_object(old(interpreter)@, obj@),
            steps_to(*old(interpreter), *final(interpreter)),
            old(interpreter).store.is_scope(obj@) ==> scope == Ok::<Scope, TriconeError>(
                Scope { vars: obj },
            ) && unchanged(*old(interpreter), *final(interpreter)),
            !old(interpreter).store.is_scope(obj@) ==> scope == Err::<Scope, TriconeError>(
                TriconeError { kind: ErrorKind::TypeError },
            ),
            !old(interpreter).store.is_scope(obj@) && old(interpreter).store.count(obj@) > 1 ==> {
                &&& same_but_store(*old(interpreter), *final(interpreter))
                &&& final(interpreter).store.cells@ == old(interpreter).store.released(obj@)
            },
        decreases old(interpreter).budget, 1int,
    {
        reveal(m_from_object);
        reveal(m_drop_token);
        if interpreter.store.is_scope_at(obj.index()) {
            Ok(Scope { vars: obj })
        } else {
            let _ = interpreter.drop_token(obj);
            Err(TriconeError::new(ErrorKind::TypeError))
        }
    }

    /// The parent link of the scope object behind `vars`, if that object
    /// lives and has one.
    pub fn with_parent<'a>(vars: &ObjectToken, store: &'a ObjectStore) -> (parent: Option<
        &'a ObjectToken,
    >)
        ensures
            parent == if store.live(vars@) && store.object(vars@).members@.dom().contains(
                PARENT_MEMBER_NAME@,
            ) {
                Some(&store.object(vars@).members@[PARENT_MEMBER_NAME@])
            } else {
                None
            },
    {
        vars.with_member_ref(PARENT_MEMBER_NAME, store)
    }

    /// A new handle to the parent scope.  `Ok(None)` at the root; a
    /// `TypeError` where the parent link does not lead to a live scope.
    pub fn parent(&self, store: &mut ObjectStore) -> (parent: Result<Option<Scope>, TriconeError>)
        ensures
            match m_member_of(old(store)@, self.vars@, PARENT_MEMBER_NAME@) {
                None => parent == Ok::<Option<Scope>, TriconeError>(None)
                    && final(store)@ == old(store)@,
                Some(link) => if m_is_scope(old(store)@, link) {
                    parent is Ok && parent->Ok_0 is Some && parent->Ok_0->0.vars@ == link
                        && final(store)@ == m_retain(old(store)@, link)
                } else {
                    parent == Err::<Option<Scope>, TriconeError>(
                        TriconeError { kind: ErrorKind::TypeError },
                    ) && final(store)@ == old(store)@
                },
            },
            match old(store).parent_of(self.vars@) {
                None => parent == Ok::<Option<Scope>, TriconeError>(None) && final(store).cells@
                    == old(store).cells@,
                Some(link) => if old(store).is_scope(link@) {
                    parent == Ok::<Option<Scope>, TriconeError>(Some(Scope { vars: link }))
                        && final(store).cells@ == old(store).retained(link@)
                } else {
                    parent == Err::<Option<Scope>, TriconeError>(
                        TriconeError { kind: ErrorKind::TypeError },
                    ) && final(store).cells@ == old(store).cells@
                },
            },
    {
        reveal(crate::model::bindings);
        reveal(crate::model::cells_view);
        reveal(crate::model::binding_names);
        proof {
            if store.live(self.vars@) {
                lemma_member_view(
                    store.object(self.vars@).members.entries@,
                    PARENT_MEMBER_NAME@,
                );
            }
        }
        let found: Option<usize> = match Scope::with_parent(&self.vars, store) {
            Some(link) => Some(link.index()),
            None => None,
        };
        match found {
            None => Ok(None),
            Some(index) => {
                let link = ObjectToken::at(index);
                proof {
                    ObjectToken::lemma_same_cell(link, old(store).parent_of(self.vars@).unwrap());
                }
                if store.is_scope_at(index) {
                    store.retain(index);
                    Ok(Some(Scope { vars: link }))
                } else {
                    Err(TriconeError::new(ErrorKind::TypeError))
                }
            },
        }
    }

    /// Looks `name` up from the scope object behind `vars` outwards and
    /// returns a new handle to what it is bound to.
    pub fn token_lookup_name(vars: &ObjectToken, name: &str, store: &mut ObjectStore) -> (found:
        Option<ObjectToken>)
        ensures
            found == old(store).resolves(vars@, name@),
            final(store).cells@ == match found {
                Some(token) => old(store).retained(token@),
                None => old(store).cells@,
            },
            option_view(found) == m_lookup(old(store)@, vars@, name@, old(store)@.len()),
            final(store)@ == match found {
                Some(token) => m_retain(old(store)@, token@),
                None => old(store)@,
            },
    {
        reveal(crate::model::bindings);
        reveal(crate::model::cells_view);
        reveal(crate::model::binding_names);
        proof {
            lemma_lookup_view(store.cells@, vars@, name@, store.cells@.len());
        }
        let mut current: usize = vars.index();
        let mut steps: usize = store.len();
        loop
            invariant
                *store == *old(store),
                m_lookup(old(store)@, vars@, name@, old(store)@.len()) == option_view(
                    old(store).resolves(vars@, name@),
                ),
                lookup_in(store.cells@, current as int, name@, steps as nat)
                    == old(store).resolves(vars@, name@),
            decreases steps,
        {
            let next: Option<usize> = match store.get(current) {
                None => {
                    return None;
                },
                Some(object) => {
                    match object.members.get(name) {
                        Some(token) => {
                            let index = token.index();
                            let handle = ObjectToken::at(index);
                            proof {
                                ObjectToken::lemma_same_cell(*token, handle);
                            }
                            store.retain(index);
                            return Some(handle);
                        },
                        None => {
                            match object.members.get(PARENT_MEMBER_NAME) {
                                Some(link) => Some(link.index()),
                                None => None,
                            }
                        },
                    }
                },
            };
            match next {
                Some(index) => {
                    if steps == 0 {
                        return None;
                    }
                    current = index;
                    steps = steps - 1;
                },
                None => {
                    return None;
                },
            }
        }
    }

    /// Looks `name` up from this scope outwards and returns a new handle to
    /// what it is bound to.
    pub fn lookup_name(&self, name: &str, store: &mut ObjectStore) -> (found: Option<ObjectToken>)
        ensures
            found == old(store).resolves(self.vars@, name@),
            final(store).cells@ == match found {
                Some(token) => old(store).retained(token@),
                None => old(store).cells@,
            },
            option_view(found) == m_lookup(old(store)@, self.vars@, name@, old(store)@.len()),
            final(store)@ == match found {
                Some(token) => m_retain(old(store)@, token@),
                None => old(store)@,
            },
    {
        Scope::token_lookup_name(&self.vars, name, store)
    }
}

impl Frame {
    /// A frame whose scope chain starts at `top_scope`.
    pub fn new(top_scope: Scope) -> (frame: Frame)
        ensures
            frame.top_scope == top_scope,
    {
        Frame { top_scope }
    }

    /// Enters a nested scope: the frame's scope becomes a new child of the
    /// scope that it had.
    pub fn push_scope(&mut self, store: &mut ObjectStore)
        ensures
            final(self).top_scope.vars@ == old(store).cells@.len(),
            final(store).cells@.len() == old(store).cells@.len() + 1,
            final(store).cells@.subrange(0, old(store).cells@.len() as int) == old(store).cells@,
            final(store).count(final(self).top_scope.vars@) == 1,
            final(store).live(final(self).top_scope.vars@),
            is_child_of(
                final(store).object(final(self).top_scope.vars@),
                old(self).top_scope.vars,
            ),
            final(store)@ == old(store)@.push(Some(m_child(old(self).top_scope.vars@))),
            old(store).tables_distinct() ==> final(store).tables_distinct(),
    {
        let mut scope = Scope { vars: ObjectToken::dangling() };
        std::mem::swap(&mut self.top_scope, &mut scope);
        self.top_scope = scope.into_child(store);
    }
}

impl Thread {
    /// A thread with an empty operand stack and no active frame.
    pub fn new() -> (thread: Thread)
        ensures
            thread.operation_stack@.len() == 0,
            thread.frame_stack@.len() == 0,
    {
        Thread { operation_stack: Vec::new(), frame_stack: Vec::new() }
    }

    /// The active frame.
    pub fn top_frame(&mut self) -> (frame: Option<&mut Frame>)
        ensures
            old(self).frame_stack@.len() == 0 ==> frame is None && final(self).frame_stack@
                == old(self).frame_stack@,
            old(self).frame_stack@.len() > 0
                ==> frame is Some && *frame->0 == old(self).frame_stack@.last()
                && final(self).frame_stack@
                == old(self).frame_stack@.drop_last().push(*final(frame->0)),
            final(self).operation_stack == old(self).operation_stack,
    {
        let n = self.frame_stack.len();
        if n == 0 {
            None
        } else {
            let frame = &mut self.frame_stack[n - 1];
            Some(frame)
        }
    }
}

impl ObjectStore {
    /// The parent link of the scope object at `scope`.
    pub open spec fn parent_of(&self, scope: int) -> Option<ObjectToken> {
        if self.live(scope) && self.object(scope).members@.dom().contains(PARENT_MEMBER_NAME@) {
            Some(self.object(scope).members@[PARENT_MEMBER_NAME@])
        } else {
            None
        }
    }
}

} // verus!
