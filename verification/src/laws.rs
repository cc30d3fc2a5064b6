//! Laws of the runtime that relate several of its operations.
use vstd::prelude::*;
use crate::consts::PARENT_MEMBER_NAME;
use crate::error::ErrorKind;
use crate::interpreter::{Interpreter, MAX_DEPTH};
use crate::model::{
    m_count,
    m_live,
    m_lookup,
    m_member,
    m_release,
    m_remove,
    values_of,
    CellM,
    FunctionM,
    Machine,
};
use crate::moduledef::{functions_bound, registers, type_registered, ModuleDef};
use crate::names::{first_position, lemma_position_from, lemma_position_unique};
use crate::object::{ModuleIndex, ObjectStore, ObjectToken};
use crate::scope::{is_child_of, lookup_in};
use crate::semantics::{
    clamp,
    m_builtin_if,
    m_call,
    m_call_function_object,
    m_call_in_frame,
    m_call_method,
    m_destroy,
    m_drop_token,
    m_drop_unit,
    m_first_error,
    m_hook,
    m_leave,
    m_method,
    m_release_seq,
    m_settle,
    m_truth_at,
    m_truth_of,
    m_type_of,
    m_while_loop,
    m_with_new_frame,
    m_with_new_scope,
};

verus! {

impl ObjectStore {
    /// Whether every parent link of the store leads to an older object: a
    /// scope is made after its parent, as `Scope::into_child` makes it.
    pub open spec fn parents_precede(&self) -> bool {
        forall|i: int|
            self.live(i) && (#[trigger] self.object(i).members@).dom().contains(
                PARENT_MEMBER_NAME@,
            ) ==> self.object(i).members@[PARENT_MEMBER_NAME@]@ < i
    }

    /// Whether this store and `other` hold objects in the same cells below
    /// `limit`, with the same members.
    pub open spec fn same_bindings_below(&self, other: &ObjectStore, limit: int) -> bool {
        &&& limit <= self.cells@.len()
        &&& limit <= other.cells@.len()
        &&& forall|i: int|
            0 <= i < limit ==> (#[trigger] self.live(i)) == other.live(i) && (self.live(i)
                ==> self.object(i).members@ == other.object(i).members@)
    }

    /// Whether this store is `before` after `Scope::into_child` was called
    /// on a handle `parent`: one more object, in the cell `child`, that is
    /// a scope bound to its parent alone.
    pub open spec fn entered_from(&self, before: &ObjectStore, parent: ObjectToken,
        child: int) -> bool {
        &&& child == before.cells@.len()
        &&& self.cells@.len() == child + 1
        &&& self.cells@.subrange(0, child) == before.cells@
        &&& self.live(child)
        &&& is_child_of(self.object(child), parent)
    }

    /// Whether this store is `before` after `name` was bound to `value` in
    /// the object at `scope`.
    pub open spec fn bound_from(
        &self,
        before: &ObjectStore,
        scope: int,
        name: Seq<char>,
        value: ObjectToken,
    ) -> bool {
        &&& before.differs_in_object(self, scope)
        &&& self.object(scope).members@ == before.object(scope).members@.insert(name, value)
    }
}

/// Two stores that hold the same bindings below `limit` resolve a name
/// alike from a scope below `limit`, where the parent links of the first
/// lead to older objects.
pub proof fn lemma_lookup_agrees(
    a: ObjectStore,
    b: ObjectStore,
    limit: int,
    scope: int,
    name: Seq<char>,
    steps: nat,
)
    requires
        a.parents_precede(),
        a.same_bindings_below(&b, limit),
        0 <= scope < limit,
    ensures
        lookup_in(a.cells@, scope, name, steps) == lookup_in(b.cells@, scope, name, steps),
    decreases steps,
{
    if a.live(scope) {
        let members = a.object(scope).members@;
        assert(members == b.object(scope).members@);
        if !members.dom().contains(name) && steps > 0 && members.dom().contains(
            PARENT_MEMBER_NAME@,
        ) {
            let link = members[PARENT_MEMBER_NAME@];
            ObjectToken::lemma_view_bounds(link);
            lemma_lookup_agrees(a, b, limit, link@, name, (steps - 1) as nat);
        }
    }
}

/// Where the parent links lead to older objects, a lookup from the scope
/// at `scope` needs no more than `scope + 1` steps: with more steps it
/// finds the same.
pub proof fn lemma_lookup_stable(store: ObjectStore, scope: int, name: Seq<char>, s1: nat, s2: nat)
    requires
        store.parents_precede(),
        0 <= scope < s1,
        scope < s2,
    ensures
        lookup_in(store.cells@, scope, name, s1) == lookup_in(store.cells@, scope, name, s2),
    decreases s1,
{
    if store.live(scope) {
        let members = store.object(scope).members@;
        if !members.dom().contains(name) && members.dom().contains(PARENT_MEMBER_NAME@) {
            let link = members[PARENT_MEMBER_NAME@];
            ObjectToken::lemma_view_bounds(link);
            lemma_lookup_stable(store, link@, name, (s1 - 1) as nat, (s2 - 1) as nat);
        }
    }
}

/// Scope shadowing.  Enter a child scope of `parent` and bind `name` in
/// it.  Then, from the child, `name` resolves to the new value and every
/// other name to what it resolves to from the parent; from the parent,
/// `name` resolves to what it resolved to before.  Once the child is gone
/// again, whatever became of the counts, the parent still resolves `name`
/// to its earlier binding, or to nothing if it had none.
pub proof fn law_scope_shadowing(
    before: ObjectStore,
    entered: ObjectStore,
    bound: ObjectStore,
    left: ObjectStore,
    parent: ObjectToken,
    child: int,
    name: Seq<char>,
    value: ObjectToken,
)
    requires
        before.parents_precede(),
        before.live(parent@),
        entered.entered_from(&before, parent, child),
        bound.bound_from(&entered, child, name, value),
        name != PARENT_MEMBER_NAME@,
        bound.same_bindings_below(&left, child),
        left.cells@.len() == bound.cells@.len(),
        !left.live(child),
    ensures
        bound.resolves(child, name) == Some(value),
        forall|other: Seq<char>|
            other != name && other != PARENT_MEMBER_NAME@ ==> #[trigger] bound.resolves(
                child,
                other,
            ) == before.resolves(parent@, other),
        bound.resolves(parent@, name) == before.resolves(parent@, name),
        left.resolves(parent@, name) == before.resolves(parent@, name),
{
    let limit = child;
    assert forall|i: int| 0 <= i < limit implies before.cells@[i] == bound.cells@[i] by {
        assert(entered.cells@.subrange(0, child)[i] == entered.cells@[i]);
    }
    assert(before.same_bindings_below(&bound, limit));
    assert(before.same_bindings_below(&left, limit));
    let steps = bound.cells@.len();
    assert forall|other: Seq<char>|
        other != name && other != PARENT_MEMBER_NAME@ implies #[trigger] bound.resolves(
        child,
        other,
    ) == before.resolves(parent@, other) by {
        lemma_lookup_agrees(before, bound, limit, parent@, other, (steps - 1) as nat);
        lemma_lookup_stable(before, parent@, other, (steps - 1) as nat, before.cells@.len());
    }
    lemma_lookup_agrees(before, bound, limit, parent@, name, steps);
    lemma_lookup_stable(before, parent@, name, steps, before.cells@.len());
    lemma_lookup_agrees(before, left, limit, parent@, name, left.cells@.len());
    lemma_lookup_stable(before, parent@, name, left.cells@.len(), before.cells@.len());
}

/// `Scope::into_child` keeps the parent links in order.
pub proof fn law_entering_keeps_order(
    before: ObjectStore,
    entered: ObjectStore,
    parent: ObjectToken,
    child: int,
)
    requires
        before.parents_precede(),
        before.live(parent@),
        entered.entered_from(&before, parent, child),
    ensures
        entered.parents_precede(),
{
    assert forall|i: int|
        entered.live(i) && (#[trigger] entered.object(i).members@).dom().contains(
            PARENT_MEMBER_NAME@,
        ) implies entered.object(i).members@[PARENT_MEMBER_NAME@]@ < i by {
        if i < child {
            assert(entered.cells@.subrange(0, child)[i] == entered.cells@[i]);
            assert(before.live(i));
            assert(before.object(i).members@.dom().contains(PARENT_MEMBER_NAME@));
        }
    }
}

/// Registering one description twice, under two names, gives two modules
/// that do not interfere.  The second registration leaves the first module
/// and every object of it as they were; both modules hold the types and
/// functions of the description; and the second holds them under
/// identities, scopes and function objects of its own.  A name resolves to
/// the module that was registered under it, unless an older module has the
/// name.
pub proof fn law_registrations_are_independent(
    start: Interpreter,
    first: ModuleDef,
    once: Interpreter,
    first_index: ModuleIndex,
    second: ModuleDef,
    twice: Interpreter,
    second_index: ModuleIndex,
)
    requires
        registers(start, first, once, first_index),
        registers(once, second, twice, second_index),
        first.types == second.types,
        first.free_functions == second.free_functions,
        first.name@ != second.name@,
    ensures
        first_index.0 == start.modules@.len(),
        second_index.0 == first_index.0 + 1,
        twice.modules@.len() == start.modules@.len() + 2,
        twice.modules@[first_index.0 as int] == once.modules@[first_index.0 as int],
        twice.store.cells@.subrange(0, once.store.cells@.len() as int) == once.store.cells@,
        ({
            let a = twice.modules@[first_index.0 as int];
            let b = twice.modules@[second_index.0 as int];
            &&& a.types@.len() == b.types@.len()
            &&& a.types@.len() == first.types.entries@.len()
            &&& forall|j: int|
                0 <= j < a.types@.len() ==> {
                    &&& type_registered(
                        #[trigger] a.types@[j],
                        first.types.entries@[j],
                        first_index,
                        j,
                    )
                    &&& type_registered(b.types@[j], first.types.entries@[j], second_index, j)
                    &&& a.types@[j].index != b.types@[j].index
                    &&& a.types@[j].scope.vars@ < b.types@[j].scope.vars@
                }
            &&& functions_bound(twice.store, a.globals, first.free_functions@)
            &&& functions_bound(twice.store, b.globals, first.free_functions@)
            &&& a.globals.vars@ < b.globals.vars@
            &&& forall|name: Seq<char>| #[trigger]
                first.free_functions@.dom().contains(name) ==> twice.store.object(
                    a.globals.vars@,
                ).members@[name]@ < twice.store.object(b.globals.vars@).members@[name]@
        }),
        first_position(start.module_names(), first.name@) is None ==> first_position(
            twice.module_names(),
            first.name@,
        ) == Some(first_index.0 as int),
        first_position(start.module_names(), second.name@) is None ==> first_position(
            twice.module_names(),
            second.name@,
        ) == Some(second_index.0 as int),
{
    let n = start.modules@.len() as int;
    let a = twice.modules@[n];
    let b = twice.modules@[n + 1];
    let cut = once.store.cells@.len() as int;
    assert(twice.modules@.subrange(0, n + 1)[n] == twice.modules@[n]);
    assert(a == once.modules@.last());
    assert forall|i: int| 0 <= i < cut implies twice.store.cells@[i] == once.store.cells@[i] by {
        assert(twice.store.cells@.subrange(0, cut)[i] == twice.store.cells@[i]);
    }
    assert forall|j: int| 0 <= j < a.types@.len() implies {
        &&& type_registered(#[trigger] a.types@[j], first.types.entries@[j], first_index, j)
        &&& type_registered(b.types@[j], first.types.entries@[j], second_index, j)
        &&& a.types@[j].index != b.types@[j].index
        &&& a.types@[j].scope.vars@ < b.types@[j].scope.vars@
    } by {
        assert(type_registered(b.types@[j], second.types.entries@[j], second_index, j));
    }
    let members_a = twice.store.object(a.globals.vars@).members@;
    assert(members_a == once.store.object(a.globals.vars@).members@);
    assert forall|name: Seq<char>| #[trigger]
        first.free_functions@.dom().contains(name) implies {
        let token = members_a[name];
        &&& a.globals.vars@ < token@
        &&& twice.store.live(token@)
        &&& crate::function::is_function_object(twice.store.object(token@))
        &&& first.free_functions@[name].describes(
            twice.store.object(token@).data->Function_0,
            a.globals,
        )
        &&& token@ < twice.store.object(b.globals.vars@).members@[name]@
    } by {
        let token = members_a[name];
        assert(once.store.live(token@));
        assert(twice.store.cells@[token@] == once.store.cells@[token@]);
    }
    assert forall|j: int| 0 <= j < n implies twice.module_names()[j] == start.module_names()[j] by {
        assert(twice.modules@.subrange(0, n + 1)[j] == twice.modules@[j]);
        assert(once.modules@.subrange(0, n)[j] == once.modules@[j]);
    }
    if first_position(start.module_names(), first.name@) is None {
        lemma_position_from(start.module_names(), first.name@, 0);
        lemma_position_unique(twice.module_names(), first.name@, 0, Some(n));
    }
    if first_position(start.module_names(), second.name@) is None {
        lemma_position_from(start.module_names(), second.name@, 0);
        lemma_position_unique(twice.module_names(), second.name@, 0, Some(n + 1));
    }
}

/// Arity enforcement.  A call with a number of arguments other than the
/// arity of the function fails with `WrongArgumentCount` and leaves the
/// state as it was: no frame is pushed, no step is taken, the body does
/// not run.  This holds of a call in a frame of its own and of a call in
/// the frame of the caller, for every arity.
pub proof fn law_arity_is_enforced(s: Machine, f: FunctionM, args: Seq<int>)
    requires
        f.arity != args.len(),
    ensures
        m_call(s, f, args) == (s, Err::<Option<int>, ErrorKind>(ErrorKind::WrongArgumentCount)),
        m_call_in_frame(s, f, args) == (
            s,
            Err::<Option<int>, ErrorKind>(ErrorKind::WrongArgumentCount),
        ),
{
    reveal(m_call);
    reveal(m_call_in_frame);
}

/// A call with the right number of arguments, a step left in the budget
/// and a level of nesting to spare takes the step and runs the body: in a
/// new frame under a new child of the closure, or in a new nested scope of
/// the active frame.
pub proof fn law_call_runs_the_body(s: Machine, f: FunctionM, args: Seq<int>)
    requires
        f.arity == args.len(),
        s.budget > 0,
        s.depth < MAX_DEPTH,
    ensures
        ({
            let entered = Machine {
                budget: (s.budget - 1) as usize,
                depth: (s.depth + 1) as usize,
                ..s
            };
            let ran = m_with_new_frame(
                Machine { cells: crate::model::m_retain(s.cells, f.closure), ..entered },
                f.closure,
                f,
                args,
            );
            let nested = m_with_new_scope(entered, f, args);
            &&& m_call(s, f, args) == (m_leave(ran.0), ran.1)
            &&& m_call_in_frame(s, f, args) == (m_leave(nested.0), nested.1)
        }),
{
    reveal(m_call);
    reveal(m_call_in_frame);
    reveal(m_with_new_frame);
    reveal(m_with_new_scope);
}

/// Arity enforcement, both ways.  While a step is left in the budget and a
/// level of nesting to spare, a call is refused before its body runs
/// exactly where the number of arguments is not the arity, and then with
/// `WrongArgumentCount`; with the right number the call is the run of the
/// body, and fails only where that run fails.  Without a step or a level
/// to spare the call is refused for that, whatever the number of
/// arguments, unless the number is wrong, which is found first.
pub proof fn law_call_is_refused_for_the_count_alone(s: Machine, f: FunctionM, args: Seq<int>)
    ensures
        f.arity != args.len() ==> m_call(s, f, args) == (
            s,
            Err::<Option<int>, ErrorKind>(ErrorKind::WrongArgumentCount),
        ),
        f.arity == args.len() && s.budget == 0 ==> m_call(s, f, args) == (
            s,
            Err::<Option<int>, ErrorKind>(ErrorKind::BudgetExhausted),
        ),
        f.arity == args.len() && s.budget > 0 && s.depth >= MAX_DEPTH ==> m_call(s, f, args) == (
            s,
            Err::<Option<int>, ErrorKind>(ErrorKind::DepthExceeded),
        ),
        f.arity == args.len() && s.budget > 0 && s.depth < MAX_DEPTH ==> ({
            let entered = Machine {
                budget: (s.budget - 1) as usize,
                depth: (s.depth + 1) as usize,
                cells: crate::model::m_retain(s.cells, f.closure),
                ..s
            };
            m_call(s, f, args).1 == m_with_new_frame(entered, f.closure, f, args).1
        }),
{
    reveal(m_call);
    reveal(m_with_new_frame);
}

/// The `drop` method runs once, on the object alone, while the object
/// lives.  Where the type of a live object has the method `name`, the call
/// of the hook is one call of that method on the object as its only
/// argument, made in a state in which the object still lives and counts
/// one handle more, the receiver's; what the method yields is given up as
/// a unit value, and then the receiver's handle and the method's closure.
pub proof fn law_hook_calls_the_method_once(s: Machine, id: int, name: Seq<char>)
    requires
        m_live(s.cells, id),
        m_method(s.modules, s.cells[id]->0.type_, name) is Some,
    ensures
        ({
            let f = m_method(s.modules, s.cells[id]->0.type_, name)->0;
            let s1 = Machine {
                cells: crate::model::m_retain(crate::model::m_retain(s.cells, f.closure), id),
                ..s
            };
            let called = m_call(s1, f, seq![id]);
            let s2 = clamp(s1, called.0);
            let dropped = match called.1 {
                Ok(value) => m_drop_unit(s2, value),
                Err(e) => (s2, Err(e)),
            };
            let s3 = clamp(s2, dropped.0);
            let released = m_release_seq(s3, seq![id], dropped.1);
            let closed = m_drop_token(clamp(s3, released.0), f.closure);
            &&& m_live(s1.cells, id)
            &&& s1.cells[id]->0.members == s.cells[id]->0.members
            &&& s1.cells[id]->0.data == s.cells[id]->0.data
            &&& m_hook(s, id, name) == (closed.0, m_first_error(released.1, closed.1))
        }),
{
    reveal(m_hook);
    reveal(m_call);
    reveal(m_drop_unit);
    reveal(m_release_seq);
    reveal(m_drop_token);
}

/// The destruction of an object runs its `drop` method before the object
/// goes.  Where the last handle to a live object of another type than the
/// unit type is given up, the destruction begins with the hook `drop` on
/// the object, and the object is taken out of the store only after the
/// hook has returned, and only if the hook left no other handle to it.
pub proof fn law_destruction_runs_drop_first(s: Machine, id: int)
    requires
        m_live(s.cells, id),
        s.cells[id]->0.type_ != crate::consts::unit_type_id(),
    ensures
        ({
            let hooked = m_hook(s, id, crate::consts::DROP_METHOD_NAME@);
            let after = clamp(s, hooked.0);
            &&& m_count(after.cells, id) != 1 ==> m_destroy(s, id) == (
                Machine { cells: m_release(after.cells, id), ..after },
                m_first_error(hooked.1, Err(ErrorKind::TypeError)),
            )
            &&& m_count(after.cells, id) == 1 ==> !m_live(
                crate::model::m_remove(after.cells, id),
                id,
            )
        }),
{
    reveal(m_destroy);
    reveal(m_hook);
}

/// Arity enforcement for methods.  A method call with a number of
/// arguments, the receiver counted, other than the arity of the method
/// fails with `WrongArgumentCount`; nothing is written and no step is
/// taken.  The closure of the method is a scope that lives, as the scope
/// of every registered type does.
pub proof fn law_method_arity_is_enforced(s: Machine, name: Seq<char>, args: Seq<int>)
    requires
        args.len() > 0,
        m_type_of(s, args.last()) is Some,
        m_method(s.modules, m_type_of(s, args.last())->0, name) is Some,
        m_method(s.modules, m_type_of(s, args.last())->0, name)->0.arity != args.len(),
        m_count(
            s.cells,
            m_method(s.modules, m_type_of(s, args.last())->0, name)->0.closure,
        ) != 0,
    ensures
        m_call_method(s, name, args).1 == Err::<Option<int>, ErrorKind>(
            ErrorKind::WrongArgumentCount,
        ),
        m_call_method(s, name, args).0.output == s.output,
        m_call_method(s, name, args).0.stack == s.stack,
        m_call_method(s, name, args).0.frames == s.frames,
        m_call_method(s, name, args).0.budget == s.budget,
{
    reveal(m_call_method);
    reveal(m_call);
    reveal(m_drop_token);
    reveal(m_destroy);
    reveal(m_settle);
    let f = m_method(s.modules, m_type_of(s, args.last())->0, name)->0;
    let s1 = Machine { cells: crate::model::m_retain(s.cells, f.closure), ..s };
    assert(m_call(s1, f, args)
        == (s1, Err::<Option<int>, ErrorKind>(ErrorKind::WrongArgumentCount)));
    lemma_release_keeps_the_rest(s1, f.closure);
}

/// Giving up a handle writes nothing and moves neither operands nor
/// frames where the object is gone or other handles to it remain: only
/// the destruction of an object runs code.
pub proof fn lemma_release_keeps_the_rest(s: Machine, id: int)
    requires
        m_count(s.cells, id) != 1,
    ensures
        m_drop_token(s, id).0.output == s.output,
        m_drop_token(s, id).0.stack == s.stack,
        m_drop_token(s, id).0.frames == s.frames,
        m_drop_token(s, id).0.budget == s.budget,
        m_drop_token(s, id).0.depth == s.depth,
        m_drop_token(s, id).0.modules == s.modules,
{
    reveal(m_drop_token);
}

/// Exactly-once destruction, the part that holds of every object graph.
/// A handle to an object that is gone is refused and nothing runs; while
/// other handles remain, giving one up only lowers the count, so the
/// `drop` method does not run; and the `drop` method runs only in the
/// destruction of the object, which the last handle alone sets off.
pub proof fn law_drop_runs_for_the_last_handle_only(s: Machine, id: int)
    ensures
        !m_live(s.cells, id) ==> m_drop_token(s, id) == (
            s,
            Err::<(), ErrorKind>(ErrorKind::IndexError),
        ),
        m_count(s.cells, id) > 1 ==> m_drop_token(s, id) == (
            Machine { cells: m_release(s.cells, id), ..s },
            Ok::<(), ErrorKind>(()),
        ),
        m_count(s.cells, id) == 1 && s.budget > 0 && s.depth < MAX_DEPTH ==> ({
            let destroyed = m_destroy(
                Machine { budget: (s.budget - 1) as usize, depth: (s.depth + 1) as usize, ..s },
                id,
            );
            m_drop_token(s, id) == (m_leave(destroyed.0), destroyed.1)
        }),
        m_count(s.cells, id) == 1 && s.budget == 0 ==> m_drop_token(s, id) == (
            s,
            Err::<(), ErrorKind>(ErrorKind::BudgetExhausted),
        ),
        m_count(s.cells, id) == 1 && s.budget > 0 && s.depth >= MAX_DEPTH ==> m_drop_token(s, id)
            == (s, Err::<(), ErrorKind>(ErrorKind::DepthExceeded)),
{
    reveal(m_drop_token);
    reveal(m_destroy);
}

/// Control flow of `if`.  With a true condition `if` does what a call of
/// its second argument in the active frame does, with a false one what
/// such a call of its third argument does: the other function is not
/// called.
pub proof fn law_if_calls_one_branch(s: Machine, args: Seq<int>, condition: bool)
    requires
        args.len() >= 3,
        m_truth_at(s, args[0]) == Ok::<bool, ErrorKind>(condition),
    ensures
        condition ==> m_builtin_if(s, args) == m_call_function_object(s, args[1]),
        !condition ==> m_builtin_if(s, args) == m_call_function_object(s, args[2]),
{
    reveal(m_builtin_if);
    reveal(m_call_function_object);
}

/// Control flow of `while`, the round that ends it.  Where the condition
/// yields false, the loop ends without a call of the body, in the state
/// that the test of the condition left.
pub proof fn law_while_ends_on_false(
    s: Machine,
    condition: FunctionM,
    body: FunctionM,
    args: Seq<int>,
)
    requires
        m_call_in_frame(s, condition, Seq::empty()).1 is Ok,
        ({
            let called = m_call_in_frame(s, condition, Seq::empty());
            m_truth_of(clamp(s, called.0), called.1->Ok_0).1 == Ok::<bool, ErrorKind>(false)
        }),
    ensures
        ({
            let called = m_call_in_frame(s, condition, Seq::empty());
            m_while_loop(s, condition, body, args) == (
                m_truth_of(clamp(s, called.0), called.1->Ok_0).0,
                Ok::<(), ErrorKind>(()),
            )
        }),
{
    reveal(m_while_loop);
    reveal(m_call_in_frame);
    reveal(m_truth_of);
}

/// The state that one round of `while` leaves, where the round goes on:
/// the condition, called without arguments in the active frame, yields
/// true, and the body, called once on the arguments of `while`, yields
/// nothing or a unit object, which is given up.  `None` where the round
/// ends the loop.
pub open spec fn while_round(s: Machine, condition: FunctionM, body: FunctionM, args: Seq<int>) -> Option<
    Machine,
> {
    let called = m_call_in_frame(s, condition, Seq::empty());
    if called.1 is Ok {
        let tested = m_truth_of(clamp(s, called.0), called.1->Ok_0);
        if tested.1 == Ok::<bool, ErrorKind>(true) {
            let tested_state = clamp(clamp(s, called.0), tested.0);
            let ran = m_call_in_frame(tested_state, body, args);
            if ran.1 is Ok {
                let dropped = m_drop_unit(clamp(tested_state, ran.0), ran.1->Ok_0);
                if dropped.1 is Ok && dropped.0.budget < s.budget {
                    Some(dropped.0)
                } else {
                    None
                }
            } else {
                None
            }
        } else {
            None
        }
    } else {
        None
    }
}

/// The state after `rounds` rounds of `while` that all go on.
pub open spec fn after_rounds(
    s: Machine,
    condition: FunctionM,
    body: FunctionM,
    args: Seq<int>,
    rounds: nat,
) -> Option<Machine>
    decreases rounds,
{
    if rounds == 0 {
        Some(s)
    } else {
        match while_round(s, condition, body, args) {
            Some(next) => after_rounds(next, condition, body, args, (rounds - 1) as nat),
            None => None,
        }
    }
}

/// Control flow of `while`, a round that goes on.  Where the condition
/// yields true and the body, called once on the arguments of `while`,
/// yields nothing or a unit object, the loop goes on from the state that
/// the round left.  Condition and body are both called in the frame that
/// is active when `while` runs, so each sees what the other bound in the
/// scope of that frame.
pub proof fn law_while_goes_round_on_true(
    s: Machine,
    condition: FunctionM,
    body: FunctionM,
    args: Seq<int>,
)
    requires
        while_round(s, condition, body, args) is Some,
    ensures
        m_while_loop(s, condition, body, args) == m_while_loop(
            while_round(s, condition, body, args)->0,
            condition,
            body,
            args,
        ),
{
    reveal(m_while_loop);
    reveal(m_call_in_frame);
    reveal(m_truth_of);
    reveal(m_drop_unit);
}

/// Control flow of `while`, the count of the rounds.  Where the condition
/// yields true in each of `rounds` rounds, which run the body once each,
/// and then yields false, the loop is those rounds, the condition and the
/// body in turn, and one more test of the condition: the body runs
/// `rounds` times, the condition once more, and nothing runs after the
/// condition first yielded false.
pub proof fn law_while_runs_as_many_rounds_as_the_condition_allows(
    s: Machine,
    condition: FunctionM,
    body: FunctionM,
    args: Seq<int>,
    rounds: nat,
)
    requires
        after_rounds(s, condition, body, args, rounds) is Some,
        ({
            let last = after_rounds(s, condition, body, args, rounds)->0;
            let called = m_call_in_frame(last, condition, Seq::empty());
            &&& called.1 is Ok
            &&& m_truth_of(clamp(last, called.0), called.1->Ok_0).1 == Ok::<bool, ErrorKind>(
                false,
            )
        }),
    ensures
        ({
            let last = after_rounds(s, condition, body, args, rounds)->0;
            let called = m_call_in_frame(last, condition, Seq::empty());
            m_while_loop(s, condition, body, args) == (
                m_truth_of(clamp(last, called.0), called.1->Ok_0).0,
                Ok::<(), ErrorKind>(()),
            )
        }),
    decreases rounds,
{
    if rounds == 0 {
        law_while_ends_on_false(s, condition, body, args);
    } else {
        let next = while_round(s, condition, body, args)->0;
        law_while_goes_round_on_true(s, condition, body, args);
        law_while_runs_as_many_rounds_as_the_condition_allows(
            next,
            condition,
            body,
            args,
            (rounds - 1) as nat,
        );
    }
}

/// How often `id` stands among `ids`.
pub open spec fn occurrences(ids: Seq<int>, id: int) -> nat
    decreases ids.len(),
{
    if ids.len() == 0 {
        0
    } else {
        occurrences(ids.drop_last(), id) + if ids.last() == id {
            1nat
        } else {
            0nat
        }
    }
}

/// Whether each of `ids` is held from elsewhere as well: the object lives
/// and counts more handles than `ids` names.
pub open spec fn held_elsewhere(cells: Seq<Option<CellM>>, ids: Seq<int>) -> bool {
    forall|i: int| 0 <= i < ids.len() ==> m_count(cells, #[trigger] ids[i]) > occurrences(ids, ids[i])
}

/// Whether `after` holds the objects of `before`, each with its type, its
/// payload and its members, whatever became of the counts.
pub open spec fn same_objects(before: Seq<Option<CellM>>, after: Seq<Option<CellM>>) -> bool {
    &&& after.len() == before.len()
    &&& forall|i: int|
        0 <= i < before.len() ==> (#[trigger] after[i] is Some) == (before[i] is Some) && (
        before[i] is Some ==> {
            &&& after[i]->0.type_ == before[i]->0.type_
            &&& after[i]->0.data == before[i]->0.data
            &&& after[i]->0.members == before[i]->0.members
        })
}

/// Giving up handles to objects that are held from elsewhere as well runs
/// nothing: the counts go down, and every object stays as it is.
pub proof fn lemma_release_of_shared(s: Machine, ids: Seq<int>, outcome: Result<(), ErrorKind>)
    requires
        held_elsewhere(s.cells, ids),
    ensures
        outcome is Err ==> m_release_seq(s, ids, outcome).1 == outcome,
        outcome == Ok::<(), ErrorKind>(()) ==> m_release_seq(s, ids, outcome).1 == outcome,
        same_objects(s.cells, m_release_seq(s, ids, outcome).0.cells),
        m_release_seq(s, ids, outcome).0 == (Machine {
            cells: m_release_seq(s, ids, outcome).0.cells,
            ..s
        }),
    decreases ids.len(),
{
    reveal(m_release_seq);
    reveal(m_drop_token);
    if ids.len() > 0 {
        let last = ids.last();
        let rest = ids.drop_last();
        assert(ids[ids.len() - 1] == last);
        assert(occurrences(ids, last) >= 1);
        let released = m_drop_token(s, last);
        assert(released == (Machine { cells: m_release(s.cells, last), ..s }, Ok::<(), ErrorKind>(())));
        let next = clamp(s, released.0);
        assert(next == released.0);
        assert forall|i: int| 0 <= i < rest.len() implies m_count(next.cells, #[trigger] rest[i])
            > occurrences(rest, rest[i]) by {
            assert(rest[i] == ids[i]);
        }
        lemma_release_of_shared(next, rest, m_first_error(outcome, released.1));
    }
}

/// Leaving a scope.  Where the last handle to an object is given up, with
/// a step and a level to spare, and the object has no `drop` method to
/// run, holds no function, and binds only what is held from elsewhere as
/// well, the object goes and nothing else happens: every other object
/// stays with its type, its payload and its members, nothing is written,
/// and operands, frames and registry are as before.  A scope whose values
/// are still in use is such an object.
pub proof fn law_leaving_a_scope_touches_no_other(s: Machine, scope: int)
    requires
        m_count(s.cells, scope) == 1,
        s.budget > 0,
        s.depth < MAX_DEPTH,
        m_method(s.modules, s.cells[scope]->0.type_, crate::consts::DROP_METHOD_NAME@) is None,
        !(s.cells[scope]->0.data is Function),
        held_elsewhere(s.cells, values_of(s.cells[scope]->0.members)),
    ensures
        m_drop_token(s, scope).1 == Ok::<(), ErrorKind>(()),
        !m_live(m_drop_token(s, scope).0.cells, scope),
        same_objects(m_remove(s.cells, scope), m_drop_token(s, scope).0.cells),
        m_drop_token(s, scope).0 == (Machine {
            cells: m_drop_token(s, scope).0.cells,
            budget: (s.budget - 1) as usize,
            ..s
        }),
{
    reveal(m_drop_token);
    reveal(m_destroy);
    reveal(m_hook);
    reveal(m_release_seq);
    let entered = Machine { budget: (s.budget - 1) as usize, depth: (s.depth + 1) as usize, ..s };
    let ids = values_of(s.cells[scope]->0.members);
    let removed = Machine { cells: m_remove(s.cells, scope), ..entered };
    assert forall|i: int| 0 <= i < ids.len() implies m_count(removed.cells, #[trigger] ids[i])
        > occurrences(ids, ids[i]) by {
        lemma_occurs(ids, i);
    }
    lemma_release_of_shared(removed, ids, Ok(()));
    assert(m_destroy(entered, scope) == m_release_seq(removed, ids, Ok(())));
}

/// The scope type of the core module has no `drop` method, so the premise
/// of `law_leaving_a_scope_touches_no_other` on the method holds of every
/// scope.
pub proof fn law_a_scope_has_no_drop_method(s: Machine, scope: int)
    requires
        s.modules.len() > 0,
        crate::interpreter::is_core_module(s.modules[0]),
        crate::model::m_is_scope(s.cells, scope),
    ensures
        m_method(s.modules, s.cells[scope]->0.type_, crate::consts::DROP_METHOD_NAME@) is None,
{
}

/// What stands among `ids` occurs there at least once.
pub proof fn lemma_occurs(ids: Seq<int>, at: int)
    requires
        0 <= at < ids.len(),
    ensures
        occurrences(ids, ids[at]) >= 1,
    decreases ids.len(),
{
    if at < ids.len() - 1 {
        assert(ids.drop_last()[at] == ids[at]);
        lemma_occurs(ids.drop_last(), at);
    }
}

/// Whether every parent link among `cells` leads to an older object.
pub open spec fn links_lead_back(cells: Seq<Option<CellM>>) -> bool {
    forall|i: int|
        m_live(cells, i) && m_member(
            (#[trigger] cells[i])->0.members,
            PARENT_MEMBER_NAME@,
        ) is Some ==> m_member(cells[i]->0.members, PARENT_MEMBER_NAME@)->0 < i
}

/// Two stores that hold the same objects below `limit` resolve a name
/// alike from a scope below `limit`, where the parent links lead to older
/// objects.
pub proof fn lemma_resolves_alike(
    before: Seq<Option<CellM>>,
    after: Seq<Option<CellM>>,
    limit: int,
    scope: int,
    name: Seq<char>,
    steps: nat,
)
    requires
        links_lead_back(before),
        limit <= before.len(),
        limit <= after.len(),
        forall|i: int|
            0 <= i < limit ==> (#[trigger] after[i] is Some) == (before[i] is Some) && (
            before[i] is Some ==> after[i]->0.members == before[i]->0.members),
        scope < limit,
    ensures
        m_lookup(after, scope, name, steps) == m_lookup(before, scope, name, steps),
    decreases steps,
{
    if m_live(before, scope) {
        assert(after[scope] is Some);
        let members = before[scope]->0.members;
        if m_member(members, name) is None && steps > 0 {
            match m_member(members, PARENT_MEMBER_NAME@) {
                Some(link) => {
                    lemma_resolves_alike(before, after, limit, link, name, (steps - 1) as nat);
                },
                None => {},
            }
        }
    } else if 0 <= scope {
        assert(!(after[scope] is Some));
    }
}

/// Scope shadowing, after the child is left.  Under the premises of
/// `law_leaving_a_scope_touches_no_other`, and where parent links lead to
/// older objects, every scope that is older than the one that was left
/// resolves every name as it did before.
pub proof fn law_an_older_scope_resolves_as_before(
    s: Machine,
    scope: int,
    from: int,
    name: Seq<char>,
    steps: nat,
)
    requires
        m_count(s.cells, scope) == 1,
        s.budget > 0,
        s.depth < MAX_DEPTH,
        m_method(s.modules, s.cells[scope]->0.type_, crate::consts::DROP_METHOD_NAME@) is None,
        !(s.cells[scope]->0.data is Function),
        held_elsewhere(s.cells, values_of(s.cells[scope]->0.members)),
        links_lead_back(s.cells),
        from < scope,
    ensures
        m_lookup(m_drop_token(s, scope).0.cells, from, name, steps) == m_lookup(
            s.cells,
            from,
            name,
            steps,
        ),
{
    law_leaving_a_scope_touches_no_other(s, scope);
    let left = m_drop_token(s, scope).0.cells;
    let removed = m_remove(s.cells, scope);
    assert forall|i: int| 0 <= i < scope implies (#[trigger] left[i] is Some) == (s.cells[i]
        is Some) && (s.cells[i] is Some ==> left[i]->0.members == s.cells[i]->0.members) by {
        assert(removed[i] == s.cells[i]);
    }
    lemma_resolves_alike(s.cells, left, scope, from, name, steps);
}

} // verus!
