//! What a cascade of destructions leaves: where every `drop` method keeps
//! to its own object, an object that is still there is as it was.
use vstd::prelude::*;
use crate::consts::DROP_METHOD_NAME;
use crate::error::ErrorKind;
use crate::exactness::lemma_error_is_kept;
use crate::function::{Body, NativeProc};
use crate::laws::{lemma_resolves_alike, links_lead_back};
use crate::model::{
    m_child,
    m_count,
    m_live,
    m_lookup,
    m_remove,
    m_retain,
    m_set_data,
    values_of,
    FunctionM,
    Machine,
    PayloadM,
};
use crate::object::TypeIndex;
use crate::semantics::{
    clamp,
    m_call,
    m_destroy,
    m_drop_token,
    m_drop_unit,
    m_enter,
    m_first_error,
    m_hook,
    m_invoke,
    m_leave,
    m_method,
    m_native,
    m_native_drop,
    m_pop_scope,
    m_release_seq,
    m_settle,
    m_with_new_frame,
};
use crate::types::Module;

verus! {

/// Whether `t` is `s` after a `drop` method that keeps to its own object
/// has run on the object in `id`: every other object of `s` that is still
/// there is as it was but for its count, and what was written before is
/// still there.  Other objects may have gone, as the closure of a function
/// goes with the function.
pub open spec fn kept_to_itself(s: Machine, t: Machine, id: int) -> bool {
    &&& t.modules == s.modules
    &&& t.cells.len() >= s.cells.len()
    &&& forall|i: int|
        0 <= i < s.cells.len() && i != id && (#[trigger] t.cells[i]) is Some ==> {
            &&& s.cells[i] is Some
            &&& t.cells[i]->0.type_ == s.cells[i]->0.type_
            &&& t.cells[i]->0.data == s.cells[i]->0.data
            &&& t.cells[i]->0.members == s.cells[i]->0.members
        }
    &&& t.output.len() >= s.output.len()
    &&& t.output.subrange(0, s.output.len() as int) == s.output
}

/// Whether the `drop` methods of the registry `modules` keep to their own
/// object in every state with fewer than `bound` steps left: whenever the
/// hook `drop` returns normally, it has changed no other object that is
/// still there, but for counts.
pub open spec fn drops_keep_below(modules: Seq<Module>, bound: int) -> bool {
    forall|s: Machine, id: int|
        s.modules == modules && s.budget < bound && m_live(s.cells, id) && (#[trigger] m_hook(
            s,
            id,
            DROP_METHOD_NAME@,
        )).1 is Ok ==> kept_to_itself(s, m_hook(s, id, DROP_METHOD_NAME@).0, id)
}

/// Whether the `drop` methods of the registry `modules` keep to their own
/// object.  This is what a `drop` method is for: it destroys the payload
/// of its own object.
pub open spec fn drops_keep_to_themselves(modules: Seq<Module>) -> bool {
    forall|bound: int| #[trigger] drops_keep_below(modules, bound)
}

/// Whether `t` follows `s` in a cascade of destructions: an object of
/// `s` that is still there is as it was but for its count, and what was
/// written before is still there.
pub open spec fn survivors_kept(s: Machine, t: Machine) -> bool {
    &&& t.modules == s.modules
    &&& t.cells.len() >= s.cells.len()
    &&& forall|i: int|
        0 <= i < s.cells.len() && (#[trigger] t.cells[i]) is Some ==> {
            &&& s.cells[i] is Some
            &&& t.cells[i]->0.type_ == s.cells[i]->0.type_
            &&& t.cells[i]->0.data == s.cells[i]->0.data
            &&& t.cells[i]->0.members == s.cells[i]->0.members
        }
    &&& t.output.len() >= s.output.len()
    &&& t.output.subrange(0, s.output.len() as int) == s.output
}

/// A state is a cascade of itself.
pub proof fn lemma_survivors_kept_self(s: Machine)
    ensures
        survivors_kept(s, s),
{
    assert(s.output.subrange(0, s.output.len() as int) =~= s.output);
}

/// A cascade after a cascade is a cascade.
pub proof fn lemma_survivors_kept_twice(s: Machine, t: Machine, u: Machine)
    requires
        survivors_kept(s, t),
        survivors_kept(t, u),
    ensures
        survivors_kept(s, u),
{
    assert forall|j: int| 0 <= j < t.output.len() implies u.output[j] == t.output[j] by {
        assert(u.output.subrange(0, t.output.len() as int)[j] == u.output[j]);
    }
    assert forall|j: int| 0 <= j < s.output.len() implies t.output[j] == s.output[j] by {
        assert(t.output.subrange(0, s.output.len() as int)[j] == t.output[j]);
    }
    assert(u.output.subrange(0, s.output.len() as int) =~= s.output);
    assert forall|i: int| 0 <= i < s.cells.len() && (#[trigger] u.cells[i]) is Some implies {
        &&& s.cells[i] is Some
        &&& u.cells[i]->0.type_ == s.cells[i]->0.type_
        &&& u.cells[i]->0.data == s.cells[i]->0.data
        &&& u.cells[i]->0.members == s.cells[i]->0.members
    } by {
        assert(t.cells[i] is Some);
    }
}

/// A cascade after the run of a `drop` method that kept to its own
/// object, or before it, is such a run.
pub proof fn lemma_kept_to_itself_twice(s: Machine, t: Machine, u: Machine, id: int)
    requires
        kept_to_itself(s, t, id),
        kept_to_itself(t, u, id),
    ensures
        kept_to_itself(s, u, id),
{
    assert forall|j: int| 0 <= j < t.output.len() implies u.output[j] == t.output[j] by {
        assert(u.output.subrange(0, t.output.len() as int)[j] == u.output[j]);
    }
    assert forall|j: int| 0 <= j < s.output.len() implies t.output[j] == s.output[j] by {
        assert(t.output.subrange(0, s.output.len() as int)[j] == t.output[j]);
    }
    assert(u.output.subrange(0, s.output.len() as int) =~= s.output);
    assert forall|i: int|
        0 <= i < s.cells.len() && i != id && (#[trigger] u.cells[i]) is Some implies {
        &&& s.cells[i] is Some
        &&& u.cells[i]->0.type_ == s.cells[i]->0.type_
        &&& u.cells[i]->0.data == s.cells[i]->0.data
        &&& u.cells[i]->0.members == s.cells[i]->0.members
    } by {
        assert(t.cells[i] is Some);
    }
}

/// The survivors of `m_drop_token`: see `law_a_cascade_keeps_the_survivors`.
pub proof fn lemma_drop_keeps(s: Machine, id: int)
    requires
        drops_keep_below(s.modules, s.budget as int),
    ensures
        m_drop_token(s, id).1 is Ok ==> survivors_kept(s, m_drop_token(s, id).0),
    decreases s.budget, 0int, 0int,
{
    reveal(m_drop_token);
    reveal(m_destroy);
    let count = m_count(s.cells, id);
    if count == 0 {
    } else if count != 1 {
        assert(s.output.subrange(0, s.output.len() as int) =~= s.output);
    } else if m_enter(s).1 is Ok {
        let entered = m_enter(s).0;
        lemma_survivors_kept_self(s);
        lemma_destroy_keeps(entered, id);
        let destroyed = m_destroy(entered, id);
        if destroyed.1 is Ok {
            assert(survivors_kept(s, m_leave(destroyed.0)));
        }
    }
}

/// The survivors of `m_destroy`: see `law_a_cascade_keeps_the_survivors`.
pub proof fn lemma_destroy_keeps(s: Machine, id: int)
    requires
        drops_keep_below(s.modules, s.budget + 1),
    ensures
        m_destroy(s, id).1 is Ok ==> survivors_kept(s, m_destroy(s, id).0),
    decreases s.budget, 30int, 0int,
{
    reveal(m_destroy);
    reveal(m_release_seq);
    reveal(m_hook);
    reveal(m_drop_token);
    if m_live(s.cells, id) {
        let hooked = if s.cells[id]->0.type_ != crate::consts::unit_type_id() {
            m_hook(s, id, DROP_METHOD_NAME@)
        } else {
            (s, Ok(()))
        };
        let s2 = clamp(s, hooked.0);
        if m_count(s2.cells, id) == 1 {
            let cell = s2.cells[id]->0;
            let s3 = Machine { cells: m_remove(s2.cells, id), ..s2 };
            let ids = values_of(cell.members);
            let closed = match cell.data {
                PayloadM::Function(f) => if m_live(s3.cells, f.closure) {
                    m_drop_token(s3, f.closure)
                } else {
                    (s3, Ok(()))
                },
                _ => (s3, Ok(())),
            };
            let s4 = clamp(s3, closed.0);
            let passed = m_first_error(hooked.1, closed.1);
            if passed is Err {
                lemma_error_is_kept(s4, ids, passed);
            } else {
                if s.cells[id]->0.type_ != crate::consts::unit_type_id() {
                    assert(kept_to_itself(s, hooked.0, id));
                } else {
                    assert(s.output.subrange(0, s.output.len() as int) =~= s.output);
                }
                assert(s3.cells =~= s2.cells.update(id, None));
                assert(survivors_kept(s, s3));
                lemma_survivors_kept_self(s3);
                match cell.data {
                    PayloadM::Function(f) => {
                        if m_live(s3.cells, f.closure) {
                            lemma_drop_keeps(s3, f.closure);
                        }
                    },
                    _ => {},
                }
                assert(survivors_kept(s3, s4));
                lemma_survivors_kept_twice(s, s3, s4);
                lemma_release_keeps(s4, ids, passed);
                let t = m_release_seq(s4, ids, passed).0;
                if m_release_seq(s4, ids, passed).1 is Ok {
                    lemma_survivors_kept_twice(s, s4, t);
                }
            }
        }
    }
}

/// The survivors of `m_release_seq`: see
/// `law_a_cascade_keeps_the_survivors`.
pub proof fn lemma_release_keeps(s: Machine, ids: Seq<int>, outcome: Result<(), ErrorKind>)
    requires
        drops_keep_below(s.modules, s.budget as int),
    ensures
        m_release_seq(s, ids, outcome).1 is Ok ==> survivors_kept(
            s,
            m_release_seq(s, ids, outcome).0,
        ),
    decreases s.budget, 1int, ids.len(),
{
    reveal(m_release_seq);
    reveal(m_drop_token);
    if ids.len() == 0 {
        lemma_survivors_kept_self(s);
    } else {
        let last = ids.last();
        let rest = ids.drop_last();
        lemma_drop_keeps(s, last);
        let released = m_drop_token(s, last);
        let next = clamp(s, released.0);
        let passed = m_first_error(outcome, released.1);
        if released.1 is Err {
            lemma_error_is_kept(next, rest, passed);
        } else {
            assert(survivors_kept(s, next));
            lemma_release_keeps(next, rest, passed);
            let t = m_release_seq(next, rest, passed).0;
            if m_release_seq(next, rest, passed).1 is Ok {
                lemma_survivors_kept_twice(s, next, t);
            }
        }
    }
}

/// What a cascade leaves.  Where every `drop` method of the registry
/// keeps to its own object, giving up a handle, whatever it sets off,
/// leaves each object that is still there with its type, its payload and
/// its members; only counts have changed.
pub proof fn law_a_cascade_keeps_the_survivors(s: Machine, id: int)
    requires
        drops_keep_to_themselves(s.modules),
    ensures
        m_drop_token(s, id).1 is Ok ==> survivors_kept(s, m_drop_token(s, id).0),
{
    assert(drops_keep_below(s.modules, s.budget as int));
    lemma_drop_keeps(s, id);
}

/// Scope shadowing, after the child is left.  Give up the last handle to
/// a child scope, with all that it bound, in a registry whose `drop`
/// methods keep to their own object.  Then a scope that is older than the
/// child resolves every name as it did before the child was made, as long
/// as nothing that is older than this scope went with the child: parent
/// links lead to older objects, and each of those is as it was.
pub proof fn law_the_parent_resolves_as_before(
    s: Machine,
    child: int,
    from: int,
    name: Seq<char>,
    steps: nat,
)
    requires
        drops_keep_to_themselves(s.modules),
        links_lead_back(s.cells),
        m_drop_token(s, child).1 is Ok,
        from < s.cells.len(),
        forall|i: int|
            0 <= i <= from && (#[trigger] s.cells[i]) is Some ==> m_live(
                m_drop_token(s, child).0.cells,
                i,
            ),
    ensures
        m_lookup(m_drop_token(s, child).0.cells, from, name, steps) == m_lookup(
            s.cells,
            from,
            name,
            steps,
        ),
{
    law_a_cascade_keeps_the_survivors(s, child);
    let t = m_drop_token(s, child).0;
    assert forall|i: int| 0 <= i < from + 1 implies (#[trigger] t.cells[i]) is Some
        == s.cells[i] is Some && (s.cells[i] is Some ==> t.cells[i]->0.members
        == s.cells[i]->0.members) by {
        if s.cells[i] is Some {
            assert(m_live(t.cells, i));
        }
    }
    lemma_resolves_alike(s.cells, t.cells, from + 1, from, name, steps);
}

/// Whether `f` is a `drop` method of the host: it destroys the payload of
/// its object, or it writes a line.
pub open spec fn is_native_drop(f: FunctionM) -> bool {
    match f.body {
        Body::Native(NativeProc::Drop(_)) => true,
        Body::Native(NativeProc::Emit(_)) => true,
        _ => false,
    }
}

/// Whether each `drop` method of the registry `modules` is one of the
/// host, as those of the native types are.
pub open spec fn drops_are_native(modules: Seq<Module>) -> bool {
    forall|ty: TypeIndex| (#[trigger] m_method(modules, ty, DROP_METHOD_NAME@)) is Some
        ==> is_native_drop(m_method(modules, ty, DROP_METHOD_NAME@)->0)
}

/// What holds with fewer than `bound` steps left holds with fewer still.
pub proof fn lemma_keep_below_less(modules: Seq<Module>, bound: int, less: int)
    requires
        drops_keep_below(modules, bound),
        less <= bound,
    ensures
        drops_keep_below(modules, less),
{
}

/// The body of a `drop` method of the host keeps to the object that it
/// is run on.
pub proof fn lemma_native_body_keeps(s: Machine, f: FunctionM, args: Seq<int>, id: int)
    requires
        is_native_drop(f),
        drops_keep_below(s.modules, s.budget as int),
        args.len() > 0 ==> args[0] == id,
    ensures
        m_invoke(s, f, args).1 is Ok ==> m_invoke(s, f, args).1 == Ok::<Option<int>, ErrorKind>(
            None,
        ) && kept_to_itself(s, m_invoke(s, f, args).0, id),
{
    reveal(m_invoke);
    reveal(m_native);
    reveal(m_native_drop);
    reveal(m_drop_token);
    lemma_survivors_kept_self(s);
    match f.body {
        Body::Native(NativeProc::Drop(kind)) => {
            if args.len() > 0 && m_live(s.cells, args[0]) {
                let data = s.cells[id]->0.data;
                let s1 = Machine { cells: m_set_data(s.cells, id, PayloadM::Empty), ..s };
                assert(kept_to_itself(s, s1, id));
                lemma_survivors_kept_self(s1);
                match data {
                    PayloadM::Function(g) => {
                        if m_live(s1.cells, g.closure) {
                            lemma_drop_keeps(s1, g.closure);
                            let closed = m_drop_token(s1, g.closure);
                            if closed.1 is Ok {
                                assert(kept_to_itself(s1, closed.0, id));
                                lemma_kept_to_itself_twice(s, s1, closed.0, id);
                            }
                        }
                    },
                    _ => {},
                }
            }
        },
        Body::Native(NativeProc::Emit(line)) => {
            let t = Machine { output: s.output.push(line@), ..s };
            assert(t.output.subrange(0, s.output.len() as int) =~= s.output);
        },
        _ => {},
    }
}

/// Leaving a scope of a frame is a cascade.
pub proof fn lemma_pop_keeps(s: Machine, top: int)
    requires
        drops_keep_below(s.modules, s.budget as int),
    ensures
        m_pop_scope(s, top).2 is Ok ==> survivors_kept(s, m_pop_scope(s, top).0),
{
    reveal(m_pop_scope);
    reveal(m_drop_token);
    match crate::model::m_member_of(s.cells, top, crate::consts::PARENT_MEMBER_NAME@) {
        Some(link) => {
            let s1 = Machine { cells: m_retain(s.cells, link), ..s };
            lemma_survivors_kept_self(s);
            assert(survivors_kept(s, s1));
            lemma_drop_keeps(s1, top);
            if m_drop_token(s1, top).1 is Ok {
                lemma_survivors_kept_twice(s, s1, m_drop_token(s1, top).0);
            }
        },
        None => {},
    }
}

/// A `drop` method of the host, run in a frame of its own, keeps to the
/// object that it is run on.
pub proof fn lemma_native_frame_keeps(
    s: Machine,
    closure: int,
    f: FunctionM,
    args: Seq<int>,
    id: int,
)
    requires
        is_native_drop(f),
        drops_keep_below(s.modules, s.budget as int),
        args.len() > 0 ==> args[0] == id,
    ensures
        ({
            let ran = m_with_new_frame(s, closure, f, args);
            ran.1 is Ok ==> ran.1 == Ok::<Option<int>, ErrorKind>(None) && kept_to_itself(
                s,
                ran.0,
                id,
            )
        }),
{
    reveal(m_with_new_frame);
    reveal(m_invoke);
    reveal(m_settle);
    reveal(m_drop_token);
    reveal(m_pop_scope);
    let child = s.cells.len() as int;
    let s1 = Machine {
        cells: s.cells.push(Some(m_child(closure))),
        frames: s.frames.push(child),
        ..s
    };
    lemma_survivors_kept_self(s);
    assert(kept_to_itself(s, s1, id));
    lemma_native_body_keeps(s1, f, args, id);
    let ran = m_invoke(s1, f, args);
    let s2 = clamp(s1, ran.0);
    if ran.1 is Ok && s2.frames.len() > 0 {
        assert(kept_to_itself(s1, s2, id));
        lemma_kept_to_itself_twice(s, s1, s2, id);
        let s3 = Machine { frames: s2.frames.drop_last(), ..s2 };
        lemma_keep_below_less(s.modules, s.budget as int, s3.budget as int);
        lemma_pop_keeps(s3, s2.frames.last());
        let left = m_pop_scope(s3, s2.frames.last());
        let s4 = clamp(s3, left.0);
        if left.2 is Ok {
            lemma_keep_below_less(s.modules, s.budget as int, s4.budget as int);
            lemma_drop_keeps(s4, left.1);
        }
        let closed = m_drop_token(s4, left.1);
        if left.2 is Ok && closed.1 is Ok {
            let t = clamp(s4, closed.0);
            assert(kept_to_itself(s2, s4, id));
            assert(kept_to_itself(s4, t, id));
            lemma_kept_to_itself_twice(s, s2, s4, id);
            lemma_kept_to_itself_twice(s, s4, t, id);
        }
    }
}

/// A call of a `drop` method of the host keeps to the object that it is
/// run on.
pub proof fn lemma_native_call_keeps(s: Machine, f: FunctionM, args: Seq<int>, id: int)
    requires
        is_native_drop(f),
        drops_keep_below(s.modules, s.budget as int),
        args.len() > 0 ==> args[0] == id,
    ensures
        ({
            let ran = m_call(s, f, args);
            ran.1 is Ok ==> ran.1 == Ok::<Option<int>, ErrorKind>(None) && kept_to_itself(
                s,
                ran.0,
                id,
            )
        }),
{
    reveal(m_call);
    reveal(m_with_new_frame);
    if f.arity == args.len() && m_enter(s).1 is Ok {
        let entered = m_enter(s).0;
        let s1 = Machine { cells: m_retain(entered.cells, f.closure), ..entered };
        lemma_survivors_kept_self(s);
        assert(kept_to_itself(s, s1, id));
        lemma_keep_below_less(s.modules, s.budget as int, s1.budget as int);
        lemma_native_frame_keeps(s1, f.closure, f, args, id);
        let ran = m_with_new_frame(s1, f.closure, f, args);
        if ran.1 is Ok {
            assert(kept_to_itself(s1, m_leave(ran.0), id));
            lemma_kept_to_itself_twice(s, s1, m_leave(ran.0), id);
        }
    }
}

/// The hook of a `drop` method of the host keeps to the object that it is
/// run on, where the hooks that it sets off in turn do.
pub proof fn lemma_native_hook_keeps(s: Machine, id: int)
    requires
        drops_are_native(s.modules),
        drops_keep_below(s.modules, s.budget as int),
        m_live(s.cells, id),
    ensures
        m_hook(s, id, DROP_METHOD_NAME@).1 is Ok ==> kept_to_itself(
            s,
            m_hook(s, id, DROP_METHOD_NAME@).0,
            id,
        ),
{
    reveal(m_hook);
    reveal(m_call);
    reveal(m_drop_unit);
    reveal(m_release_seq);
    reveal(m_drop_token);
    lemma_survivors_kept_self(s);
    match m_method(s.modules, s.cells[id]->0.type_, DROP_METHOD_NAME@) {
        None => {},
        Some(f) => {
            let s1 = Machine { cells: m_retain(m_retain(s.cells, f.closure), id), ..s };
            assert(kept_to_itself(s, s1, id));
            lemma_native_call_keeps(s1, f, seq![id], id);
            let called = m_call(s1, f, seq![id]);
            let s2 = clamp(s1, called.0);
            let dropped = match called.1 {
                Ok(value) => m_drop_unit(s2, value),
                Err(e) => (s2, Err(e)),
            };
            let s3 = clamp(s2, dropped.0);
            if called.1 is Err {
                lemma_error_is_kept(s3, seq![id], dropped.1);
            } else {
                assert(kept_to_itself(s1, s3, id));
                lemma_kept_to_itself_twice(s, s1, s3, id);
                lemma_keep_below_less(s.modules, s.budget as int, s3.budget as int);
                lemma_release_keeps(s3, seq![id], dropped.1);
                let released = m_release_seq(s3, seq![id], dropped.1);
                let s4 = clamp(s3, released.0);
                if released.1 is Ok {
                    lemma_keep_below_less(s.modules, s.budget as int, s4.budget as int);
                    lemma_drop_keeps(s4, f.closure);
                }
                let closed = m_drop_token(s4, f.closure);
                if released.1 is Ok && closed.1 is Ok {
                    assert(kept_to_itself(s3, s4, id));
                    assert(kept_to_itself(s4, closed.0, id));
                    lemma_kept_to_itself_twice(s, s3, s4, id);
                    lemma_kept_to_itself_twice(s, s4, closed.0, id);
                }
            }
        },
    }
}

/// The `drop` methods of the host keep to their own object, with however
/// few steps left.
pub proof fn lemma_native_drops_keep_below(modules: Seq<Module>, bound: nat)
    requires
        drops_are_native(modules),
    ensures
        drops_keep_below(modules, bound as int),
    decreases bound,
{
    if bound > 0 {
        lemma_native_drops_keep_below(modules, (bound - 1) as nat);
        assert forall|s: Machine, id: int|
            s.modules == modules && s.budget < bound && m_live(s.cells, id) && (
            #[trigger] m_hook(s, id, DROP_METHOD_NAME@)).1 is Ok implies kept_to_itself(
            s,
            m_hook(s, id, DROP_METHOD_NAME@).0,
            id,
        ) by {
            lemma_keep_below_less(modules, bound - 1, s.budget as int);
            lemma_native_hook_keeps(s, id);
        }
    }
}

/// The `drop` methods of the host keep to their own object.  A registry
/// whose `drop` methods all destroy the payload of their object or write
/// a line, as those of the native types and of a type that counts do, is
/// one in which a cascade leaves each object that is still there as it
/// was.
pub proof fn law_native_drops_keep_to_themselves(modules: Seq<Module>)
    requires
        drops_are_native(modules),
    ensures
        drops_keep_to_themselves(modules),
{
    assert forall|bound: int| #[trigger] drops_keep_below(modules, bound) by {
        if bound > 0 {
            lemma_native_drops_keep_below(modules, bound as nat);
        }
    }
}

/// The `drop` methods of the core module are those of the host: the
/// native types destroy their payload, and scopes and the unit type have
/// no `drop` method.
pub proof fn law_the_core_drops_are_native(modules: Seq<Module>)
    requires
        modules.len() == 1,
        crate::interpreter::is_core_module(modules[0]),
    ensures
        drops_are_native(modules),
{
    reveal_strlit("drop");
    reveal_strlit("create");
    reveal_strlit("add");
    reveal_strlit("tostring");
    reveal_strlit("println");
    assert("drop"@[0] != "create"@[0]);
    assert("drop"@[0] != "add"@[0]);
    assert("drop"@[0] != "tostring"@[0]);
    assert("drop"@[0] != "println"@[0]);
    let types = modules[0].types@;
    assert forall|ty: TypeIndex| (#[trigger] m_method(modules, ty, DROP_METHOD_NAME@))
        is Some implies is_native_drop(m_method(modules, ty, DROP_METHOD_NAME@)->0) by {
        assert(ty.0.0 == 0);
        assert(0 <= ty.1 < 5);
        let at = ty.1 as int;
        assert(types[at].index == TypeIndex(crate::consts::core_module_id(), ty.1));
        if at == 2 {
            assert(crate::generic::native_methods(
                crate::function::NativeKind::Function,
                Map::<Seq<char>, crate::moduledef::FunctionDef>::empty(),
            ).dom().contains(DROP_METHOD_NAME@));
        } else if at == 3 {
            assert(crate::generic::native_methods(
                crate::function::NativeKind::Int,
                crate::int_::int_methods(),
            ).dom().contains(DROP_METHOD_NAME@));
        } else if at == 4 {
            assert(crate::generic::native_methods(
                crate::function::NativeKind::Text,
                crate::string::string_methods(),
            ).dom().contains(DROP_METHOD_NAME@));
        }
    }
}

/// Scope shadowing, after the child is left, in a registry whose `drop`
/// methods are those of the host.  Give up the last handle to a child
/// scope, with all that it bound.  Then a scope that is older than the
/// child resolves every name as it did before, as long as nothing that is
/// older than this scope went with the child.
pub proof fn law_leaving_a_child_restores_the_parent(
    s: Machine,
    child: int,
    from: int,
    name: Seq<char>,
    steps: nat,
)
    requires
        drops_are_native(s.modules),
        links_lead_back(s.cells),
        m_drop_token(s, child).1 is Ok,
        from < s.cells.len(),
        forall|i: int|
            0 <= i <= from && (#[trigger] s.cells[i]) is Some ==> m_live(
                m_drop_token(s, child).0.cells,
                i,
            ),
    ensures
        m_lookup(m_drop_token(s, child).0.cells, from, name, steps) == m_lookup(
            s.cells,
            from,
            name,
            steps,
        ),
{
    law_native_drops_keep_to_themselves(s.modules);
    law_the_parent_resolves_as_before(s, child, from, name, steps);
}

} // verus!
