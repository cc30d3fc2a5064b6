//! A method that writes a line is a `drop` method that only counts.
use vstd::prelude::*;
use crate::consts::{scope_type_id, DROP_METHOD_NAME, PARENT_MEMBER_NAME};
use crate::error::ErrorKind;
use crate::exactness::{counted_once, drop_only_counts, lemma_error_is_kept, well_counted};
use crate::function::{Body, NativeProc};
use crate::model::{
    binding_names,
    m_child,
    m_count,
    m_is_scope,
    m_live,
    m_member_of,
    m_release,
    m_remove,
    m_retain,
    values_of,
    CellM,
    FunctionM,
    Machine,
};
use crate::names::lemma_position_unique;
use crate::object::TypeIndex;
use crate::semantics::{
    clamp,
    m_call,
    m_destroy,
    m_drop_token,
    m_drop_unit,
    m_enter,
    m_first_error,
    m_hook,
    m_invoke,
    m_method,
    m_native,
    m_pop_scope,
    m_release_seq,
    m_settle,
    m_with_new_frame,
};
use crate::types::Module;

verus! {

/// Whether `f` is a method of one argument that writes `line` and does
/// nothing else.
pub open spec fn writes(f: FunctionM, line: Seq<char>) -> bool {
    &&& f.arity == 1
    &&& match f.body {
        Body::Native(NativeProc::Emit(text)) => text@ == line,
        _ => false,
    }
}

/// Whether `after` holds the objects of `before` as they were, but for
/// the count of the object in `at`.
pub open spec fn but_for_the_count(
    before: Seq<Option<CellM>>,
    after: Seq<Option<CellM>>,
    at: int,
) -> bool {
    &&& forall|i: int| 0 <= i < before.len() && i != at ==> #[trigger] after[i] == before[i]
    &&& 0 <= at < before.len() ==> {
        &&& after[at] is Some == before[at] is Some
        &&& after[at] is Some ==> {
            &&& after[at]->0.type_ == before[at]->0.type_
            &&& after[at]->0.data == before[at]->0.data
            &&& after[at]->0.members == before[at]->0.members
        }
    }
}

/// Whether `t` is `s` but for the cells, the budget and what `t` wrote
/// behind the output of `s`.
pub open spec fn ran_on(s: Machine, t: Machine) -> bool {
    &&& t.modules == s.modules
    &&& t.stack == s.stack
    &&& t.frames == s.frames
    &&& t.depth == s.depth
    &&& t.budget <= s.budget
}

/// Leaving the scope of a frame: the scope goes, and its parent is the
/// scope of the frame afterwards.
pub proof fn lemma_frame_scope_goes(s: Machine, child: int, parent: int)
    requires
        well_counted(s.cells),
        m_live(s.cells, child),
        s.cells[child]->0 == m_child(parent),
        child != parent,
        m_method(s.modules, scope_type_id(), DROP_METHOD_NAME@) is None,
    ensures
        ({
            let left = m_pop_scope(s, child);
            left.2 is Ok ==> {
                &&& well_counted(left.0.cells)
                &&& left.1 == parent
                &&& m_is_scope(s.cells, parent)
                &&& ran_on(s, left.0)
                &&& left.0.output == s.output
                &&& left.0.cells.len() == s.cells.len()
                &&& left.0.cells[child] is None
                &&& forall|i: int|
                    0 <= i < s.cells.len() && i != child && i != parent
                        ==> #[trigger] left.0.cells[i] == s.cells[i]
                &&& but_for_the_count(
                    s.cells.update(child, None),
                    left.0.cells,
                    parent,
                )
                &&& m_count(left.0.cells, parent) >= m_count(s.cells, parent)
            }
        }),
{
    reveal(m_pop_scope);
    reveal(m_drop_token);
    reveal(m_destroy);
    reveal(m_hook);
    reveal(m_release_seq);
    reveal(binding_names);
    reveal(values_of);
    let members = m_child(parent).members;
    assert(binding_names(members)[0] == PARENT_MEMBER_NAME@);
    lemma_position_unique(binding_names(members), PARENT_MEMBER_NAME@, 0, Some(0));
    assert(m_member_of(s.cells, child, PARENT_MEMBER_NAME@) == Some(parent));
    if m_is_scope(s.cells, parent) {
        let s1 = Machine { cells: m_retain(s.cells, parent), ..s };
        assert(m_count(s1.cells, child) == 1);
        if m_enter(s1).1 is Ok {
            let entered = m_enter(s1).0;
            assert(m_hook(entered, child, DROP_METHOD_NAME@) == (entered, Ok::<(), ErrorKind>(())));
            let s3 = Machine { cells: m_remove(entered.cells, child), ..entered };
            let ids = values_of(members);
            assert(ids =~= seq![parent]);
            assert(ids.drop_last() =~= Seq::<int>::empty());
            assert(m_count(s3.cells, parent) >= 2);
            let released = m_drop_token(s3, parent);
            assert(released == (
                Machine { cells: m_release(s3.cells, parent), ..s3 },
                Ok::<(), ErrorKind>(()),
            ));
            assert(m_destroy(entered, child) == m_release_seq(s3, ids, Ok(())));
            assert(m_release_seq(s3, ids, Ok(())) == m_release_seq(
                clamp(s3, released.0),
                ids.drop_last(),
                m_first_error(Ok(()), released.1),
            ));
        }
    }
}

/// A call of a method that writes, in a frame of its own: the line is
/// written, the scope of the frame is made and goes again, and nothing
/// else has changed but the count of the closure.
pub proof fn lemma_frame_of_a_writer(
    s: Machine,
    closure: int,
    f: FunctionM,
    args: Seq<int>,
    line: Seq<char>,
)
    requires
        well_counted(s.cells),
        writes(f, line),
        m_method(s.modules, scope_type_id(), DROP_METHOD_NAME@) is None,
        m_count(s.cells, closure) != 1,
    ensures
        ({
            let ran = m_with_new_frame(s, closure, f, args);
            ran.1 is Ok ==> {
                &&& well_counted(ran.0.cells)
                &&& ran.1 == Ok::<Option<int>, ErrorKind>(None)
                &&& m_is_scope(s.cells, closure)
                &&& ran_on(s, ran.0)
                &&& ran.0.output == s.output.push(line)
                &&& ran.0.cells.len() == s.cells.len() + 1
                &&& ran.0.cells[s.cells.len() as int] is None
                &&& but_for_the_count(s.cells, ran.0.cells, closure)
                &&& m_count(ran.0.cells, closure) + 1 >= m_count(s.cells, closure)
            }
        }),
{
    reveal(m_with_new_frame);
    reveal(m_invoke);
    reveal(m_native);
    reveal(m_settle);
    reveal(m_drop_token);
    reveal(m_pop_scope);
    let child = s.cells.len() as int;
    let s1 = Machine {
        cells: s.cells.push(Some(m_child(closure))),
        frames: s.frames.push(child),
        ..s
    };
    let ran = m_invoke(s1, f, args);
    let s2 = clamp(s1, ran.0);
    assert(ran == (
        Machine { output: s1.output.push(line), ..s1 },
        Ok::<Option<int>, ErrorKind>(None),
    ));
    assert(s2.frames.drop_last() =~= s.frames);
    assert(s2.frames.last() == child);
    let s3 = Machine { frames: s2.frames.drop_last(), ..s2 };
    if child == closure {
        lemma_frame_needs_its_closure(s3, child);
    } else {
        lemma_frame_scope_goes(s3, child, closure);
        let left = m_pop_scope(s3, child);
        let s4 = clamp(s3, left.0);
        let closed = m_drop_token(s4, left.1);
        if left.2 is Ok {
            assert(m_count(s3.cells, closure) == m_count(s.cells, closure));
            assert(m_count(s4.cells, closure) >= 2);
            assert(closed == (
                Machine { cells: m_release(s4.cells, closure), ..s4 },
                Ok::<(), ErrorKind>(()),
            ));
            let t = clamp(s4, closed.0);
            assert(m_first_error(left.2, closed.1) == Ok::<(), ErrorKind>(()));
            assert(m_settle(t, ran.1, Ok(())) == (t, Ok::<Option<int>, ErrorKind>(None)));
            assert(m_with_new_frame(s, closure, f, args) == (
                t,
                Ok::<Option<int>, ErrorKind>(None),
            ));
            assert forall|i: int| 0 <= i < s.cells.len() && i != closure implies (
            #[trigger] t.cells[i]) == s.cells[i] by {
                assert(left.0.cells[i] == s3.cells[i]);
            }
        }
    }
}

/// A frame whose scope is its own parent cannot be left: the scope goes
/// with the first of its two handles.
pub proof fn lemma_frame_needs_its_closure(s: Machine, child: int)
    requires
        well_counted(s.cells),
        m_live(s.cells, child),
        s.cells[child]->0 == m_child(child),
        m_method(s.modules, scope_type_id(), DROP_METHOD_NAME@) is None,
    ensures
        ({
            let left = m_pop_scope(s, child);
            let closed = m_drop_token(clamp(s, left.0), left.1);
            m_first_error(left.2, closed.1) is Err
        }),
{
    reveal(m_pop_scope);
    reveal(m_drop_token);
    reveal(m_destroy);
    reveal(m_hook);
    reveal(m_release_seq);
    reveal(binding_names);
    reveal(values_of);
    let members = m_child(child).members;
    assert(binding_names(members)[0] == PARENT_MEMBER_NAME@);
    lemma_position_unique(binding_names(members), PARENT_MEMBER_NAME@, 0, Some(0));
    assert(m_member_of(s.cells, child, PARENT_MEMBER_NAME@) == Some(child));
    let s1 = Machine { cells: m_retain(s.cells, child), ..s };
    let released = m_drop_token(s1, child);
    assert(released == (
        Machine { cells: m_release(s1.cells, child), ..s1 },
        Ok::<(), ErrorKind>(()),
    ));
    let s2 = clamp(s, released.0);
    assert(m_count(s2.cells, child) == 1);
    if m_enter(s2).1 is Ok {
        let entered = m_enter(s2).0;
        assert(m_hook(entered, child, DROP_METHOD_NAME@) == (entered, Ok::<(), ErrorKind>(())));
        let s3 = Machine { cells: m_remove(entered.cells, child), ..entered };
        let ids = values_of(members);
        assert(ids =~= seq![child]);
        assert(ids.drop_last() =~= Seq::<int>::empty());
        assert(m_drop_token(s3, child) == (s3, Err::<(), ErrorKind>(ErrorKind::IndexError)));
        assert(m_destroy(entered, child) == m_release_seq(s3, ids, Ok(())));
        lemma_error_is_kept(
            clamp(s3, s3),
            ids.drop_last(),
            m_first_error(Ok(()), Err(ErrorKind::IndexError)),
        );
    }
}

/// A call of a method that writes: see `lemma_frame_of_a_writer`.
pub proof fn lemma_call_of_a_writer(s: Machine, f: FunctionM, args: Seq<int>, line: Seq<char>)
    requires
        well_counted(s.cells),
        writes(f, line),
        m_method(s.modules, scope_type_id(), DROP_METHOD_NAME@) is None,
        m_count(s.cells, f.closure) != 1,
    ensures
        ({
            let ran = m_call(s, f, args);
            ran.1 is Ok ==> {
                &&& well_counted(ran.0.cells)
                &&& ran.1 == Ok::<Option<int>, ErrorKind>(None)
                &&& m_is_scope(s.cells, f.closure)
                &&& ran_on(s, ran.0)
                &&& ran.0.output == s.output.push(line)
                &&& ran.0.cells.len() == s.cells.len() + 1
                &&& ran.0.cells[s.cells.len() as int] is None
                &&& but_for_the_count(s.cells, ran.0.cells, f.closure)
                &&& m_count(ran.0.cells, f.closure) >= 2
            }
        }),
{
    reveal(m_call);
    reveal(m_with_new_frame);
    if f.arity == args.len() && m_enter(s).1 is Ok {
        let entered = m_enter(s).0;
        let s1 = Machine { cells: m_retain(entered.cells, f.closure), ..entered };
        lemma_frame_of_a_writer(s1, f.closure, f, args, line);
        let ran = m_with_new_frame(s1, f.closure, f, args);
        if ran.1 is Ok {
            assert(m_count(s1.cells, f.closure) >= 3);
        }
    }
}

/// The hook of a method that writes only counts.
pub proof fn lemma_hook_of_a_writer(s: Machine, id: int, f: FunctionM, line: Seq<char>)
    requires
        well_counted(s.cells),
        m_live(s.cells, id),
        m_method(s.modules, s.cells[id]->0.type_, DROP_METHOD_NAME@) == Some(f),
        writes(f, line),
        m_method(s.modules, scope_type_id(), DROP_METHOD_NAME@) is None,
    ensures
        m_hook(s, id, DROP_METHOD_NAME@).1 is Ok ==> counted_once(
            s,
            m_hook(s, id, DROP_METHOD_NAME@).0,
            line,
        ),
{
    reveal(m_hook);
    reveal(m_call);
    reveal(m_drop_unit);
    reveal(m_release_seq);
    reveal(m_drop_token);
    let c = f.closure;
    let s1 = Machine { cells: m_retain(m_retain(s.cells, c), id), ..s };
    assert(m_count(s1.cells, c) != 1);
    lemma_call_of_a_writer(s1, f, seq![id], line);
    let called = m_call(s1, f, seq![id]);
    let s2 = clamp(s1, called.0);
    let dropped = match called.1 {
        Ok(value) => m_drop_unit(s2, value),
        Err(e) => (s2, Err(e)),
    };
    let s3 = clamp(s2, dropped.0);
    if called.1 is Err {
        lemma_error_is_kept(s3, seq![id], dropped.1);
    } else {
        assert(id != c);
        assert(seq![id].drop_last() =~= Seq::<int>::empty());
        assert(seq![id].last() == id);
        assert(m_count(s3.cells, id) >= 2);
        let released = m_drop_token(s3, id);
        assert(released == (
            Machine { cells: m_release(s3.cells, id), ..s3 },
            Ok::<(), ErrorKind>(()),
        ));
        assert(m_release_seq(s3, seq![id], dropped.1) == m_release_seq(
            clamp(s3, released.0),
            seq![id].drop_last(),
            m_first_error(dropped.1, released.1),
        ));
        let s4 = clamp(s3, released.0);
        assert(m_count(s4.cells, c) >= 2);
        let closed = m_drop_token(s4, c);
        assert(closed == (
            Machine { cells: m_release(s4.cells, c), ..s4 },
            Ok::<(), ErrorKind>(()),
        ));
        let t = closed.0;
        assert(m_hook(s, id, DROP_METHOD_NAME@).0 == t);
        assert forall|i: int| 0 <= i < s.cells.len() implies {
            &&& (#[trigger] t.cells[i]) is Some == s.cells[i] is Some
            &&& t.cells[i] is Some ==> {
                &&& t.cells[i]->0.type_ == s.cells[i]->0.type_
                &&& t.cells[i]->0.data == s.cells[i]->0.data
                &&& t.cells[i]->0.members == s.cells[i]->0.members
            }
        } by {
            if i != c && i != id {
                assert(s2.cells[i] == s1.cells[i]);
            }
        }
    }
}

/// Exactly-once destruction, for a type that counts.  Where the `drop`
/// method of a type writes a line and does nothing else, and scopes have
/// no `drop` method, as the scopes of the core module have none, the
/// `drop` method only counts.
pub proof fn law_a_method_that_writes_only_counts(
    modules: Seq<Module>,
    ty: TypeIndex,
    f: FunctionM,
    line: Seq<char>,
)
    requires
        m_method(modules, ty, DROP_METHOD_NAME@) == Some(f),
        writes(f, line),
        m_method(modules, scope_type_id(), DROP_METHOD_NAME@) is None,
    ensures
        drop_only_counts(modules, ty, line),
{
    assert forall|s: Machine, id: int|
        s.modules == modules && well_counted(s.cells) && m_live(s.cells, id)
            && s.cells[id]->0.type_ == ty && (#[trigger] m_hook(s, id, DROP_METHOD_NAME@)).1
            is Ok implies counted_once(
        s,
        m_hook(s, id, DROP_METHOD_NAME@).0,
        line,
    ) by {
        lemma_hook_of_a_writer(s, id, f, line);
    }
}

/// Exactly-once destruction, for a type that counts in an interpreter
/// with the core module.  Let the `drop` method of a type write a line and
/// do nothing else, and let the objects of the type bind only objects of
/// the type.  Then giving up a handle to one of them, whatever graph they
/// make up, writes as many lines as objects go, and the object itself
/// goes where the handle was the last.
pub proof fn law_a_type_that_counts_is_dropped_exactly_once(
    s: Machine,
    id: int,
    ty: TypeIndex,
    f: FunctionM,
    line: Seq<char>,
)
    requires
        s.modules.len() > 0,
        crate::interpreter::is_core_module(s.modules[0]),
        m_method(s.modules, ty, DROP_METHOD_NAME@) == Some(f),
        writes(f, line),
        well_counted(s.cells),
        crate::exactness::closed_under_members(s.cells, ty),
        m_live(s.cells, id) ==> s.cells[id]->0.type_ == ty,
    ensures
        m_drop_token(s, id).1 is Ok ==> crate::exactness::went_counted(
            s,
            m_drop_token(s, id).0,
            line,
        ),
        m_drop_token(s, id).1 is Ok ==> m_drop_token(s, id).0.output.len() - s.output.len()
            == crate::exactness::alive(s.cells) - crate::exactness::alive(
            m_drop_token(s, id).0.cells,
        ),
        m_drop_token(s, id).1 is Ok && m_count(s.cells, id) == 1 ==> !m_live(
            m_drop_token(s, id).0.cells,
            id,
        ),
{
    law_a_method_that_writes_only_counts(s.modules, ty, f, line);
    crate::exactness::law_as_many_drops_as_objects_went(s, id, ty, line);
}

} // verus!
