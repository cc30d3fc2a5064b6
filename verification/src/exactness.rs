//! Exactly-once destruction: where the `drop` method of a type only
//! counts, as many lines are written as objects go.
use vstd::prelude::*;
use crate::consts::{unit_type_id, DROP_METHOD_NAME};
use crate::error::ErrorKind;
use crate::model::{m_count, m_live, m_release, m_remove, values_of, CellM, Machine};
use crate::object::TypeIndex;
use crate::semantics::{
    clamp,
    m_destroy,
    m_drop_token,
    m_enter,
    m_first_error,
    m_hook,
    m_leave,
    m_release_seq,
};
use crate::types::Module;

verus! {

/// The number of objects that live among `cells`.
pub open spec fn alive(cells: Seq<Option<CellM>>) -> nat
    decreases cells.len(),
{
    if cells.len() == 0 {
        0
    } else {
        alive(cells.drop_last()) + if cells.last() is Some {
            1nat
        } else {
            0nat
        }
    }
}

/// Whether every object among `cells` counts a handle, as every object
/// that the runtime holds does.
pub open spec fn well_counted(cells: Seq<Option<CellM>>) -> bool {
    forall|i: int| 0 <= i < cells.len() && (#[trigger] cells[i]) is Some ==> cells[i]->0.refs >= 1
}

/// Whether `t` is `s` after a `drop` method that only counts has run
/// once: one line more, `line`, and every object as it was but for its
/// count; what the run made, it has destroyed again.
pub open spec fn counted_once(s: Machine, t: Machine, line: Seq<char>) -> bool {
    &&& well_counted(t.cells)
    &&& t.modules == s.modules
    &&& t.output == s.output.push(line)
    &&& t.cells.len() >= s.cells.len()
    &&& forall|i: int|
        0 <= i < s.cells.len() ==> {
            &&& (#[trigger] t.cells[i]) is Some == s.cells[i] is Some
            &&& t.cells[i] is Some ==> {
                &&& t.cells[i]->0.type_ == s.cells[i]->0.type_
                &&& t.cells[i]->0.data == s.cells[i]->0.data
                &&& t.cells[i]->0.members == s.cells[i]->0.members
            }
        }
    &&& forall|i: int| s.cells.len() <= i < t.cells.len() ==> (#[trigger] t.cells[i]) is None
}

/// Whether the `drop` method of the type `ty` only counts: whenever its
/// hook returns normally on an object of the type, in a state in which
/// every object counts a handle, it has written `line`
/// and nothing else, and has left every object as it was but for its
/// count.
pub open spec fn drop_only_counts(modules: Seq<Module>, ty: TypeIndex, line: Seq<char>) -> bool {
    forall|s: Machine, id: int|
        s.modules == modules && well_counted(s.cells) && m_live(s.cells, id)
            && s.cells[id]->0.type_ == ty && (#[trigger] m_hook(s, id, DROP_METHOD_NAME@)).1
            is Ok ==> counted_once(
            s,
            m_hook(s, id, DROP_METHOD_NAME@).0,
            line,
        )
}

/// Whether the objects of the type `ty` among `cells` make up graphs of
/// their own: each holds no function, and what it binds, while it lives,
/// is an object of the type.
pub open spec fn closed_under_members(cells: Seq<Option<CellM>>, ty: TypeIndex) -> bool {
    forall|i: int|
        m_live(cells, i) && (#[trigger] cells[i])->0.type_ == ty ==> {
            &&& !(cells[i]->0.data is Function)
            &&& forall|k: int|
                0 <= k < cells[i]->0.members.len() && m_live(
                    cells,
                    #[trigger] cells[i]->0.members[k].value,
                ) ==> cells[cells[i]->0.members[k].value]->0.type_ == ty
        }
}

/// Whether `t` follows `s` in a cascade of destructions in which every
/// `drop` method only counts: no object is new, an object that is still
/// there is as it was but for its count, and as many lines `line` were
/// written as objects went.
pub open spec fn went_counted(s: Machine, t: Machine, line: Seq<char>) -> bool {
    &&& well_counted(t.cells)
    &&& t.modules == s.modules
    &&& t.cells.len() >= s.cells.len()
    &&& forall|i: int|
        0 <= i < t.cells.len() && (#[trigger] t.cells[i]) is Some ==> {
            &&& i < s.cells.len()
            &&& s.cells[i] is Some
            &&& t.cells[i]->0.type_ == s.cells[i]->0.type_
            &&& t.cells[i]->0.data == s.cells[i]->0.data
            &&& t.cells[i]->0.members == s.cells[i]->0.members
        }
    &&& t.output.len() >= s.output.len()
    &&& t.output.subrange(0, s.output.len() as int) == s.output
    &&& forall|j: int| s.output.len() <= j < t.output.len() ==> #[trigger] t.output[j] == line
    &&& t.output.len() + alive(t.cells) == s.output.len() + alive(s.cells)
}

/// A change of one object that stays leaves the number of objects.
pub proof fn lemma_alive_update(cells: Seq<Option<CellM>>, at: int, cell: CellM)
    requires
        m_live(cells, at),
    ensures
        alive(cells.update(at, Some(cell))) == alive(cells),
    decreases cells.len(),
{
    let changed = cells.update(at, Some(cell));
    if at == cells.len() - 1 {
        assert(changed.drop_last() =~= cells.drop_last());
    } else {
        assert(changed.drop_last() =~= cells.drop_last().update(at, Some(cell)));
        lemma_alive_update(cells.drop_last(), at, cell);
    }
}

/// The removal of an object leaves one object less.
pub proof fn lemma_alive_remove(cells: Seq<Option<CellM>>, at: int)
    requires
        m_live(cells, at),
    ensures
        alive(cells.update(at, None)) + 1 == alive(cells),
    decreases cells.len(),
{
    let changed = cells.update(at, None);
    if at == cells.len() - 1 {
        assert(changed.drop_last() =~= cells.drop_last());
    } else {
        assert(changed.drop_last() =~= cells.drop_last().update(at, None));
        lemma_alive_remove(cells.drop_last(), at);
    }
}

/// Empty cells behind the cells of a store add no object, and a change of
/// objects that stay takes none away.
pub proof fn lemma_alive_grown(before: Seq<Option<CellM>>, after: Seq<Option<CellM>>)
    requires
        before.len() <= after.len(),
        forall|i: int|
            0 <= i < before.len() ==> (#[trigger] after[i]) is Some == before[i] is Some,
        forall|i: int| before.len() <= i < after.len() ==> (#[trigger] after[i]) is None,
    ensures
        alive(after) == alive(before),
    decreases after.len(),
{
    if after.len() == 0 {
    } else if after.len() == before.len() {
        assert forall|i: int| 0 <= i < before.drop_last().len() implies (
        #[trigger] after.drop_last()[i]) is Some == before.drop_last()[i] is Some by {
            assert(after[i] is Some == before[i] is Some);
        }
        lemma_alive_grown(before.drop_last(), after.drop_last());
    } else {
        assert forall|i: int| 0 <= i < before.len() implies (#[trigger] after.drop_last()[i])
            is Some == before[i] is Some by {
            assert(after[i] is Some == before[i] is Some);
        }
        lemma_alive_grown(before, after.drop_last());
    }
}

/// A cascade after a cascade is a cascade.
pub proof fn lemma_went_counted_twice(s: Machine, t: Machine, u: Machine, line: Seq<char>)
    requires
        went_counted(s, t, line),
        went_counted(t, u, line),
    ensures
        went_counted(s, u, line),
{
    assert forall|j: int| 0 <= j < t.output.len() implies u.output[j] == t.output[j] by {
        assert(u.output.subrange(0, t.output.len() as int)[j] == u.output[j]);
    }
    assert forall|j: int| 0 <= j < s.output.len() implies t.output[j] == s.output[j] by {
        assert(t.output.subrange(0, s.output.len() as int)[j] == t.output[j]);
    }
    assert(u.output.subrange(0, s.output.len() as int) =~= s.output);
    assert forall|i: int| 0 <= i < u.cells.len() && (#[trigger] u.cells[i]) is Some implies {
        &&& i < s.cells.len()
        &&& s.cells[i] is Some
        &&& u.cells[i]->0.type_ == s.cells[i]->0.type_
        &&& u.cells[i]->0.data == s.cells[i]->0.data
        &&& u.cells[i]->0.members == s.cells[i]->0.members
    } by {
        assert(t.cells[i] is Some);
    }
}

/// A cascade leaves the graphs of the type closed.
pub proof fn lemma_stays_closed(s: Machine, t: Machine, ty: TypeIndex, line: Seq<char>)
    requires
        went_counted(s, t, line),
        closed_under_members(s.cells, ty),
    ensures
        closed_under_members(t.cells, ty),
{
    assert forall|i: int| m_live(t.cells, i) && (#[trigger] t.cells[i])->0.type_ == ty implies {
        &&& !(t.cells[i]->0.data is Function)
        &&& forall|k: int|
            0 <= k < t.cells[i]->0.members.len() && m_live(
                t.cells,
                #[trigger] t.cells[i]->0.members[k].value,
            ) ==> t.cells[t.cells[i]->0.members[k].value]->0.type_ == ty
    } by {
        assert(s.cells[i] is Some);
        assert forall|k: int|
            0 <= k < t.cells[i]->0.members.len() && m_live(
                t.cells,
                #[trigger] t.cells[i]->0.members[k].value,
            ) implies t.cells[t.cells[i]->0.members[k].value]->0.type_ == ty by {
            let v = t.cells[i]->0.members[k].value;
            assert(t.cells[v] is Some);
            assert(s.cells[i]->0.members[k].value == v);
        }
    }
}

/// An error that has come up stays the outcome of the releases that
/// follow it.
pub proof fn lemma_error_is_kept(s: Machine, ids: Seq<int>, outcome: Result<(), ErrorKind>)
    requires
        outcome is Err,
    ensures
        m_release_seq(s, ids, outcome).1 == outcome,
    decreases ids.len(),
{
    reveal(m_release_seq);
    reveal(m_drop_token);
    if ids.len() > 0 {
        let released = m_drop_token(s, ids.last());
        lemma_error_is_kept(
            clamp(s, released.0),
            ids.drop_last(),
            m_first_error(outcome, released.1),
        );
    }
}

/// Exactly-once destruction, for `m_drop_token`: see
/// `law_as_many_drops_as_objects_went`.
pub proof fn lemma_drop_counted(s: Machine, id: int, ty: TypeIndex, line: Seq<char>)
    requires
        ty != unit_type_id(),
        drop_only_counts(s.modules, ty, line),
        well_counted(s.cells),
        closed_under_members(s.cells, ty),
        m_live(s.cells, id) ==> s.cells[id]->0.type_ == ty,
    ensures
        m_drop_token(s, id).1 is Ok ==> went_counted(s, m_drop_token(s, id).0, line),
        m_drop_token(s, id).1 is Ok && m_count(s.cells, id) == 1 ==> !m_live(
            m_drop_token(s, id).0.cells,
            id,
        ),
    decreases s.budget, 0int, 0int,
{
    reveal(m_drop_token);
    reveal(m_destroy);
    let count = m_count(s.cells, id);
    if count == 0 {
    } else if count != 1 {
        let t = Machine { cells: m_release(s.cells, id), ..s };
        lemma_alive_update(s.cells, id, t.cells[id]->0);
        assert(t.cells =~= s.cells.update(id, Some(t.cells[id]->0)));
        assert(t.output.subrange(0, s.output.len() as int) =~= s.output);
    } else if m_enter(s).1 is Ok {
        let entered = m_enter(s).0;
        lemma_destroy_counted(entered, id, ty, line);
        let destroyed = m_destroy(entered, id);
        if destroyed.1 is Ok {
            assert(went_counted(s, m_leave(destroyed.0), line));
        }
    }
}

/// Exactly-once destruction, for `m_destroy`: see
/// `law_as_many_drops_as_objects_went`.
pub proof fn lemma_destroy_counted(s: Machine, id: int, ty: TypeIndex, line: Seq<char>)
    requires
        ty != unit_type_id(),
        drop_only_counts(s.modules, ty, line),
        well_counted(s.cells),
        closed_under_members(s.cells, ty),
        m_live(s.cells, id) ==> s.cells[id]->0.type_ == ty,
    ensures
        m_destroy(s, id).1 is Ok ==> went_counted(s, m_destroy(s, id).0, line),
        m_destroy(s, id).1 is Ok ==> !m_live(m_destroy(s, id).0.cells, id),
    decreases s.budget, 30int, 0int,
{
    reveal(m_destroy);
    reveal(m_release_seq);
    reveal(m_hook);
    reveal(m_drop_token);
    if m_live(s.cells, id) {
        let hooked = m_hook(s, id, DROP_METHOD_NAME@);
        let s2 = clamp(s, hooked.0);
        if m_count(s2.cells, id) == 1 {
            let cell = s2.cells[id]->0;
            let s3 = Machine { cells: m_remove(s2.cells, id), ..s2 };
            let ids = values_of(cell.members);
            if hooked.1 is Err {
                let closed = match cell.data {
                    crate::model::PayloadM::Function(f) => if m_live(s3.cells, f.closure) {
                        m_drop_token(s3, f.closure)
                    } else {
                        (s3, Ok(()))
                    },
                    _ => (s3, Ok(())),
                };
                lemma_error_is_kept(clamp(s3, closed.0), ids, m_first_error(hooked.1, closed.1));
            } else {
                assert(counted_once(s, hooked.0, line));
                assert(s2.cells[id] is Some);
                assert(cell.members == s.cells[id]->0.members);
                lemma_alive_grown(s.cells, s2.cells);
                lemma_alive_remove(s2.cells, id);
                assert(s3.cells =~= s2.cells.update(id, None));
                assert(went_counted(s, s3, line)) by {
                    assert(s3.output.subrange(0, s.output.len() as int) =~= s.output);
                }
                lemma_stays_closed(s, s3, ty, line);
                reveal(values_of);
                assert forall|k: int| 0 <= k < ids.len() && m_live(s3.cells, #[trigger] ids[k])
                    implies s3.cells[ids[k]]->0.type_ == ty by {
                    assert(ids[k] == s.cells[id]->0.members[k].value);
                    assert(s3.cells[ids[k]] is Some);
                }
                lemma_release_counted(s3, ids, Ok(()), ty, line);
                let t = m_release_seq(s3, ids, Ok(())).0;
                if m_release_seq(s3, ids, Ok(())).1 is Ok {
                    lemma_went_counted_twice(s, s3, t, line);
                }
            }
        }
    }
}

/// Exactly-once destruction, for `m_release_seq`: see
/// `law_as_many_drops_as_objects_went`.
pub proof fn lemma_release_counted(
    s: Machine,
    ids: Seq<int>,
    outcome: Result<(), ErrorKind>,
    ty: TypeIndex,
    line: Seq<char>,
)
    requires
        ty != unit_type_id(),
        drop_only_counts(s.modules, ty, line),
        well_counted(s.cells),
        closed_under_members(s.cells, ty),
        forall|k: int|
            0 <= k < ids.len() && m_live(s.cells, #[trigger] ids[k]) ==> s.cells[ids[k]]->0.type_
                == ty,
    ensures
        m_release_seq(s, ids, outcome).1 is Ok ==> went_counted(
            s,
            m_release_seq(s, ids, outcome).0,
            line,
        ),
    decreases s.budget, 1int, ids.len(),
{
    reveal(m_release_seq);
    reveal(m_drop_token);
    if ids.len() == 0 {
        assert(s.output.subrange(0, s.output.len() as int) =~= s.output);
    } else {
        let last = ids.last();
        let rest = ids.drop_last();
        assert(ids[ids.len() - 1] == last);
        lemma_drop_counted(s, last, ty, line);
        let released = m_drop_token(s, last);
        let next = clamp(s, released.0);
        let passed = m_first_error(outcome, released.1);
        if released.1 is Err {
            lemma_error_is_kept(next, rest, passed);
        } else {
            assert(went_counted(s, next, line));
            lemma_stays_closed(s, next, ty, line);
            assert forall|k: int| 0 <= k < rest.len() && m_live(next.cells, #[trigger] rest[k])
                implies next.cells[rest[k]]->0.type_ == ty by {
                assert(rest[k] == ids[k]);
                assert(next.cells[rest[k]] is Some);
            }
            lemma_release_counted(next, rest, passed, ty, line);
            let t = m_release_seq(next, rest, passed).0;
            if m_release_seq(next, rest, passed).1 is Ok {
                lemma_went_counted_twice(s, next, t, line);
            }
        }
    }
}

/// Exactly-once destruction.  Take a type, other than the unit type,
/// whose `drop` method only counts: it writes one line and leaves every
/// object as it was.  Where objects of the type bind only objects of the
/// type, giving up a handle to one of them, whatever graph they make up,
/// writes as many lines as objects go: each object that is destroyed has
/// its `drop` method run once, and none runs for an object that stays.  No
/// object is new afterwards, and one that is still there is as it was but
/// for its count.  The object itself goes where the handle was the last.
pub proof fn law_as_many_drops_as_objects_went(s: Machine, id: int, ty: TypeIndex, line: Seq<char>)
    requires
        ty != unit_type_id(),
        drop_only_counts(s.modules, ty, line),
        well_counted(s.cells),
        closed_under_members(s.cells, ty),
        m_live(s.cells, id) ==> s.cells[id]->0.type_ == ty,
    ensures
        m_drop_token(s, id).1 is Ok ==> went_counted(s, m_drop_token(s, id).0, line),
        m_drop_token(s, id).1 is Ok ==> m_drop_token(s, id).0.output.len() - s.output.len()
            == alive(s.cells) - alive(m_drop_token(s, id).0.cells),
        m_drop_token(s, id).1 is Ok && m_count(s.cells, id) == 1 ==> !m_live(
            m_drop_token(s, id).0.cells,
            id,
        ),
{
    lemma_drop_counted(s, id, ty, line);
}

} // verus!
