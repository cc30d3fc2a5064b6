//! The object store: heap objects, the counted cells that hold them, and
//! the handles that refer to them.
use vstd::prelude::*;
use crate::function::Function;
use crate::model::{
    bindings,
    cell_view,
    lemma_bind_view,
    lemma_differs_view,
    lemma_push_view,
    lemma_release_view,
    lemma_remove_view,
    lemma_retain_view,
    m_bind,
    m_count,
    m_live,
    m_member,
    m_member_of,
    m_release,
    m_remove,
    m_retain,
    m_set_data,
    m_set_members,
    option_view,
    payload_view,
};
use crate::table::NameTable;

verus! {

/// The position of a module in the interpreter's module table.
#[derive(Debug, Clone, Copy, PartialEq, Eq, Structural)]
pub struct ModuleIndex(pub usize);

/// The identity of a type: its module and its position in that module.
#[derive(Debug, Clone, Copy, PartialEq, Eq, Structural)]
pub struct TypeIndex(pub ModuleIndex, pub usize);

/// A handle to one object of an [`ObjectStore`].  Each handle stands for one
/// share of the object's reference count, so a handle is neither copied nor
/// cloned: [`ObjectToken::dup`] makes another, and the interpreter's
/// `drop_token` gives one up.
#[derive(Debug, PartialEq, Eq, Structural)]
pub struct ObjectToken {
    index: usize,
}

impl View for ObjectToken {
    type V = int;

    /// The position of the object's cell in the store.
    closed spec fn view(&self) -> int {
        self.index as int
    }
}

/// The native payload of an object.
pub enum Payload {
    /// No payload: a composite object, or one whose payload was destroyed.
    Empty,
    Bool(bool),
    Int(i64),
    Text(String),
    Function(Function),
}

/// A heap object: its type, its members and its native payload.
pub struct Object {
    pub members: NameTable<ObjectToken>,
    pub type_: TypeIndex,
    pub data: Payload,
}

/// An object together with the number of handles that refer to it.
pub struct SObject {
    pub refs: usize,
    pub object: Object,
}

/// The heap.  A cell is `Some` while its object lives and `None` for good
/// once the object has been destroyed; cells are never reused, so a handle
/// never comes to refer to another object.
pub struct ObjectStore {
    pub cells: Vec<Option<SObject>>,
}

/// A reference count after one more handle was made.  A count that has
/// reached the largest number stays there.
pub open spec fn count_up(refs: usize) -> usize {
    if refs < usize::MAX {
        (refs + 1) as usize
    } else {
        refs
    }
}

/// A reference count after one of several handles was given up.  A count
/// that has reached the largest number stays there.
pub open spec fn count_down(refs: usize) -> usize {
    if 1 < refs < usize::MAX {
        (refs - 1) as usize
    } else {
        refs
    }
}

/// The cells after one more handle to the object at `id` was made: its
/// count has gone up; nothing changes where no object lives at `id`.
pub open spec fn retain_in(cells: Seq<Option<SObject>>, id: int) -> Seq<Option<SObject>> {
    if 0 <= id < cells.len() && cells[id] is Some {
        cells.update(
            id,
            Some(SObject { refs: count_up(cells[id]->0.refs), object: cells[id]->0.object }),
        )
    } else {
        cells
    }
}

/// The cells after one of several handles to the object at `id` was given
/// up: its count has gone down; nothing changes where no object lives at
/// `id`.
pub open spec fn release_in(cells: Seq<Option<SObject>>, id: int) -> Seq<Option<SObject>> {
    if 0 <= id < cells.len() && cells[id] is Some {
        cells.update(
            id,
            Some(SObject { refs: count_down(cells[id]->0.refs), object: cells[id]->0.object }),
        )
    } else {
        cells
    }
}

impl Object {
    /// An object of the given type without members or payload.
    pub fn raw_new(type_: TypeIndex) -> (obj: Object)
        ensures
            obj.type_ == type_,
            obj.members@ == Map::<Seq<char>, ObjectToken>::empty(),
            obj.members.entries@.len() == 0,
            obj.members.distinct(),
            obj.data == Payload::Empty,
    {
        Object { members: NameTable::new(), type_, data: Payload::Empty }
    }
}

impl SObject {
    /// A cell for an object that one handle refers to.
    pub fn new(obj: Object) -> (cell: SObject)
        ensures
            cell.refs == 1,
            cell.object == obj,
    {
        SObject { refs: 1, object: obj }
    }

    /// The object.
    pub fn obj(&self) -> (obj: &Object)
        ensures
            *obj == self.object,
    {
        &self.object
    }

    /// The object, to change it.
    pub fn obj_mut(&mut self) -> (obj: &mut Object)
        ensures
            *obj == old(self).object,
            *final(self) == (SObject { refs: old(self).refs, object: *final(obj) }),
    {
        &mut self.object
    }

    /// Counts one more handle.
    pub fn dup(&mut self)
        ensures
            *final(self) == (SObject { refs: count_up(old(self).refs), object: old(self).object }),
    {
        if self.refs < usize::MAX {
            self.refs = self.refs + 1;
        }
    }
}

impl ObjectToken {
    /// The handle for the cell at `index`.
    pub(crate) fn at(index: usize) -> (token: ObjectToken)
        ensures
            token@ == index,
    {
        ObjectToken { index }
    }

    /// A handle that refers to no object of any store.
    pub fn dangling() -> (token: ObjectToken)
        ensures
            token@ == usize::MAX,
    {
        ObjectToken { index: usize::MAX }
    }

    /// The position of the object's cell.
    pub fn index(&self) -> (index: usize)
        ensures
            index == self@,
    {
        self.index
    }

    /// Two handles are the same value exactly when they refer to the same
    /// cell.
    pub proof fn lemma_same_cell(a: ObjectToken, b: ObjectToken)
        ensures
            (a == b) <==> (a@ == b@),
    {
    }

    /// A handle refers to a position that a store can have.
    pub proof fn lemma_view_bounds(token: ObjectToken)
        ensures
            0 <= token@ <= usize::MAX,
    {
    }

    /// Puts `obj` into the store and returns the first handle to it.
    pub fn new(obj: Object, store: &mut ObjectStore) -> (token: ObjectToken)
        ensures
            token@ == old(store).cells@.len(),
            final(store).cells@ == old(store).cells@.push(Some(SObject { refs: 1, object: obj })),
            final(store)@ == old(store)@.push(Some(cell_view(SObject { refs: 1, object: obj }))),
            old(store).tables_distinct() && obj.members.distinct() ==> final(store).tables_distinct(),
    {
        store.insert(obj)
    }

    /// Another handle to the same object.  The object's count goes up by
    /// one; a handle whose object is gone yields another such handle.
    pub fn dup(&self, store: &mut ObjectStore) -> (token: ObjectToken)
        ensures
            token == *self,
            final(store).cells@ == old(store).retained(self@),
            final(store)@ == m_retain(old(store)@, self@),
    {
        store.retain(self.index);
        ObjectToken { index: self.index }
    }

    /// The member `name` of the object, borrowed from the store: no handle
    /// is made and no count changes.
    pub fn with_member_ref<'a>(&self, name: &str, store: &'a ObjectStore) -> (member: Option<
        &'a ObjectToken,
    >)
        ensures
            member == match store.member_of(self@, name@) {
                Some(token) => Some(&token),
                None => None,
            },
            option_view(
                match member {
                    Some(token) => Some(*token),
                    None => None,
                },
            ) == m_member_of(store@, self@, name@),
    {
        reveal(crate::model::cells_view);
        proof {
            if store.live(self@) {
                crate::model::lemma_member_view(store.object(self@).members.entries@, name@);
            }
        }
        match store.get(self.index) {
            Some(object) => object.members.get(name),
            None => None,
        }
    }

    /// A new handle to the member `name` of the object, if the object lives
    /// and has such a member.
    pub fn get_member(&self, name: &str, store: &mut ObjectStore) -> (member: Option<ObjectToken>)
        ensures
            member == old(store).member_of(self@, name@),
            final(store).cells@ == match member {
                Some(token) => old(store).retained(token@),
                None => old(store).cells@,
            },
            option_view(member) == m_member_of(old(store)@, self@, name@),
            final(store)@ == match member {
                Some(token) => m_retain(old(store)@, token@),
                None => old(store)@,
            },
    {
        reveal(crate::model::bindings);
        reveal(crate::model::cells_view);
        reveal(crate::model::binding_names);
        proof {
            if store.live(self@) {
                crate::model::lemma_member_view(store.object(self@).members.entries@, name@);
            }
        }
        let found: Option<usize> = match store.get(self.index) {
            Some(object) => match object.members.get(name) {
                Some(token) => Some(token.index),
                None => None,
            },
            None => None,
        };
        match found {
            Some(index) => {
                store.retain(index);
                Some(ObjectToken { index })
            },
            None => None,
        }
    }

    /// The object, while it lives.
    pub fn obj<'a>(&self, store: &'a ObjectStore) -> (obj: Option<&'a Object>)
        ensures
            obj is Some == m_live(store@, self@),
            obj is Some ==> store@[self@]->0 == cell_view(
                SObject { refs: store.count(self@), object: *obj->0 },
            ),
            obj == if store.live(self@) {
                Some(&store.object(self@))
            } else {
                None
            },
    {
        store.get(self.index)
    }

    /// The object, to change it, while it lives.
    pub fn obj_mut<'a>(&self, store: &'a mut ObjectStore) -> (obj: Option<&'a mut Object>)
        ensures
            old(store).live(self@) ==> obj is Some && *obj->0 == old(store).object(self@)
                && final(store).cells@ == old(store).cells@.update(
                self@,
                Some(SObject { refs: old(store).count(self@), object: *final(obj->0) }),
            ),
            !old(store).live(self@) ==> obj is None && final(store).cells@ == old(store).cells@,
    {
        store.get_mut(self.index)
    }
}

impl ObjectStore {
    /// Whether the cell at `id` holds a live object.
    pub open spec fn live(&self, id: int) -> bool {
        0 <= id < self.cells@.len() && self.cells@[id] is Some
    }

    /// The object in the cell at `id`.
    pub open spec fn object(&self, id: int) -> Object
        recommends
            self.live(id),
    {
        self.cells@[id]->0.object
    }

    /// The number of handles to the object at `id`.
    pub open spec fn count(&self, id: int) -> usize {
        if self.live(id) {
            self.cells@[id]->0.refs
        } else {
            0
        }
    }

    /// The cells after one more handle to the object at `id` was made.
    pub open spec fn retained(&self, id: int) -> Seq<Option<SObject>> {
        retain_in(self.cells@, id)
    }

    /// The cells after one of several handles to the object at `id` was
    /// given up.
    pub open spec fn released(&self, id: int) -> Seq<Option<SObject>> {
        release_in(self.cells@, id)
    }

    /// The member `name` of the object at `id`.
    pub open spec fn member_of(&self, id: int, name: Seq<char>) -> Option<ObjectToken> {
        if self.live(id) && self.object(id).members@.dom().contains(name) {
            Some(self.object(id).members@[name])
        } else {
            None
        }
    }

    /// An empty store.
    pub fn new() -> (store: ObjectStore)
        ensures
            store.cells@.len() == 0,
    {
        ObjectStore { cells: Vec::new() }
    }

    /// The number of cells: the number of objects ever put into the store.
    pub fn len(&self) -> (n: usize)
        ensures
            n == self.cells@.len(),
    {
        self.cells.len()
    }

    /// Puts an object into a new cell with a count of one.
    pub fn insert(&mut self, obj: Object) -> (token: ObjectToken)
        ensures
            token@ == old(self).cells@.len(),
            final(self).cells@ == old(self).cells@.push(Some(SObject { refs: 1, object: obj })),
            final(self)@ == old(self)@.push(Some(cell_view(SObject { refs: 1, object: obj }))),
            old(self).tables_distinct() && obj.members.distinct() ==> final(self).tables_distinct(),
    {
        let index = self.cells.len();
        self.cells.push(Some(SObject::new(obj)));
        proof {
            lemma_push_view(old(self).cells@, SObject { refs: 1, object: obj });
        }
        ObjectToken::at(index)
    }

    /// Whether the cell at `index` holds a live object.
    pub fn is_live(&self, index: usize) -> (live: bool)
        ensures
            live == self.live(index as int),
            live == m_live(self@, index as int),
    {
        reveal(crate::model::cells_view);
        index < self.cells.len() && self.cells[index].is_some()
    }

    /// The number of handles to the object at `index`; zero once it is gone.
    pub fn strong_count(&self, index: usize) -> (n: usize)
        ensures
            n == self.count(index as int),
            n == m_count(self@, index as int),
    {
        reveal(crate::model::cells_view);
        if index < self.cells.len() {
            match &self.cells[index] {
                Some(cell) => cell.refs,
                None => 0,
            }
        } else {
            0
        }
    }

    /// The object at `index`, while it lives.
    pub fn get(&self, index: usize) -> (obj: Option<&Object>)
        ensures
            obj is Some == m_live(self@, index as int),
            obj is Some ==> self@[index as int]->0 == cell_view(
                SObject { refs: self.count(index as int), object: *obj->0 },
            ),
            obj == if self.live(index as int) {
                Some(&self.object(index as int))
            } else {
                None
            },
    {
        reveal(crate::model::bindings);
        reveal(crate::model::cells_view);
        if index < self.cells.len() {
            match &self.cells[index] {
                Some(cell) => Some(&cell.object),
                None => None,
            }
        } else {
            None
        }
    }

    /// The object at `index`, to change it, while it lives.
    pub fn get_mut(&mut self, index: usize) -> (obj: Option<&mut Object>)
        ensures
            old(self).live(index as int) ==> obj is Some && *obj->0 == old(self).object(
                index as int,
            ) && final(self).cells@ == old(self).cells@.update(
                index as int,
                Some(SObject { refs: old(self).count(index as int), object: *final(obj->0) }),
            ),
            !old(self).live(index as int) ==> obj is None && final(self).cells@ == old(self).cells@,
    {
        if index < self.cells.len() {
            match &mut self.cells[index] {
                Some(cell) => Some(&mut cell.object),
                None => None,
            }
        } else {
            None
        }
    }

    /// Counts one more handle to the object at `index`, if it lives.
    pub fn retain(&mut self, index: usize)
        ensures
            final(self).cells@ == old(self).retained(index as int),
            final(self)@ == m_retain(old(self)@, index as int),
    {
        proof {
            lemma_retain_view(self.cells@, index as int);
        }
        if index < self.cells.len() {
            match &mut self.cells[index] {
                Some(cell) => {
                    cell.dup();
                },
                None => {},
            }
        }
    }

    /// Counts one handle less to the object at `index`, if it lives and
    /// other handles remain.
    pub fn release(&mut self, index: usize)
        ensures
            final(self).cells@ == old(self).released(index as int),
            final(self)@ == m_release(old(self)@, index as int),
    {
        proof {
            lemma_release_view(self.cells@, index as int);
        }
        if index < self.cells.len() {
            match &mut self.cells[index] {
                Some(cell) => {
                    if 1 < cell.refs && cell.refs < usize::MAX {
                        cell.refs = cell.refs - 1;
                    }
                },
                None => {},
            }
        }
    }

    /// Whether no object of the store holds a member name twice.  Every
    /// object that the runtime makes is so, and binding a member keeps it
    /// so.
    pub open spec fn tables_distinct(&self) -> bool {
        forall|i: int|
            0 <= i < self.cells@.len() && (#[trigger] self.cells@[i]) is Some
                ==> self.cells@[i]->0.object.members.distinct()
    }

    /// Whether `later` is a later state of this store: no cell is lost, a
    /// cell that is empty stays empty, and an object keeps its type.
    pub open spec fn grows_to(&self, later: &ObjectStore) -> bool {
        &&& self.cells@.len() <= later.cells@.len()
        &&& forall|i: int|
            0 <= i < self.cells@.len() && (#[trigger] later.cells@[i]) is Some
                ==> self.cells@[i] is Some && later.cells@[i]->0.object.type_
                == self.cells@[i]->0.object.type_
    }

    /// Whether `later` differs from this store in the cell at `id` alone,
    /// where both hold an object with the same count and type.
    pub open spec fn differs_in_object(&self, later: &ObjectStore, id: int) -> bool {
        &&& self.live(id)
        &&& later.live(id)
        &&& later.cells@.len() == self.cells@.len()
        &&& later.count(id) == self.count(id)
        &&& later.object(id).type_ == self.object(id).type_
        &&& forall|j: int|
            0 <= j < self.cells@.len() && j != id ==> (#[trigger] later.cells@[j])
                == self.cells@[j]
    }

    /// Binds `name` to `value` in the object at `index` and hands back the
    /// handle that the name was bound to before.  Where no object lives at
    /// `index`, the value comes back as the error.
    pub fn put_member(&mut self, index: usize, name: String, value: ObjectToken) -> (displaced:
        Result<Option<ObjectToken>, ObjectToken>)
        ensures
            old(self).live(index as int) ==> {
                let before = old(self).object(index as int);
                let after = final(self).object(index as int);
                &&& old(self).differs_in_object(final(self), index as int)
                &&& after.members@ == before.members@.insert(name@, value)
                &&& after.members.entries@.len() == before.members.entries@.len()
                    + if before.members@.dom().contains(name@) {
                    0int
                } else {
                    1int
                }
                &&& after.data == before.data
                &&& displaced == Ok::<Option<ObjectToken>, ObjectToken>(
                    if before.members@.dom().contains(name@) {
                        Some(before.members@[name@])
                    } else {
                        None
                    },
                )
            },
            !old(self).live(index as int) ==> displaced == Err::<
                Option<ObjectToken>,
                ObjectToken,
            >(value) && final(self).cells@ == old(self).cells@,
            m_live(old(self)@, index as int) ==> {
                let members = old(self)@[index as int]->0.members;
                &&& final(self)@ == m_set_members(
                    old(self)@,
                    index as int,
                    m_bind(members, name@, value@),
                )
                &&& displaced is Ok
                &&& option_view(displaced->Ok_0) == m_member(members, name@)
            },
            !m_live(old(self)@, index as int) ==> displaced == Err::<
                Option<ObjectToken>,
                ObjectToken,
            >(value) && final(self)@ == old(self)@,
            old(self).tables_distinct() ==> final(self).tables_distinct(),
    {
        reveal(crate::model::bindings);
        reveal(crate::model::cells_view);
        reveal(crate::model::binding_names);
        let displaced = match self.get_mut(index) {
            Some(object) => Ok(object.members.insert(name, value)),
            None => Err(value),
        };
        proof {
            if old(self).live(index as int) {
                lemma_bind_view(
                    old(self).object(index as int).members.entries@,
                    self.object(index as int).members.entries@,
                    name,
                    value,
                );
                lemma_differs_view(*old(self), *self, index as int);
                assert(self@ =~= m_set_members(
                    old(self)@,
                    index as int,
                    m_bind(old(self)@[index as int]->0.members, name@, value@),
                ));
            }
        }
        displaced
    }

    /// Gives the object at `index` the payload `data` and hands back the
    /// payload that it had.  Where no object lives at `index`, the payload
    /// comes back as the error.
    pub fn put_payload(&mut self, index: usize, data: Payload) -> (displaced: Result<
        Payload,
        Payload,
    >)
        ensures
            old(self).live(index as int) ==> {
                let before = old(self).object(index as int);
                let after = final(self).object(index as int);
                &&& old(self).differs_in_object(final(self), index as int)
                &&& after.members == before.members
                &&& after.data == data
                &&& displaced == Ok::<Payload, Payload>(before.data)
            },
            !old(self).live(index as int) ==> displaced == Err::<Payload, Payload>(data)
                && final(self).cells@ == old(self).cells@,
            final(self)@ == m_set_data(old(self)@, index as int, payload_view(data)),
            m_live(old(self)@, index as int) ==> displaced is Ok && payload_view(displaced->Ok_0)
                == old(self)@[index as int]->0.data,
            !m_live(old(self)@, index as int) ==> displaced is Err,
    {
        reveal(crate::model::bindings);
        reveal(crate::model::cells_view);
        let ghost given = data;
        let displaced = match self.get_mut(index) {
            Some(object) => {
                let mut data = data;
                std::mem::swap(&mut object.data, &mut data);
                Ok(data)
            },
            None => Err(data),
        };
        proof {
            if old(self).live(index as int) {
                lemma_differs_view(*old(self), *self, index as int);
                assert(self@ =~= m_set_data(old(self)@, index as int, payload_view(given)));
            } else {
                assert(self@ =~= old(self)@);
            }
        }
        displaced
    }

    /// Takes the object at `index` out of the store.  Its cell stays empty
    /// from then on.
    pub fn remove(&mut self, index: usize) -> (obj: Option<Object>)
        ensures
            old(self).live(index as int) ==> obj == Some(old(self).object(index as int))
                && final(self).cells@ == old(self).cells@.update(index as int, None),
            !old(self).live(index as int) ==> obj is None && final(self).cells@ == old(self).cells@,
            final(self)@ == m_remove(old(self)@, index as int),
            m_live(old(self)@, index as int)
                ==> obj is Some && payload_view(obj->0.data) == old(self)@[index as int]->0.data
                && bindings(obj->0.members.entries@) == old(self)@[index as int]->0.members
                && obj->0.type_ == old(self)@[index as int]->0.type_,
            !m_live(old(self)@, index as int) ==> obj is None,
    {
        reveal(crate::model::bindings);
        reveal(crate::model::cells_view);
        proof {
            if self.live(index as int) {
                lemma_remove_view(self.cells@, index as int);
            }
        }
        if index < self.cells.len() {
            let mut cell: Option<SObject> = None;
            std::mem::swap(&mut self.cells[index], &mut cell);
            match cell {
                Some(cell) => Some(cell.object),
                None => None,
            }
        } else {
            None
        }
    }
}

} // verus!
