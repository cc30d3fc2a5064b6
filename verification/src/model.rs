//! The mathematical model of the runtime's state: what the contracts of
//! the stack machine are stated over.
use vstd::prelude::*;
use crate::consts::{scope_type_id, PARENT_MEMBER_NAME};
use crate::error::{ErrorKind, TriconeError};
use crate::function::{Body, Function};
use crate::interpreter::Interpreter;
use crate::names::{first_position, lemma_position_from};
use crate::object::{
    count_down,
    count_up,
    release_in,
    retain_in,
    ObjectStore,
    ObjectToken,
    Payload,
    SObject,
    TypeIndex,
};
use crate::scope::{lookup_in, Frame};
use crate::table::{entries_map, entry_names, Entry};
use crate::types::Module;

verus! {

/// A function: its body, its arity and the cell of its closure.
pub struct FunctionM {
    pub body: Body,
    pub arity: usize,
    pub closure: int,
}

/// A native payload.
pub enum PayloadM {
    Empty,
    Bool(bool),
    Int(i64),
    Text(Seq<char>),
    Function(FunctionM),
}

/// One member of an object: a name and the cell that it is bound to.
pub struct Binding {
    pub name: Seq<char>,
    pub value: int,
}

/// A live object with its count.
pub struct CellM {
    pub refs: usize,
    pub type_: TypeIndex,
    pub data: PayloadM,
    pub members: Seq<Binding>,
}

/// The state of the runtime.
pub struct Machine {
    /// The registry, which no run changes.
    pub modules: Seq<Module>,
    /// The store: a cell is `None` once its object is destroyed.
    pub cells: Seq<Option<CellM>>,
    /// The operand stack, the top last.
    pub stack: Seq<int>,
    /// The current scope of each active frame, the innermost frame last.
    pub frames: Seq<int>,
    /// The lines written so far.
    pub output: Seq<Seq<char>>,
    /// The steps that are left.
    pub budget: usize,
    /// The number of calls and destructions that are under way, one
    /// inside the other.
    pub depth: usize,
}

/// The model of a function.
pub open spec fn function_view(f: Function) -> FunctionM {
    FunctionM { body: *f.code.body, arity: f.arity, closure: f.closure.vars@ }
}

/// The model of a payload.
pub open spec fn payload_view(p: Payload) -> PayloadM {
    match p {
        Payload::Empty => PayloadM::Empty,
        Payload::Bool(b) => PayloadM::Bool(b),
        Payload::Int(i) => PayloadM::Int(i),
        Payload::Text(s) => PayloadM::Text(s@),
        Payload::Function(f) => PayloadM::Function(function_view(f)),
    }
}

/// The model of a member table.
#[verifier::opaque]
pub open spec fn bindings(entries: Seq<Entry<ObjectToken>>) -> Seq<Binding> {
    Seq::new(entries.len(), |i: int| Binding { name: entries[i].name@, value: entries[i].value@ })
}

/// The model of a counted object.
pub open spec fn cell_view(cell: SObject) -> CellM {
    CellM {
        refs: cell.refs,
        type_: cell.object.type_,
        data: payload_view(cell.object.data),
        members: bindings(cell.object.members.entries@),
    }
}

/// The model of the cells of a store.
#[verifier::opaque]
pub open spec fn cells_view(cells: Seq<Option<SObject>>) -> Seq<Option<CellM>> {
    Seq::new(
        cells.len(),
        |i: int|
            match cells[i] {
                Some(cell) => Some(cell_view(cell)),
                None => None,
            },
    )
}

/// The cells that a sequence of handles refers to.
#[verifier::opaque]
pub open spec fn tokens_view(tokens: Seq<ObjectToken>) -> Seq<int> {
    Seq::new(tokens.len(), |i: int| tokens[i]@)
}

/// The current scopes of a sequence of frames.
#[verifier::opaque]
pub open spec fn frames_view(frames: Seq<Frame>) -> Seq<int> {
    Seq::new(frames.len(), |i: int| frames[i].top_scope.vars@)
}

/// The texts of a sequence of lines.
#[verifier::opaque]
pub open spec fn lines_view(lines: Seq<String>) -> Seq<Seq<char>> {
    Seq::new(lines.len(), |i: int| lines[i]@)
}

impl View for ObjectStore {
    type V = Seq<Option<CellM>>;

    open spec fn view(&self) -> Seq<Option<CellM>> {
        cells_view(self.cells@)
    }
}

impl View for Interpreter {
    type V = Machine;

    open spec fn view(&self) -> Machine {
        Machine {
            modules: self.modules@,
            cells: self.store@,
            stack: tokens_view(self.thread.operation_stack@),
            frames: frames_view(self.thread.frame_stack@),
            output: lines_view(self.output@),
            budget: self.budget,
            depth: self.depth,
        }
    }
}

/// The model of a result that is a handle or nothing.
pub open spec fn result_view(r: Result<Option<ObjectToken>, TriconeError>) -> Result<
    Option<int>,
    ErrorKind,
> {
    match r {
        Ok(Some(token)) => Ok(Some(token@)),
        Ok(None) => Ok(None),
        Err(e) => Err(e.kind),
    }
}

/// The model of a result that is a handle.
pub open spec fn token_result_view(r: Result<ObjectToken, TriconeError>) -> Result<
    int,
    ErrorKind,
> {
    match r {
        Ok(token) => Ok(token@),
        Err(e) => Err(e.kind),
    }
}

/// The model of a result without a value.
pub open spec fn unit_result_view(r: Result<(), TriconeError>) -> Result<(), ErrorKind> {
    match r {
        Ok(()) => Ok(()),
        Err(e) => Err(e.kind),
    }
}

/// The model of an optional handle.
pub open spec fn option_view(token: Option<ObjectToken>) -> Option<int> {
    match token {
        Some(token) => Some(token@),
        None => None,
    }
}

/// Whether an object lives in the cell `id`.
pub open spec fn m_live(cells: Seq<Option<CellM>>, id: int) -> bool {
    0 <= id < cells.len() && cells[id] is Some
}

/// The count of the object in the cell `id`; zero where none lives there.
pub open spec fn m_count(cells: Seq<Option<CellM>>, id: int) -> usize {
    if m_live(cells, id) {
        cells[id]->0.refs
    } else {
        0
    }
}

/// The cells after one more handle to the object in `id` was made.
pub open spec fn m_retain(cells: Seq<Option<CellM>>, id: int) -> Seq<Option<CellM>> {
    if m_live(cells, id) {
        cells.update(id, Some(CellM { refs: count_up(cells[id]->0.refs), ..cells[id]->0 }))
    } else {
        cells
    }
}

/// The cells after one of several handles to the object in `id` was given
/// up.
pub open spec fn m_release(cells: Seq<Option<CellM>>, id: int) -> Seq<Option<CellM>> {
    if m_live(cells, id) {
        cells.update(id, Some(CellM { refs: count_down(cells[id]->0.refs), ..cells[id]->0 }))
    } else {
        cells
    }
}

/// The cells after the object in `id` was destroyed.
pub open spec fn m_remove(cells: Seq<Option<CellM>>, id: int) -> Seq<Option<CellM>> {
    if m_live(cells, id) {
        cells.update(id, None)
    } else {
        cells
    }
}

/// The cells after the object in `id` was given the payload `data`.
pub open spec fn m_set_data(cells: Seq<Option<CellM>>, id: int, data: PayloadM) -> Seq<
    Option<CellM>,
> {
    if m_live(cells, id) {
        cells.update(id, Some(CellM { data, ..cells[id]->0 }))
    } else {
        cells
    }
}

/// The cells after the object in `id` was given the members `members`.
pub open spec fn m_set_members(cells: Seq<Option<CellM>>, id: int, members: Seq<Binding>) -> Seq<
    Option<CellM>,
> {
    if m_live(cells, id) {
        cells.update(id, Some(CellM { members, ..cells[id]->0 }))
    } else {
        cells
    }
}

/// The names of a sequence of members, in order.
#[verifier::opaque]
pub open spec fn binding_names(members: Seq<Binding>) -> Seq<Seq<char>> {
    Seq::new(members.len(), |i: int| members[i].name)
}

/// The cell that `name` is bound to among `members`: the first match.
pub open spec fn m_member(members: Seq<Binding>, name: Seq<char>) -> Option<int> {
    match first_position(binding_names(members), name) {
        Some(i) => Some(members[i].value),
        None => None,
    }
}

/// The members after `name` was bound to `value`: an existing binding
/// keeps its place, a new one goes last.
pub open spec fn m_bind(members: Seq<Binding>, name: Seq<char>, value: int) -> Seq<Binding> {
    match first_position(binding_names(members), name) {
        Some(i) => members.update(i, Binding { name: members[i].name, value }),
        None => members.push(Binding { name, value }),
    }
}

/// The member `name` of the object in the cell `id`.
pub open spec fn m_member_of(cells: Seq<Option<CellM>>, id: int, name: Seq<char>) -> Option<int> {
    if m_live(cells, id) {
        m_member(cells[id]->0.members, name)
    } else {
        None
    }
}

/// Whether the object in the cell `id` lives and is a scope.
pub open spec fn m_is_scope(cells: Seq<Option<CellM>>, id: int) -> bool {
    m_live(cells, id) && cells[id]->0.type_ == scope_type_id()
}

/// The binding of `name` that is visible from the scope in the cell
/// `scope`, following at most `steps` parent links.
pub open spec fn m_lookup(cells: Seq<Option<CellM>>, scope: int, name: Seq<char>,
    steps: nat) -> Option<
    int,
>
    decreases steps,
{
    if !m_live(cells, scope) {
        None
    } else {
        match m_member(cells[scope]->0.members, name) {
            Some(found) => Some(found),
            None => match m_member(cells[scope]->0.members, PARENT_MEMBER_NAME@) {
                Some(link) => if steps > 0 {
                    m_lookup(cells, link, name, (steps - 1) as nat)
                } else {
                    None
                },
                None => None,
            },
        }
    }
}

/// A new object of the type `type_`, without members or payload, that one
/// handle refers to.
pub open spec fn m_raw(type_: TypeIndex) -> CellM {
    CellM { refs: 1, type_, data: PayloadM::Empty, members: Seq::empty() }
}

/// A new scope whose parent is the scope in the cell `parent`.
pub open spec fn m_child(parent: int) -> CellM {
    CellM {
        refs: 1,
        type_: scope_type_id(),
        data: PayloadM::Empty,
        members: seq![Binding { name: PARENT_MEMBER_NAME@, value: parent }],
    }
}

/// The names of the model of a member table are the names of the table.
pub proof fn lemma_binding_names(entries: Seq<Entry<ObjectToken>>)
    ensures
        binding_names(bindings(entries)) == entry_names(entries),
{
    reveal(bindings);
    reveal(binding_names);
    assert(binding_names(bindings(entries)) =~= entry_names(entries));
}

/// A lookup in the model of a member table finds the cell of the handle
/// that the lookup in the table finds.
pub proof fn lemma_member_view(entries: Seq<Entry<ObjectToken>>, name: Seq<char>)
    ensures
        m_member(bindings(entries), name) == if entries_map(entries).dom().contains(name) {
            Some(entries_map(entries)[name]@)
        } else {
            None
        },
{
    reveal(bindings);
    reveal(binding_names);
    lemma_binding_names(entries);
    lemma_position_from(entry_names(entries), name, 0);
}

/// The model of the store after `retain_in` is `m_retain` of its model.
pub proof fn lemma_retain_view(cells: Seq<Option<SObject>>, id: int)
    ensures
        cells_view(retain_in(cells, id)) == m_retain(cells_view(cells), id),
{
    reveal(bindings);
    reveal(cells_view);
    assert(cells_view(retain_in(cells, id)) =~= m_retain(cells_view(cells), id));
}

/// The model of the store after `release_in` is `m_release` of its model.
pub proof fn lemma_release_view(cells: Seq<Option<SObject>>, id: int)
    ensures
        cells_view(release_in(cells, id)) == m_release(cells_view(cells), id),
{
    reveal(bindings);
    reveal(cells_view);
    assert(cells_view(release_in(cells, id)) =~= m_release(cells_view(cells), id));
}

/// The model of a store with one more object.
pub proof fn lemma_push_view(cells: Seq<Option<SObject>>, cell: SObject)
    ensures
        cells_view(cells.push(Some(cell))) == cells_view(cells).push(Some(cell_view(cell))),
{
    reveal(bindings);
    reveal(cells_view);
    assert(cells_view(cells.push(Some(cell))) =~= cells_view(cells).push(Some(cell_view(cell))));
}

/// The lookup along the scope chain in the model finds the cell of the
/// handle that the lookup in the store finds.
pub proof fn lemma_lookup_view(
    cells: Seq<Option<SObject>>,
    scope: int,
    name: Seq<char>,
    steps: nat,
)
    ensures
        m_lookup(cells_view(cells), scope, name, steps) == option_view(
            lookup_in(cells, scope, name, steps),
        ),
    decreases steps,
{
    reveal(bindings);
    reveal(cells_view);
    reveal(binding_names);
    if 0 <= scope < cells.len() && cells[scope] is Some {
        let entries = cells[scope]->0.object.members.entries@;
        lemma_member_view(entries, name);
        lemma_member_view(entries, PARENT_MEMBER_NAME@);
        if !entries_map(entries).dom().contains(name) && steps > 0 && entries_map(
            entries,
        ).dom().contains(PARENT_MEMBER_NAME@) {
            lemma_lookup_view(
                cells,
                entries_map(entries)[PARENT_MEMBER_NAME@]@,
                name,
                (steps - 1) as nat,
            );
        }
    }
}

/// The model of a store with one cell emptied.
pub proof fn lemma_remove_view(cells: Seq<Option<SObject>>, id: int)
    requires
        0 <= id < cells.len(),
        cells[id] is Some,
    ensures
        cells_view(cells.update(id, None)) == m_remove(cells_view(cells), id),
{
    reveal(bindings);
    reveal(cells_view);
    assert(cells_view(cells.update(id, None)) =~= m_remove(cells_view(cells), id));
}

/// The model of a member table after `NameTable::insert`.
pub proof fn lemma_bind_view(
    before: Seq<Entry<ObjectToken>>,
    after: Seq<Entry<ObjectToken>>,
    name: String,
    value: ObjectToken,
)
    requires
        match first_position(entry_names(before), name@) {
            Some(i) => after == before.update(i, Entry { name: before[i].name, value }),
            None => after == before.push(Entry { name, value }),
        },
    ensures
        bindings(after) == m_bind(bindings(before), name@, value@),
        m_member(bindings(before), name@) == if entries_map(before).dom().contains(name@) {
            Some(entries_map(before)[name@]@)
        } else {
            None
        },
{
    reveal(bindings);
    reveal(binding_names);
    lemma_binding_names(before);
    lemma_member_view(before, name@);
    lemma_position_from(entry_names(before), name@, 0);
    assert(bindings(after) =~= m_bind(bindings(before), name@, value@));
}

/// The model of a store in which the object in one cell was replaced by
/// one with the same count.
pub proof fn lemma_differs_view(before: ObjectStore, after: ObjectStore, id: int)
    requires
        before.differs_in_object(&after, id),
    ensures
        after@ == before@.update(id, Some(cell_view(after.cells@[id]->0))),
{
    reveal(cells_view);
    assert(after@ =~= before@.update(id, Some(cell_view(after.cells@[id]->0))));
}

/// The model of a sequence of handles with one more.
pub proof fn lemma_tokens_push(tokens: Seq<ObjectToken>, token: ObjectToken)
    ensures
        tokens_view(tokens.push(token)) == tokens_view(tokens).push(token@),
{
    reveal(tokens_view);
    assert(tokens_view(tokens.push(token)) =~= tokens_view(tokens).push(token@));
}

/// The model of a part of a sequence of handles.
pub proof fn lemma_tokens_subrange(tokens: Seq<ObjectToken>, from: int, to: int)
    requires
        0 <= from <= to <= tokens.len(),
    ensures
        tokens_view(tokens.subrange(from, to)) == tokens_view(tokens).subrange(from, to),
{
    reveal(tokens_view);
    assert(tokens_view(tokens.subrange(from, to)) =~= tokens_view(tokens).subrange(from, to));
}

/// The model of a sequence of frames with one more.
pub proof fn lemma_frames_push(frames: Seq<Frame>, frame: Frame)
    ensures
        frames_view(frames.push(frame)) == frames_view(frames).push(frame.top_scope.vars@),
{
    reveal(frames_view);
    assert(frames_view(frames.push(frame)) =~= frames_view(frames).push(frame.top_scope.vars@));
}

/// The model of a sequence of frames without its last.
pub proof fn lemma_frames_drop_last(frames: Seq<Frame>)
    requires
        frames.len() > 0,
    ensures
        frames_view(frames.drop_last()) == frames_view(frames).drop_last(),
        frames_view(frames).last() == frames.last().top_scope.vars@,
{
    reveal(frames_view);
    assert(frames_view(frames.drop_last()) =~= frames_view(frames).drop_last());
}

/// The model of the output with one more line.
pub proof fn lemma_lines_push(lines: Seq<String>, line: String)
    ensures
        lines_view(lines.push(line)) == lines_view(lines).push(line@),
{
    reveal(lines_view);
    assert(lines_view(lines.push(line)) =~= lines_view(lines).push(line@));
}

/// The model of a new object without members or payload.
pub proof fn lemma_raw_view(cell: SObject)
    requires
        cell.refs == 1,
        cell.object.data == Payload::Empty,
        cell.object.members.entries@.len() == 0,
    ensures
        cell_view(cell) == m_raw(cell.object.type_),
{
    reveal(bindings);
    assert(bindings(cell.object.members.entries@) =~= Seq::<Binding>::empty());
}

/// The model of a new child scope.
pub proof fn lemma_child_view(cell: SObject, parent: ObjectToken)
    requires
        cell.refs == 1,
        crate::scope::is_child_of(cell.object, parent),
    ensures
        cell_view(cell) == m_child(parent@),
{
    reveal(bindings);
    assert(bindings(cell.object.members.entries@) =~= seq![
        Binding { name: PARENT_MEMBER_NAME@, value: parent@ },
    ]);
}

/// The model of a result that is a function.
pub open spec fn function_result_view(r: Result<Function, TriconeError>) -> Result<
    FunctionM,
    ErrorKind,
> {
    match r {
        Ok(f) => Ok(function_view(f)),
        Err(e) => Err(e.kind),
    }
}

/// The model of a result that is a boolean.
pub open spec fn bool_result_view(r: Result<bool, TriconeError>) -> Result<bool, ErrorKind> {
    match r {
        Ok(b) => Ok(b),
        Err(e) => Err(e.kind),
    }
}

/// The values of a sequence of members, in order.
#[verifier::opaque]
pub open spec fn values_of(members: Seq<Binding>) -> Seq<int> {
    Seq::new(members.len(), |i: int| members[i].value)
}

/// The last of the values of a member table, and the values without it.
pub proof fn lemma_values_pop(entries: Seq<Entry<ObjectToken>>)
    requires
        entries.len() > 0,
    ensures
        values_of(bindings(entries)).len() == entries.len(),
        values_of(bindings(entries)).last() == entries.last().value@,
        values_of(bindings(entries)).drop_last() == values_of(bindings(entries.drop_last())),
{
    reveal(bindings);
    reveal(values_of);
    assert(values_of(bindings(entries)).drop_last() =~= values_of(
        bindings(entries.drop_last()),
    ));
}

/// The last of the cells of a sequence of handles, and the cells without
/// it.
pub proof fn lemma_tokens_pop(tokens: Seq<ObjectToken>)
    requires
        tokens.len() > 0,
    ensures
        tokens_view(tokens).len() == tokens.len(),
        tokens_view(tokens).last() == tokens.last()@,
        tokens_view(tokens).drop_last() == tokens_view(tokens.drop_last()),
{
    reveal(tokens_view);
    assert(tokens_view(tokens).drop_last() =~= tokens_view(tokens.drop_last()));
}

/// The cells of a sequence of one handle.
pub proof fn lemma_tokens_single(token: ObjectToken)
    ensures
        tokens_view(seq![token]) == seq![token@],
{
    reveal(tokens_view);
    assert(tokens_view(seq![token]) =~= seq![token@]);
}

/// The cells of two sequences of handles, one after the other.
pub proof fn lemma_tokens_add(a: Seq<ObjectToken>, b: Seq<ObjectToken>)
    ensures
        tokens_view(a + b) == tokens_view(a) + tokens_view(b),
{
    reveal(tokens_view);
    assert(tokens_view(a + b) =~= tokens_view(a) + tokens_view(b));
}

/// What the model of a store says of the cell `id`.
pub proof fn lemma_store_view(store: ObjectStore, id: int)
    ensures
        store@.len() == store.cells@.len(),
        m_live(store@, id) == store.live(id),
        m_count(store@, id) == store.count(id),
        store.live(id) ==> store@[id] == Some(cell_view(store.cells@[id]->0)),
{
    reveal(cells_view);
}

/// What the model of a sequence of handles holds.
pub proof fn lemma_tokens_view(tokens: Seq<ObjectToken>)
    ensures
        tokens_view(tokens).len() == tokens.len(),
        forall|i: int| 0 <= i < tokens.len() ==> (#[trigger] tokens_view(tokens)[i]) == tokens[i]@,
{
    reveal(tokens_view);
}

/// What the model of a sequence of frames holds.
pub proof fn lemma_frames_view(frames: Seq<Frame>)
    ensures
        frames_view(frames).len() == frames.len(),
        forall|i: int|
            0 <= i < frames.len() ==> (#[trigger] frames_view(frames)[i])
                == frames[i].top_scope.vars@,
{
    reveal(frames_view);
}

/// The model of an empty sequence of handles.
pub proof fn lemma_tokens_empty(tokens: Seq<ObjectToken>)
    requires
        tokens.len() == 0,
    ensures
        tokens_view(tokens) == Seq::<int>::empty(),
{
    reveal(tokens_view);
    assert(tokens_view(tokens) =~= Seq::<int>::empty());
}

/// The values of an empty member table.
pub proof fn lemma_values_empty(entries: Seq<Entry<ObjectToken>>)
    requires
        entries.len() == 0,
    ensures
        values_of(bindings(entries)).len() == 0,
{
    reveal(values_of);
    reveal(bindings);
}

} // verus!
