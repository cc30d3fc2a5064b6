//! What a run of the stack machine is: the effect of every operation of
//! the interpreter on the model of its state.
//!
//! Each function takes the state before the operation and gives the state
//! after it together with the result.  The machine's functions state that
//! they compute exactly this.
use vstd::prelude::*;
use crate::consts::{
    core_module_id,
    function_type_id,
    scope_type_id,
    unit_type_id,
    CREATE_METHOD_NAME,
    DROP_METHOD_NAME,
    PARENT_MEMBER_NAME,
};
use crate::error::ErrorKind;
use crate::function::{Body, NativeKind, NativeProc};
use crate::host::{HostValueM, Hosted};
use crate::instruction::Instruction;
use crate::interpreter::{module_names, MAX_DEPTH};
use crate::model::{
    function_view,
    CellM,
    m_bind,
    m_child,
    m_count,
    m_is_scope,
    m_live,
    m_lookup,
    m_member,
    m_member_of,
    m_raw,
    m_release,
    m_remove,
    m_retain,
    m_set_data,
    m_set_members,
    values_of,
    FunctionM,
    Machine,
    PayloadM,
};
use crate::names::first_position;
use crate::object::{ModuleIndex, TypeIndex};
use crate::types::{registry_handles, Module};

verus! {

/// The state `after` a part of an operation that started in `before`, with
/// no more budget than `before` had.  Every function of the machine is
/// proved to leave no more budget than it found, so in a run of the
/// machine this is `after`; the cut lets the definitions below stand on
/// their own, without that proof.
pub open spec fn clamp(before: Machine, after: Machine) -> Machine {
    if after.budget <= before.budget {
        after
    } else {
        Machine { budget: before.budget, ..after }
    }
}

/// Enters a call or a destruction: see `Interpreter::enter`.
pub open spec fn m_enter(s: Machine) -> (Machine, Result<(), ErrorKind>) {
    if s.budget == 0 {
        (s, Err(ErrorKind::BudgetExhausted))
    } else if s.depth >= MAX_DEPTH {
        (s, Err(ErrorKind::DepthExceeded))
    } else {
        (Machine { budget: (s.budget - 1) as usize, depth: (s.depth + 1) as usize, ..s }, Ok(()))
    }
}

/// Leaves a call or a destruction: see `Interpreter::leave`.
pub open spec fn m_leave(s: Machine) -> Machine {
    Machine {
        depth: if s.depth > 0 {
            (s.depth - 1) as usize
        } else {
            0usize
        },
        ..s
    }
}

/// The first of two results that is an error.
pub open spec fn m_first_error(first: Result<(), ErrorKind>, second: Result<(),
    ErrorKind>) -> Result<
    (),
    ErrorKind,
> {
    if first is Err {
        first
    } else {
        second
    }
}

/// Whether the registry holds the type `ty`.
pub open spec fn m_has_type(modules: Seq<Module>, ty: TypeIndex) -> bool {
    ty.0.0 < modules.len() && ty.1 < modules[ty.0.0 as int].types@.len()
}

/// The method `name` of the type `ty`.
pub open spec fn m_method(modules: Seq<Module>, ty: TypeIndex, name: Seq<char>) -> Option<
    FunctionM,
> {
    if m_has_type(modules, ty)
        && modules[ty.0.0 as int].types@[ty.1 as int].methods@.dom().contains(
        name,
    ) {
        Some(function_view(modules[ty.0.0 as int].types@[ty.1 as int].methods@[name]))
    } else {
        None
    }
}

/// The identity of the first type of the core module named `name`.
pub open spec fn m_core_type(modules: Seq<Module>, name: Seq<char>) -> Option<TypeIndex> {
    if modules.len() > 0 {
        match first_position(modules[0].type_names(), name) {
            Some(i) => Some(TypeIndex(core_module_id(), i as usize)),
            None => None,
        }
    } else {
        None
    }
}

/// The identity of the first type named `name` among the modules from
/// `from` on: the first module that holds a type of this name decides, and
/// in it the first such type.
pub open spec fn m_type_from(modules: Seq<Module>, name: Seq<char>, from: int) -> Option<
    TypeIndex,
>
    decreases modules.len() - from,
{
    if from < 0 || from >= modules.len() {
        None
    } else {
        match first_position(modules[from].type_names(), name) {
            Some(i) => Some(TypeIndex(ModuleIndex(from as usize), i as usize)),
            None => m_type_from(modules, name, from + 1),
        }
    }
}

/// The identity of the first type named `name` in the registry, wherever
/// it was registered: the modules are searched in their order.
pub open spec fn m_type_named(modules: Seq<Module>, name: Seq<char>) -> Option<TypeIndex> {
    m_type_from(modules, name, 0)
}

/// The type of the object in the cell `id`.
pub open spec fn m_type_of(s: Machine, id: int) -> Option<TypeIndex> {
    if m_live(s.cells, id) {
        Some(s.cells[id]->0.type_)
    } else {
        None
    }
}

/// The starting value of a kind of payload.
pub open spec fn m_default(kind: NativeKind) -> PayloadM {
    match kind {
        NativeKind::Bool => PayloadM::Bool(false),
        NativeKind::Int => PayloadM::Int(0),
        NativeKind::Text => PayloadM::Text(Seq::empty()),
        NativeKind::Function => PayloadM::Function(
            FunctionM {
                body: Body::Native(NativeProc::Uninitialized),
                arity: 0,
                closure: usize::MAX as int,
            },
        ),
    }
}

/// The kind of a payload.
pub open spec fn m_kind(data: PayloadM) -> Option<NativeKind> {
    match data {
        PayloadM::Empty => None,
        PayloadM::Bool(_) => Some(NativeKind::Bool),
        PayloadM::Int(_) => Some(NativeKind::Int),
        PayloadM::Text(_) => Some(NativeKind::Text),
        PayloadM::Function(_) => Some(NativeKind::Function),
    }
}

/// The text of a payload, for `tostring`.
pub open spec fn m_payload_text(data: PayloadM) -> Option<Seq<char>> {
    match data {
        PayloadM::Bool(true) => Some("true"@),
        PayloadM::Bool(false) => Some("false"@),
        PayloadM::Int(value) => Some(crate::text::decimal_text(value)),
        _ => None,
    }
}

/// Gives up a handle to the object in the cell `id`: see
/// `Interpreter::drop_token`.
#[verifier::opaque]
pub open spec fn m_drop_token(s: Machine, id: int) -> (Machine, Result<(), ErrorKind>)
    decreases s.budget, 0int, 0int,
{
    let count = m_count(s.cells, id);
    if count == 0 {
        (s, Err(ErrorKind::IndexError))
    } else if count != 1 {
        (Machine { cells: m_release(s.cells, id), ..s }, Ok(()))
    } else {
        match m_enter(s).1 {
            Err(e) => (s, Err(e)),
            Ok(()) => {
                let destroyed = m_destroy(m_enter(s).0, id);
                (m_leave(destroyed.0), destroyed.1)
            },
        }
    }
}

/// Destroys the object in the cell `id`, to which one handle is left: see
/// `Interpreter::destroy`.
#[verifier::opaque]
pub open spec fn m_destroy(s: Machine, id: int) -> (Machine, Result<(), ErrorKind>)
    decreases s.budget, 30int, 0int,
{
    if !m_live(s.cells, id) {
        (s, Err(ErrorKind::IndexError))
    } else {
        let hooked = if s.cells[id]->0.type_ != unit_type_id() {
            m_hook(s, id, DROP_METHOD_NAME@)
        } else {
            (s, Ok(()))
        };
        let s2 = clamp(s, hooked.0);
        if m_count(s2.cells, id) != 1 {
            (
                Machine { cells: m_release(s2.cells, id), ..s2 },
                m_first_error(hooked.1, Err(ErrorKind::TypeError)),
            )
        } else {
            let cell = s2.cells[id]->0;
            let s3 = Machine { cells: m_remove(s2.cells, id), ..s2 };
            let closed = match cell.data {
                PayloadM::Function(f) => if m_live(s3.cells, f.closure) {
                    m_drop_token(s3, f.closure)
                } else {
                    (s3, Ok(()))
                },
                _ => (s3, Ok(())),
            };
            let s4 = clamp(s3, closed.0);
            m_release_seq(s4, values_of(cell.members), m_first_error(hooked.1, closed.1))
        }
    }
}

/// Gives up a handle to each of the cells `ids`, the last first, and
/// returns the first error, `outcome` before all.
#[verifier::opaque]
pub open spec fn m_release_seq(s: Machine, ids: Seq<int>, outcome: Result<(), ErrorKind>) -> (
    Machine,
    Result<(), ErrorKind>,
)
    decreases s.budget, 1int, ids.len(),
{
    if ids.len() == 0 {
        (s, outcome)
    } else {
        let released = m_drop_token(s, ids.last());
        m_release_seq(clamp(s, released.0), ids.drop_last(), m_first_error(outcome, released.1))
    }
}

/// Calls the method `name` of the type of the object in `id` on that
/// object alone, if the type has such a method: see
/// `Interpreter::maybe_call_no_args_no_ret_method`.
#[verifier::opaque]
pub open spec fn m_hook(s: Machine, id: int, name: Seq<char>) -> (Machine, Result<(), ErrorKind>)
    decreases s.budget, 5int, 0int,
{
    match m_type_of(s, id) {
        None => (s, Err(ErrorKind::IndexError)),
        Some(ty) => match m_method(s.modules, ty, name) {
            None => (s, Ok(())),
            Some(f) => {
                let s1 = Machine { cells: m_retain(m_retain(s.cells, f.closure), id), ..s };
                let called = m_call(s1, f, seq![id]);
                let s2 = clamp(s1, called.0);
                let dropped = match called.1 {
                    Ok(value) => m_drop_unit(s2, value),
                    Err(e) => (s2, Err(e)),
                };
                let s3 = clamp(s2, dropped.0);
                let released = m_release_seq(s3, seq![id], dropped.1);
                let s4 = clamp(s3, released.0);
                let closed = m_drop_token(s4, f.closure);
                (closed.0, m_first_error(released.1, closed.1))
            },
        },
    }
}

/// Gives up what a hook returned: see `Interpreter::drop_unit`.
#[verifier::opaque]
pub open spec fn m_drop_unit(s: Machine, unit: Option<int>) -> (Machine, Result<(), ErrorKind>)
    decreases s.budget, 4int, 0int,
{
    match unit {
        None => (s, Ok(())),
        Some(id) => {
            let released = m_drop_token(s, id);
            if m_type_of(s, id) == Some(unit_type_id()) {
                released
            } else {
                (released.0, Err(ErrorKind::TypeError))
            }
        },
    }
}

/// The result of a call after its clean-up: see `Interpreter::settle`.
#[verifier::opaque]
pub open spec fn m_settle(
    s: Machine,
    res: Result<Option<int>, ErrorKind>,
    cleanup: Result<(), ErrorKind>,
) -> (Machine, Result<Option<int>, ErrorKind>)
    decreases s.budget, 3int, 0int,
{
    match res {
        Err(e) => (s, Err(e)),
        Ok(value) => match cleanup {
            Ok(()) => (s, Ok(value)),
            Err(e) => match value {
                Some(id) => (m_drop_token(s, id).0, Err(e)),
                None => (s, Err(e)),
            },
        },
    }
}

/// Calls `f` on `args` in a frame of its own: see `Function::call`.
#[verifier::opaque]
pub open spec fn m_call(s: Machine, f: FunctionM, args: Seq<int>) -> (
    Machine,
    Result<Option<int>, ErrorKind>,
)
    decreases s.budget, 0int, 0int,
{
    if f.arity != args.len() {
        (s, Err(ErrorKind::WrongArgumentCount))
    } else {
        match m_enter(s).1 {
            Err(e) => (s, Err(e)),
            Ok(()) => {
                let entered = m_enter(s).0;
                let s1 = Machine { cells: m_retain(entered.cells, f.closure), ..entered };
                let ran = m_with_new_frame(s1, f.closure, f, args);
                (m_leave(ran.0), ran.1)
            },
        }
    }
}

/// Calls `f` on `args` in a nested scope of the active frame: see
/// `Function::call_in_frame`.
#[verifier::opaque]
pub open spec fn m_call_in_frame(s: Machine, f: FunctionM, args: Seq<int>) -> (
    Machine,
    Result<Option<int>, ErrorKind>,
)
    decreases s.budget, 0int, 0int,
{
    if f.arity != args.len() {
        (s, Err(ErrorKind::WrongArgumentCount))
    } else {
        match m_enter(s).1 {
            Err(e) => (s, Err(e)),
            Ok(()) => {
                let ran = m_with_new_scope(m_enter(s).0, f, args);
                (m_leave(ran.0), ran.1)
            },
        }
    }
}

/// Leaves the scope in the cell `top` for its parent: the state, the scope
/// that the frame has afterwards, and the result.  See `Frame::pop_scope`.
#[verifier::opaque]
pub open spec fn m_pop_scope(s: Machine, top: int) -> (Machine, int, Result<(), ErrorKind>)
    decreases s.budget, 2int, 0int,
{
    match m_member_of(s.cells, top, PARENT_MEMBER_NAME@) {
        None => (s, top, Err(ErrorKind::NameError)),
        Some(link) => if m_is_scope(s.cells, link) {
            let released = m_drop_token(Machine { cells: m_retain(s.cells, link), ..s }, top);
            (released.0, link, released.1)
        } else {
            (s, top, Err(ErrorKind::TypeError))
        },
    }
}

/// Runs `f` on `args` in a new frame whose scope is a new child of the
/// scope in `scope`: see `Interpreter::with_new_frame`.
#[verifier::opaque]
pub open spec fn m_with_new_frame(s: Machine, scope: int, f: FunctionM, args: Seq<int>) -> (
    Machine,
    Result<Option<int>, ErrorKind>,
)
    decreases s.budget, 18int, 0int,
{
    let child = s.cells.len() as int;
    let s1 = Machine {
        cells: s.cells.push(Some(m_child(scope))),
        frames: s.frames.push(child),
        ..s
    };
    let ran = m_invoke(s1, f, args);
    let s2 = clamp(s1, ran.0);
    if s2.frames.len() == 0 {
        m_settle(s2, ran.1, Err(ErrorKind::IndexError))
    } else {
        let s3 = Machine { frames: s2.frames.drop_last(), ..s2 };
        let left = m_pop_scope(s3, s2.frames.last());
        let s4 = clamp(s3, left.0);
        let closed = m_drop_token(s4, left.1);
        m_settle(clamp(s4, closed.0), ran.1, m_first_error(left.2, closed.1))
    }
}

/// Runs `f` on `args` in a new nested scope of the active frame: see
/// `Interpreter::with_new_scope`.
#[verifier::opaque]
pub open spec fn m_with_new_scope(s: Machine, f: FunctionM, args: Seq<int>) -> (
    Machine,
    Result<Option<int>, ErrorKind>,
)
    decreases s.budget, 18int, 0int,
{
    if s.frames.len() == 0 {
        (s, Err(ErrorKind::IndexError))
    } else {
        let child = s.cells.len() as int;
        let s1 = Machine {
            cells: s.cells.push(Some(m_child(s.frames.last()))),
            frames: s.frames.drop_last().push(child),
            ..s
        };
        let ran = m_invoke(s1, f, args);
        let s2 = clamp(s1, ran.0);
        if s2.frames.len() == 0 {
            m_settle(s2, ran.1, Err(ErrorKind::IndexError))
        } else {
            let s3 = Machine { frames: s2.frames.drop_last(), ..s2 };
            let left = m_pop_scope(s3, s2.frames.last());
            let s4 = clamp(s3, left.0);
            m_settle(Machine { frames: s4.frames.push(left.1), ..s4 }, ran.1, left.2)
        }
    }
}

/// Runs the body of `f`: see `Function::invoke`.
#[verifier::opaque]
pub open spec fn m_invoke(s: Machine, f: FunctionM, args: Seq<int>) -> (
    Machine,
    Result<Option<int>, ErrorKind>,
)
    decreases s.budget, 17int, 0int,
{
    match f.body {
        Body::Bytecode(code) => m_run_code(s, code@, 0, None),
        Body::Native(procedure) => m_native(s, procedure, args),
    }
}

/// Runs the instructions of `code` from the position `at` on, after an
/// instruction that yielded `prev`.  At the end the result is the value
/// that is pending, or a new unit object where there is none.  See
/// `Interpreter::run_code`.
#[verifier::opaque]
pub open spec fn m_run_code(s: Machine, code: Seq<Instruction>, at: int, prev: Option<int>) -> (
    Machine,
    Result<Option<int>, ErrorKind>,
)
    decreases s.budget, 16int, code.len() - at,
{
    if at < 0 || at >= code.len() {
        match prev {
            Some(value) => (s, Ok(Some(value))),
            None => m_yield(m_create_object(s, unit_type_id(), 0)),
        }
    } else {
        let s1 = match prev {
            Some(value) => Machine { stack: s.stack.push(value), ..s },
            None => s,
        };
        let ran = m_run_instruction(s1, code[at]);
        match ran.1 {
            Ok(value) => m_run_code(clamp(s1, ran.0), code, at + 1, value),
            Err(e) => (ran.0, Err(e)),
        }
    }
}

/// Binds `name` to `value` in the object in `target`: see
/// `ObjectToken::assign_member`.
#[verifier::opaque]
pub open spec fn m_assign_member(s: Machine, target: int, name: Seq<char>, value: int) -> (
    Machine,
    Result<(), ErrorKind>,
)
    decreases s.budget, 1int, 0int,
{
    if !m_live(s.cells, target) {
        (m_drop_token(s, value).0, Err(ErrorKind::IndexError))
    } else {
        let members = s.cells[target]->0.members;
        let s1 = Machine {
            cells: m_set_members(s.cells, target, m_bind(members, name, value)),
            ..s
        };
        match m_member(members, name) {
            Some(displaced) => m_drop_token(s1, displaced),
            None => (s1, Ok(())),
        }
    }
}

/// Calls `f` on `args` and gives up the arguments and the closure: see
/// `Interpreter::call_function_with_owned_args`.
#[verifier::opaque]
pub open spec fn m_call_owned(s: Machine, f: FunctionM, args: Seq<int>) -> (
    Machine,
    Result<Option<int>, ErrorKind>,
)
    decreases s.budget, 6int, 0int,
{
    let called = m_call(s, f, args);
    let s1 = clamp(s, called.0);
    let released = m_release_seq(s1, args, Ok(()));
    let s2 = clamp(s1, released.0);
    let closed = m_drop_token(s2, f.closure);
    m_settle(clamp(s2, closed.0), called.1, m_first_error(released.1, closed.1))
}

/// Runs the `create` method of the type `ty`, if it has one, on the new
/// object in the cell `id` and the operands `extra`, and gives the
/// operands up: see `Interpreter::initialise`.
#[verifier::opaque]
pub open spec fn m_initialise(s: Machine, id: int, ty: TypeIndex, extra: Seq<int>) -> (
    Machine,
    Result<(), ErrorKind>,
)
    decreases s.budget, 7int, 0int,
{
    match m_method(s.modules, ty, CREATE_METHOD_NAME@) {
        Some(f) => {
            let s1 = Machine { cells: m_retain(m_retain(s.cells, f.closure), id), ..s };
            let called = m_call_owned(s1, f, seq![id] + extra);
            match called.1 {
                Ok(unit) => m_drop_unit(clamp(s1, called.0), unit),
                Err(e) => (called.0, Err(e)),
            }
        },
        None => m_release_seq(s, extra, Ok(())),
    }
}

/// Makes an object of the type `ty` from the top `num_args` operands: see
/// `Interpreter::create_object`.
#[verifier::opaque]
pub open spec fn m_create_object(s: Machine, ty: TypeIndex, num_args: usize) -> (
    Machine,
    Result<int, ErrorKind>,
)
    decreases s.budget, 8int, 0int,
{
    if !m_has_type(s.modules, ty) || s.stack.len() < num_args {
        (s, Err(ErrorKind::IndexError))
    } else {
        let id = s.cells.len() as int;
        let extra = s.stack.subrange(s.stack.len() - num_args, s.stack.len() as int);
        let s1 = Machine {
            cells: s.cells.push(Some(m_raw(ty))),
            stack: s.stack.subrange(0, s.stack.len() - num_args),
            ..s
        };
        let initialised = m_initialise(s1, id, ty, extra);
        match initialised.1 {
            Ok(()) => (initialised.0, Ok(id)),
            Err(e) => (m_drop_token(clamp(s1, initialised.0), id).0, Err(e)),
        }
    }
}

/// Makes an object of the type `ty` that holds `data`: see
/// `create_holding`.
#[verifier::opaque]
pub open spec fn m_create_holding(s: Machine, ty: Option<TypeIndex>, data: PayloadM) -> (
    Machine,
    Result<int, ErrorKind>,
)
    decreases s.budget, 9int, 0int,
{
    match ty {
        None => (s, Err(ErrorKind::NameError)),
        Some(ty) => {
            let made = m_create_object(s, ty, 0);
            match made.1 {
                Err(e) => (made.0, Err(e)),
                Ok(id) => if m_live(made.0.cells, id) {
                    (Machine { cells: m_set_data(made.0.cells, id, data), ..made.0 }, Ok(id))
                } else {
                    (made.0, Err(ErrorKind::IndexError))
                },
            }
        },
    }
}

/// Makes an object of the core type named `name` that holds `data`: see
/// `create_native`.
#[verifier::opaque]
pub open spec fn m_create_native(s: Machine, name: Seq<char>, data: PayloadM) -> (
    Machine,
    Result<int, ErrorKind>,
)
    decreases s.budget, 9int, 1int,
{
    m_create_holding(s, m_core_type(s.modules, name), data)
}

/// Makes a boolean object that holds `value`, of the first type named
/// `Bool` in the registry: see `create_bool`.
#[verifier::opaque]
pub open spec fn m_create_bool(s: Machine, value: bool) -> (Machine, Result<int, ErrorKind>)
    decreases s.budget, 9int, 1int,
{
    m_create_holding(s, m_type_named(s.modules, "Bool"@), PayloadM::Bool(value))
}

/// Calls the method `name` of the last of `args` on `args`: see
/// `Interpreter::call_method`.
#[verifier::opaque]
pub open spec fn m_call_method(s: Machine, name: Seq<char>, args: Seq<int>) -> (
    Machine,
    Result<Option<int>, ErrorKind>,
)
    decreases s.budget, 10int, 0int,
{
    if args.len() == 0 {
        (s, Err(ErrorKind::IndexError))
    } else {
        match m_type_of(s, args.last()) {
            None => (s, Err(ErrorKind::IndexError)),
            Some(ty) => match m_method(s.modules, ty, name) {
                None => (s, Err(ErrorKind::NameError)),
                Some(f) => {
                    let s1 = Machine { cells: m_retain(s.cells, f.closure), ..s };
                    let called = m_call(s1, f, args);
                    let s2 = clamp(s1, called.0);
                    let closed = m_drop_token(s2, f.closure);
                    m_settle(clamp(s2, closed.0), called.1, closed.1)
                },
            },
        }
    }
}

/// A duplicate of the function in the function object in `id`: see
/// `Interpreter::function_of`.
pub open spec fn m_function_of(s: Machine, id: int) -> (Machine, Result<FunctionM, ErrorKind>) {
    if !m_live(s.cells, id) {
        (s, Err(ErrorKind::IndexError))
    } else if s.cells[id]->0.type_ == function_type_id() && s.cells[id]->0.data is Function {
        let f = s.cells[id]->0.data->Function_0;
        (Machine { cells: m_retain(s.cells, f.closure), ..s }, Ok(f))
    } else {
        (s, Err(ErrorKind::TypeError))
    }
}

/// What an instruction yields for the result of a call: see
/// `Interpreter::finish_call`.
#[verifier::opaque]
pub open spec fn m_finish_call(s: Machine, res: Option<int>, use_result: bool) -> (
    Machine,
    Result<Option<int>, ErrorKind>,
)
    decreases s.budget, 11int, 0int,
{
    if use_result {
        match res {
            Some(value) => (s, Ok(Some(value))),
            None => {
                let made = m_create_object(s, unit_type_id(), 0);
                match made.1 {
                    Ok(unit) => (made.0, Ok(Some(unit))),
                    Err(e) => (made.0, Err(e)),
                }
            },
        }
    } else {
        match res {
            Some(value) => {
                let released = m_drop_token(s, value);
                match released.1 {
                    Ok(()) => (released.0, Ok(None)),
                    Err(e) => (released.0, Err(e)),
                }
            },
            None => (s, Ok(None)),
        }
    }
}

/// Calls the function object in `id` without arguments, in the active
/// frame: see `call_function_object`.
#[verifier::opaque]
pub open spec fn m_call_function_object(s: Machine, id: int) -> (
    Machine,
    Result<Option<int>, ErrorKind>,
)
    decreases s.budget, 11int, 0int,
{
    let found = m_function_of(s, id);
    match found.1 {
        Err(e) => (s, Err(e)),
        Ok(f) => {
            let called = m_call_in_frame(found.0, f, Seq::empty());
            let s1 = clamp(found.0, called.0);
            let closed = m_drop_token(s1, f.closure);
            m_settle(clamp(s1, closed.0), called.1, closed.1)
        },
    }
}

/// The boolean that the object in `id` holds, where it is an object of
/// the type `Bool`, wherever that type was registered.
pub open spec fn m_truth_at(s: Machine, id: int) -> Result<bool, ErrorKind> {
    if !m_live(s.cells, id) {
        Err(ErrorKind::IndexError)
    } else if m_type_named(s.modules, "Bool"@) == Some(s.cells[id]->0.type_)
        && s.cells[id]->0.data is Bool {
        Ok(s.cells[id]->0.data->Bool_0)
    } else {
        Err(ErrorKind::TypeError)
    }
}

/// Reads the boolean that a condition yielded and gives the object up: see
/// `truth_of`.
#[verifier::opaque]
pub open spec fn m_truth_of(s: Machine, value: Option<int>) -> (Machine, Result<bool, ErrorKind>)
    decreases s.budget, 10int, 0int,
{
    match value {
        None => (s, Err(ErrorKind::TypeError)),
        Some(id) => {
            let released = m_drop_token(s, id);
            match m_truth_at(s, id) {
                Ok(truth) => match released.1 {
                    Ok(()) => (released.0, Ok(truth)),
                    Err(e) => (released.0, Err(e)),
                },
                Err(e) => (released.0, Err(e)),
            }
        },
    }
}

/// The argument of `if` that is called.
pub open spec fn m_if_target(s: Machine, args: Seq<int>) -> Result<int, ErrorKind> {
    if args.len() < 3 {
        Err(ErrorKind::WrongArgumentCount)
    } else {
        match m_truth_at(s, args[0]) {
            Ok(condition) => Ok(
                if condition {
                    1int
                } else {
                    2int
                },
            ),
            Err(e) => Err(e),
        }
    }
}

/// The builtin `if`: see `builtin_if`.
#[verifier::opaque]
pub open spec fn m_builtin_if(s: Machine, args: Seq<int>) -> (
    Machine,
    Result<Option<int>, ErrorKind>,
)
    decreases s.budget, 12int, 0int,
{
    match m_if_target(s, args) {
        Ok(target) => m_call_function_object(s, args[target]),
        Err(e) => (s, Err(e)),
    }
}

/// The rounds of `while`: calls `condition` and, where it yields true,
/// `body` on `args`, gives up the unit object that the body yielded, if
/// any, and then goes round again.
#[verifier::opaque]
pub open spec fn m_while_loop(s: Machine, condition: FunctionM, body: FunctionM,
    args: Seq<int>) -> (
    Machine,
    Result<(), ErrorKind>,
)
    decreases s.budget, 11int, 0int,
{
    let called = m_call_in_frame(s, condition, Seq::empty());
    let s1 = clamp(s, called.0);
    let tested = match called.1 {
        Ok(value) => m_truth_of(s1, value),
        Err(e) => (s1, Err(e)),
    };
    match tested.1 {
        Err(e) => (tested.0, Err(e)),
        Ok(false) => (tested.0, Ok(())),
        Ok(true) => {
            let s2 = clamp(s1, tested.0);
            let ran = m_call_in_frame(s2, body, args);
            match ran.1 {
                Err(e) => (ran.0, Err(e)),
                Ok(value) => {
                    let dropped = m_drop_unit(clamp(s2, ran.0), value);
                    match dropped.1 {
                        Err(e) => (dropped.0, Err(e)),
                        Ok(()) => if dropped.0.budget < s.budget {
                            m_while_loop(dropped.0, condition, body, args)
                        } else {
                            (dropped.0, Err(ErrorKind::BudgetExhausted))
                        },
                    }
                },
            }
        },
    }
}

/// The builtin `while`: see `builtin_while`.
#[verifier::opaque]
pub open spec fn m_builtin_while(s: Machine, args: Seq<int>) -> (
    Machine,
    Result<Option<int>, ErrorKind>,
)
    decreases s.budget, 12int, 0int,
{
    if args.len() < 2 {
        (s, Err(ErrorKind::WrongArgumentCount))
    } else {
        let first = m_function_of(s, args[0]);
        match first.1 {
            Err(e) => (s, Err(e)),
            Ok(condition) => {
                let second = m_function_of(first.0, args[1]);
                match second.1 {
                    Err(e) => (m_drop_token(first.0, condition.closure).0, Err(e)),
                    Ok(body) => {
                        let looped = m_while_loop(second.0, condition, body, args);
                        let s1 = clamp(second.0, looped.0);
                        let closed_body = m_drop_token(s1, body.closure);
                        let s2 = clamp(s1, closed_body.0);
                        let closed_condition = m_drop_token(s2, condition.closure);
                        (
                            closed_condition.0,
                            match m_first_error(
                                looped.1,
                                m_first_error(closed_body.1, closed_condition.1),
                            ) {
                                Ok(()) => Ok(None),
                                Err(e) => Err(e),
                            },
                        )
                    },
                }
            },
        }
    }
}

/// The `create` hook of a native type: see `native_create`.
pub open spec fn m_native_create(s: Machine, kind: NativeKind, args: Seq<int>) -> (
    Machine,
    Result<Option<int>, ErrorKind>,
) {
    if args.len() == 0 {
        (s, Err(ErrorKind::WrongArgumentCount))
    } else if !m_live(s.cells, args[0]) {
        (s, Err(ErrorKind::IndexError))
    } else {
        (Machine { cells: m_set_data(s.cells, args[0], m_default(kind)), ..s }, Ok(None))
    }
}

/// The `drop` hook of a native type: see `native_drop`.
#[verifier::opaque]
pub open spec fn m_native_drop(s: Machine, kind: NativeKind, args: Seq<int>) -> (
    Machine,
    Result<Option<int>, ErrorKind>,
)
    decreases s.budget, 12int, 0int,
{
    if args.len() == 0 {
        (s, Err(ErrorKind::WrongArgumentCount))
    } else if !m_live(s.cells, args[0]) {
        (s, Err(ErrorKind::IndexError))
    } else {
        let data = s.cells[args[0]]->0.data;
        let s1 = Machine { cells: m_set_data(s.cells, args[0], PayloadM::Empty), ..s };
        let closed = match data {
            PayloadM::Function(f) => if m_live(s1.cells, f.closure) {
                m_drop_token(s1, f.closure)
            } else {
                (s1, Ok(()))
            },
            _ => (s1, Ok(())),
        };
        if m_kind(data) != Some(kind) {
            (closed.0, Err(ErrorKind::TypeError))
        } else {
            match closed.1 {
                Ok(()) => (closed.0, Ok(None)),
                Err(e) => (closed.0, Err(e)),
            }
        }
    }
}

/// The operands of `add`.
pub open spec fn m_add_operands(s: Machine, args: Seq<int>) -> Result<
    (TypeIndex, i64, i64),
    ErrorKind,
> {
    if args.len() < 2 {
        Err(ErrorKind::WrongArgumentCount)
    } else if !m_live(s.cells, args[0]) || !m_live(s.cells, args[1]) {
        Err(ErrorKind::IndexError)
    } else {
        let a = s.cells[args[0]]->0;
        let b = s.cells[args[1]]->0;
        if a.type_ != b.type_ {
            Err(ErrorKind::TypeError)
        } else {
            match (a.data, b.data) {
                (PayloadM::Int(x), PayloadM::Int(y)) => Ok((a.type_, x, y)),
                _ => Err(ErrorKind::TypeError),
            }
        }
    }
}

/// The method `add`: see `native_add`.
#[verifier::opaque]
pub open spec fn m_native_add(s: Machine, args: Seq<int>) -> (
    Machine,
    Result<Option<int>, ErrorKind>,
)
    decreases s.budget, 12int, 0int,
{
    match m_add_operands(s, args) {
        Err(e) => (s, Err(e)),
        Ok((ty, x, y)) => {
            let made = m_create_object(s, ty, 0);
            match made.1 {
                Err(e) => (made.0, Err(e)),
                Ok(id) => if m_live(made.0.cells, id) {
                    (
                        Machine {
                            cells: m_set_data(
                                made.0.cells,
                                id,
                                PayloadM::Int(crate::natives::wrapping_sum(x, y)),
                            ),
                            ..made.0
                        },
                        Ok(Some(id)),
                    )
                } else {
                    (made.0, Err(ErrorKind::IndexError))
                },
            }
        },
    }
}

/// The method `tostring`: see `native_tostring`.
#[verifier::opaque]
pub open spec fn m_native_tostring(s: Machine, args: Seq<int>) -> (
    Machine,
    Result<Option<int>, ErrorKind>,
)
    decreases s.budget, 12int, 0int,
{
    if args.len() == 0 {
        (s, Err(ErrorKind::WrongArgumentCount))
    } else if !m_live(s.cells, args[0]) {
        (s, Err(ErrorKind::IndexError))
    } else {
        match m_payload_text(s.cells[args[0]]->0.data) {
            None => (s, Err(ErrorKind::TypeError)),
            Some(text) => {
                let made = m_create_native(s, "String"@, PayloadM::Text(text));
                match made.1 {
                    Ok(id) => (made.0, Ok(Some(id))),
                    Err(e) => (made.0, Err(e)),
                }
            },
        }
    }
}

/// The method `println`: see `native_println`.
pub open spec fn m_native_println(s: Machine, args: Seq<int>) -> (
    Machine,
    Result<Option<int>, ErrorKind>,
) {
    if args.len() == 0 {
        (s, Err(ErrorKind::WrongArgumentCount))
    } else if !m_live(s.cells, args[0]) {
        (s, Err(ErrorKind::IndexError))
    } else {
        match s.cells[args[0]]->0.data {
            PayloadM::Text(line) => (Machine { output: s.output.push(line), ..s }, Ok(None)),
            _ => (s, Err(ErrorKind::TypeError)),
        }
    }
}

/// What a host procedure is given for the object in the cell `id`.
pub open spec fn m_host_value(cells: Seq<Option<CellM>>, id: int) -> Result<
    HostValueM,
    ErrorKind,
> {
    if !m_live(cells, id) {
        Err(ErrorKind::IndexError)
    } else {
        match cells[id]->0.data {
            PayloadM::Empty => Ok(HostValueM::Nothing),
            PayloadM::Bool(b) => Ok(HostValueM::Bool(b)),
            PayloadM::Int(i) => Ok(HostValueM::Int(i)),
            PayloadM::Text(text) => Ok(HostValueM::Text(text)),
            PayloadM::Function(_) => Err(ErrorKind::TypeError),
        }
    }
}

/// What a host procedure is given for `args`: the value of each, or the
/// error of the first that has none.
pub open spec fn m_host_values(cells: Seq<Option<CellM>>, args: Seq<int>) -> Result<
    Seq<HostValueM>,
    ErrorKind,
>
    decreases args.len(),
{
    if args.len() == 0 {
        Ok(Seq::empty())
    } else {
        match m_host_values(cells, args.drop_last()) {
            Err(e) => Err(e),
            Ok(values) => match m_host_value(cells, args.last()) {
                Err(e) => Err(e),
                Ok(value) => Ok(values.push(value)),
            },
        }
    }
}

/// A procedure of the host: see `native_host`.
#[verifier::opaque]
pub open spec fn m_native_host(s: Machine, procedure: Hosted, args: Seq<int>) -> (
    Machine,
    Result<Option<int>, ErrorKind>,
)
    decreases s.budget, 12int, 0int,
{
    match m_host_values(s.cells, args) {
        Err(e) => (s, Err(e)),
        Ok(values) => match procedure.answer(values) {
            Err(e) => (s, Err(e)),
            Ok(None) => (s, Ok(None)),
            Ok(Some(HostValueM::Nothing)) => m_yield(m_create_object(s, unit_type_id(), 0)),
            Ok(Some(HostValueM::Bool(b))) => m_yield(m_create_bool(s, b)),
            Ok(Some(HostValueM::Int(i))) => m_yield(m_create_native(s, "Int"@, PayloadM::Int(i))),
            Ok(Some(HostValueM::Text(text))) => m_yield(
                m_create_native(s, "String"@, PayloadM::Text(text)),
            ),
        },
    }
}

/// Runs a native procedure: see `run_native`.
#[verifier::opaque]
pub open spec fn m_native(s: Machine, procedure: NativeProc, args: Seq<int>) -> (
    Machine,
    Result<Option<int>, ErrorKind>,
)
    decreases s.budget, 13int, 0int,
{
    match procedure {
        NativeProc::Create(kind) => m_native_create(s, kind, args),
        NativeProc::Drop(kind) => m_native_drop(s, kind, args),
        NativeProc::Add => m_native_add(s, args),
        NativeProc::ToString => m_native_tostring(s, args),
        NativeProc::Println => m_native_println(s, args),
        NativeProc::If => m_builtin_if(s, args),
        NativeProc::While => m_builtin_while(s, args),
        NativeProc::Emit(line) => (Machine { output: s.output.push(line@), ..s }, Ok(None)),
        NativeProc::Host(host) => m_native_host(s, host, args),
        NativeProc::Uninitialized => (s, Err(ErrorKind::TypeError)),
    }
}

/// Takes the handle to the object in `id` for a scope: the state and the
/// cell of the scope, or, for an object that is no live scope, the state
/// after the handle was given up and a `TypeError`.  See
/// `Scope::from_object`.
#[verifier::opaque]
pub open spec fn m_from_object(s: Machine, id: int) -> (Machine, Result<int, ErrorKind>)
    decreases s.budget, 1int, 0int,
{
    if m_is_scope(s.cells, id) {
        (s, Ok(id))
    } else {
        (m_drop_token(s, id).0, Err(ErrorKind::TypeError))
    }
}

/// The instruction `Assign`: see `Interpreter::exec_assign`.
#[verifier::opaque]
pub open spec fn m_exec_assign(s: Machine, name: Seq<char>) -> (
    Machine,
    Result<Option<int>, ErrorKind>,
)
    decreases s.budget, 14int, 0int,
{
    if s.stack.len() < 2 {
        (s, Err(ErrorKind::IndexError))
    } else {
        let scope = s.stack[s.stack.len() - 1];
        let value = s.stack[s.stack.len() - 2];
        let s1 = Machine { stack: s.stack.subrange(0, s.stack.len() - 2), ..s };
        let taken = m_from_object(s1, scope);
        match taken.1 {
            Ok(_) => {
                let bound = m_assign_member(s1, scope, name, value);
                let s2 = clamp(s1, bound.0);
                let closed = m_drop_token(s2, scope);
                match m_first_error(bound.1, closed.1) {
                    Ok(()) => (closed.0, Ok(None)),
                    Err(e) => (closed.0, Err(e)),
                }
            },
            Err(e) => (m_drop_token(clamp(s1, taken.0), value).0, Err(e)),
        }
    }
}

/// The instruction `GetTopScope`.
pub open spec fn m_exec_get_top_scope(s: Machine) -> (Machine, Result<Option<int>, ErrorKind>) {
    if s.frames.len() == 0 {
        (s, Err(ErrorKind::IndexError))
    } else {
        (Machine { cells: m_retain(s.cells, s.frames.last()), ..s }, Ok(Some(s.frames.last())))
    }
}

/// The instruction `GetModuleGlobals`.
pub open spec fn m_exec_get_module_globals(s: Machine, name: Seq<char>) -> (
    Machine,
    Result<Option<int>, ErrorKind>,
) {
    match first_position(module_names(s.modules), name) {
        None => (s, Err(ErrorKind::NameError)),
        Some(i) => {
            let globals = s.modules[i].globals.vars@;
            (Machine { cells: m_retain(s.cells, globals), ..s }, Ok(Some(globals)))
        },
    }
}

/// The instruction `LookupName`.
pub open spec fn m_exec_lookup_name(s: Machine, name: Seq<char>) -> (
    Machine,
    Result<Option<int>, ErrorKind>,
) {
    if s.frames.len() == 0 {
        (s, Err(ErrorKind::IndexError))
    } else {
        match m_lookup(s.cells, s.frames.last(), name, s.cells.len()) {
            None => (s, Err(ErrorKind::NameError)),
            Some(found) => (Machine { cells: m_retain(s.cells, found), ..s }, Ok(Some(found))),
        }
    }
}

/// The instruction `GetMember`: see `Interpreter::exec_get_member`.
#[verifier::opaque]
pub open spec fn m_exec_get_member(s: Machine, name: Seq<char>) -> (
    Machine,
    Result<Option<int>, ErrorKind>,
)
    decreases s.budget, 14int, 0int,
{
    if s.stack.len() == 0 {
        (s, Err(ErrorKind::IndexError))
    } else {
        let item = s.stack.last();
        let s1 = Machine { stack: s.stack.drop_last(), ..s };
        if !m_live(s1.cells, item) {
            (s1, Err(ErrorKind::IndexError))
        } else {
            match m_member_of(s1.cells, item, name) {
                Some(member) => {
                    let s2 = Machine { cells: m_retain(s1.cells, member), ..s1 };
                    let released = m_drop_token(s2, item);
                    match released.1 {
                        Ok(()) => (released.0, Ok(Some(member))),
                        Err(e) => (m_drop_token(clamp(s2, released.0), member).0, Err(e)),
                    }
                },
                None => (m_drop_token(s1, item).0, Err(ErrorKind::NameError)),
            }
        }
    }
}

/// The instruction `CallMethod`: see `Interpreter::exec_call_method`.
#[verifier::opaque]
pub open spec fn m_exec_call_method(s: Machine, name: Seq<char>, num_args: usize,
    use_result: bool) -> (
    Machine,
    Result<Option<int>, ErrorKind>,
)
    decreases s.budget, 14int, 0int,
{
    if s.stack.len() <= num_args {
        (s, Err(ErrorKind::IndexError))
    } else {
        let args = s.stack.subrange(s.stack.len() - num_args - 1, s.stack.len() as int);
        let s1 = Machine { stack: s.stack.subrange(0, s.stack.len() - num_args - 1), ..s };
        let called = m_call_method(s1, name, args);
        let s2 = clamp(s1, called.0);
        let released = m_release_seq(s2, args, Ok(()));
        let s3 = clamp(s2, released.0);
        let settled = m_settle(s3, called.1, released.1);
        match settled.1 {
            Ok(value) => m_finish_call(clamp(s3, settled.0), value, use_result),
            Err(e) => (settled.0, Err(e)),
        }
    }
}

/// The instruction `CallFunctionObject`: see
/// `Interpreter::exec_call_function_object`.
#[verifier::opaque]
pub open spec fn m_exec_call_function_object(s: Machine, num_args: usize, use_result: bool) -> (
    Machine,
    Result<Option<int>, ErrorKind>,
)
    decreases s.budget, 14int, 0int,
{
    if s.stack.len() <= num_args {
        (s, Err(ErrorKind::IndexError))
    } else {
        let args = s.stack.subrange(s.stack.len() - num_args, s.stack.len() as int);
        let target = s.stack[s.stack.len() - num_args - 1];
        let s1 = Machine { stack: s.stack.subrange(0, s.stack.len() - num_args - 1), ..s };
        let found = m_function_of(s1, target);
        let called = match found.1 {
            Ok(f) => {
                let called = m_call(found.0, f, args);
                let s2 = clamp(found.0, called.0);
                let closed = m_drop_token(s2, f.closure);
                m_settle(clamp(s2, closed.0), called.1, closed.1)
            },
            Err(e) => (s1, Err(e)),
        };
        let s3 = clamp(s1, called.0);
        let released = m_release_seq(s3, args, Ok(()));
        let s4 = clamp(s3, released.0);
        let dropped = m_drop_token(s4, target);
        let s5 = clamp(s4, dropped.0);
        let settled = m_settle(s5, called.1, m_first_error(released.1, dropped.1));
        match settled.1 {
            Ok(value) => m_finish_call(clamp(s5, settled.0), value, use_result),
            Err(e) => (settled.0, Err(e)),
        }
    }
}

/// The instruction `DebugPrintObject`: a look at the top operand, which
/// changes nothing.
pub open spec fn m_exec_debug_print_object(s: Machine) -> (Machine, Result<Option<int>, ErrorKind>) {
    (s, Ok(None))
}

/// The result of an instruction that yields the object that was made.
pub open spec fn m_yield(made: (Machine, Result<int, ErrorKind>)) -> (
    Machine,
    Result<Option<int>, ErrorKind>,
) {
    match made.1 {
        Ok(id) => (made.0, Ok(Some(id))),
        Err(e) => (made.0, Err(e)),
    }
}

/// Runs one instruction: see `Interpreter::run_instruction`.
#[verifier::opaque]
pub open spec fn m_run_instruction(s: Machine, insn: Instruction) -> (
    Machine,
    Result<Option<int>, ErrorKind>,
)
    decreases s.budget, 15int, 0int,
{
    match insn {
        Instruction::CreateObject { type_, num_args } => m_yield(
            m_create_object(s, type_, num_args),
        ),
        Instruction::Assign { name } => m_exec_assign(s, name@),
        Instruction::GetTopScope => m_exec_get_top_scope(s),
        Instruction::GetModuleGlobals { name } => m_exec_get_module_globals(s, name@),
        Instruction::CallMethod { name, num_args, use_result } => m_exec_call_method(
            s,
            name@,
            num_args,
            use_result,
        ),
        Instruction::GetMember { name } => m_exec_get_member(s, name@),
        Instruction::LookupName { name } => m_exec_lookup_name(s, name@),
        Instruction::CallFunctionObject { num_args, use_result } => m_exec_call_function_object(
            s,
            num_args,
            use_result,
        ),
        Instruction::CreateString { value } => m_yield(
            m_create_native(s, "String"@, PayloadM::Text(value@)),
        ),
        Instruction::CreateInt { value } => m_yield(
            m_create_native(s, "Int"@, PayloadM::Int(value)),
        ),
        Instruction::Diag => (s, Ok(None)),
        Instruction::DebugPrintObject => m_exec_debug_print_object(s),
    }
}

/// Runs a program: calls a function without arguments whose body is
/// `code` and whose closure is a new scope, and gives the scope up again.
/// See `Interpreter::run_program`.
pub open spec fn m_run_program(s: Machine, code: Vec<Instruction>) -> (
    Machine,
    Result<Option<int>, ErrorKind>,
) {
    let closure = s.cells.len() as int;
    let f = FunctionM { body: Body::Bytecode(code), arity: 0, closure };
    let s1 = Machine { cells: s.cells.push(Some(m_raw(scope_type_id()))), ..s };
    let called = m_call(s1, f, Seq::empty());
    let s2 = clamp(s1, called.0);
    let closed = m_drop_token(s2, closure);
    m_settle(clamp(s2, closed.0), called.1, closed.1)
}

/// Takes the interpreter down: every handle that the registry holds is
/// given up, the last first, so the globals of the modules go before the
/// scopes of the types, and then the module table is emptied.  See
/// `Interpreter::teardown`.
pub open spec fn m_teardown(s: Machine) -> (Machine, Result<(), ErrorKind>) {
    let released = m_release_seq(s, registry_handles(s.modules), Ok(()));
    (Machine { modules: Seq::empty(), ..released.0 }, released.1)
}

} // verus!
