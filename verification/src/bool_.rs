//! The boolean type.
use vstd::prelude::*;
use crate::error::{ErrorKind, TriconeError};
use crate::function::{NativeKind, NativeProc};
use crate::generic::{create_type_for, get_bool, impl_display_for, native_methods};
use crate::interpreter::{steps_to, unchanged, Interpreter};
use crate::moduledef::{FunctionDef, NativeFunctionDef, TypeDef};
use crate::natives::create_holding;
use crate::semantics::{m_create_bool, m_type_named};
use crate::object::{Object, ObjectToken, Payload, TypeIndex};
use crate::types::{adds_scope, methods_match, Module};

verus! {

/// The methods that a description of the boolean type holds besides the
/// hooks: `tostring`.
pub open spec fn bool_methods() -> Map<Seq<char>, FunctionDef> {
    Map::<Seq<char>, FunctionDef>::empty().insert(
        "tostring"@,
        FunctionDef::Native(NativeFunctionDef { arity: 1, code: Box::new(NativeProc::ToString) }),
    )
}

/// Appends the type `Bool` to `module`.
pub fn register_bool_type(interpreter: &mut Interpreter, module: &mut Module) -> (index: TypeIndex)
    ensures
        index.0 == old(module).index,
        index.1 == old(module).types@.len(),
        final(module).types@.len() == old(module).types@.len() + 1,
        final(module).types@.subrange(0, old(module).types@.len() as int) == old(module).types@,
        final(module).types@.last().name@ == "Bool"@,
        final(module).types@.last().index == index,
        final(module).types@.last().methods.distinct(),
        final(module).types@.last().scope.vars@ == old(interpreter).store.cells@.len(),
        methods_match(
            final(module).types@.last().methods@,
            native_methods(NativeKind::Bool, bool_methods()),
            final(module).types@.last().scope,
        ),
        final(module).name == old(module).name,
        final(module).index == old(module).index,
        final(module).globals == old(module).globals,
        adds_scope(old(interpreter).store, final(interpreter).store),
        crate::types::scope_counted(final(interpreter).store, final(module).types@.last()),
        final(interpreter).modules == old(interpreter).modules,
        final(interpreter).thread == old(interpreter).thread,
        final(interpreter).output == old(interpreter).output,
        final(interpreter).budget == old(interpreter).budget,
        final(interpreter).depth == old(interpreter).depth,
{
    let mut def = TypeDef::new();
    impl_display_for(&mut def);
    create_type_for(&mut interpreter.store, module, "Bool", NativeKind::Bool, def)
}

/// A new boolean object that holds `value`, of the first type named `Bool`
/// in the registry.  Fails with `NameError`, and changes nothing, where no
/// module has registered such a type.
pub fn create_bool(interpreter: &mut Interpreter, value: bool) -> (r: Result<
    ObjectToken,
    TriconeError,
>)
    ensures
        (final(interpreter)@, crate::model::token_result_view(r)) == m_create_bool(
            old(interpreter)@,
            value,
        ),
        steps_to(*old(interpreter), *final(interpreter)),
        m_type_named(old(interpreter).modules@, "Bool"@) is None ==> r == Err::<
            ObjectToken,
            TriconeError,
        >(TriconeError { kind: ErrorKind::NameError })
            && unchanged(*old(interpreter), *final(interpreter)),
        r is Ok ==> {
            let token = r->Ok_0;
            &&& token@ == old(interpreter).store.cells@.len()
            &&& final(interpreter).store.live(token@)
            &&& final(interpreter).store.object(token@).data == Payload::Bool(value)
            &&& Some(final(interpreter).store.object(token@).type_) == m_type_named(
                old(interpreter).modules@,
                "Bool"@,
            )
            &&& spec_from_object(*final(interpreter), final(interpreter).store.object(token@))
                == Ok::<bool, TriconeError>(value)
        },
    decreases old(interpreter).budget, 10int,
{
    reveal(m_create_bool);
    let ty = interpreter.find_type("Bool");
    create_holding(interpreter, ty, Payload::Bool(value))
}

/// The boolean that `obj` holds, where `obj` is an object of the type
/// `Bool` with a boolean payload.
pub open spec fn spec_from_object(interpreter: Interpreter, obj: Object) -> Result<
    bool,
    TriconeError,
> {
    if m_type_named(interpreter.modules@, "Bool"@) == Some(obj.type_) && obj.data is Bool {
        Ok(obj.data->Bool_0)
    } else {
        Err(TriconeError { kind: ErrorKind::TypeError })
    }
}

/// The boolean that an object of the type `Bool` holds, wherever that type
/// was registered; a `TypeError` for any other object.
pub fn from_object(interpreter: &Interpreter, obj: &Object) -> (value: Result<bool, TriconeError>)
    ensures
        value == spec_from_object(*interpreter, *obj),
{
    match interpreter.find_type("Bool") {
        Some(ty) => {
            if ty == obj.type_ {
                get_bool(obj)
            } else {
                Err(TriconeError::new(ErrorKind::TypeError))
            }
        },
        None => Err(TriconeError::new(ErrorKind::TypeError)),
    }
}

} // verus!
