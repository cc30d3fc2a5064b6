//! The string type.
use vstd::prelude::*;
use crate::error::{ErrorKind, TriconeError};
use crate::function::{NativeKind, NativeProc};
use crate::generic::{create_type_for, native_method, native_methods};
use crate::interpreter::{steps_to, unchanged, Interpreter};
use crate::moduledef::{FunctionDef, NativeFunctionDef, TypeDef};
use crate::natives::create_native;
use crate::object::{ObjectToken, Payload, TypeIndex};
use crate::types::{adds_scope, methods_match, Module};

verus! {

/// The methods that a description of the string type holds besides the
/// hooks: `println`.
pub open spec fn string_methods() -> Map<Seq<char>, FunctionDef> {
    Map::<Seq<char>, FunctionDef>::empty().insert(
        "println"@,
        FunctionDef::Native(NativeFunctionDef { arity: 1, code: Box::new(NativeProc::Println) }),
    )
}

/// Appends the type `String` to `module`.
pub fn register_string_type(interpreter: &mut Interpreter, module: &mut Module) -> (index:
    TypeIndex)
    ensures
        index.0 == old(module).index,
        index.1 == old(module).types@.len(),
        final(module).types@.len() == old(module).types@.len() + 1,
        final(module).types@.subrange(0, old(module).types@.len() as int) == old(module).types@,
        final(module).types@.last().name@ == "String"@,
        final(module).types@.last().index == index,
        final(module).types@.last().methods.distinct(),
        final(module).types@.last().scope.vars@ == old(interpreter).store.cells@.len(),
        methods_match(
            final(module).types@.last().methods@,
            native_methods(NativeKind::Text, string_methods()),
            final(module).types@.last().scope,
        ),
        final(module).name == old(module).name,
        final(module).index == old(module).index,
        final(module).globals == old(module).globals,
        adds_scope(old(interpreter).store, final(interpreter).store),
        crate::types::scope_counted(final(interpreter).store, final(module).types@.last()),
        final(interpreter).modules == old(interpreter).modules,
        final(interpreter).thread == old(interpreter).thread,
        final(interpreter).output == old(interpreter).output,
        final(interpreter).budget == old(interpreter).budget,
        final(interpreter).depth == old(interpreter).depth,
{
    let mut def = TypeDef::new();
    def.methods.insert(String::from_str("println"), native_method(1, NativeProc::Println));
    create_type_for(&mut interpreter.store, module, "String", NativeKind::Text, def)
}

/// A new string object that holds `value`.  Fails with `NameError` where
/// the core module has no type `String`.
pub fn create_string(interpreter: &mut Interpreter, value: String) -> (r: Result<
    ObjectToken,
    TriconeError,
>)
    ensures
        (final(interpreter)@, crate::model::token_result_view(r))
            == crate::semantics::m_create_native(
            old(interpreter)@,
            "String"@,
            crate::model::PayloadM::Text(value@),
        ),
        steps_to(*old(interpreter), *final(interpreter)),
        old(interpreter).lookup_type_spec("String"@) is None ==> r == Err::<
            ObjectToken,
            TriconeError,
        >(TriconeError { kind: ErrorKind::NameError })
            && unchanged(*old(interpreter), *final(interpreter)),
        r is Ok ==> {
            let token = r->Ok_0;
            &&& token@ == old(interpreter).store.cells@.len()
            &&& final(interpreter).store.live(token@)
            &&& final(interpreter).store.object(token@).data == Payload::Text(value)
        },
    decreases old(interpreter).budget, 11int,
{
    create_native(interpreter, "String", Payload::Text(value))
}

} // verus!
