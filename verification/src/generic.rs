//! Native payloads: their defaults, checked access to them, and the
//! registration of the types that carry them.
use vstd::prelude::*;
use crate::consts::{CREATE_METHOD_NAME, DROP_METHOD_NAME};
use crate::error::{ErrorKind, TriconeError};
use crate::function::{Body, Function, NativeKind, NativeProc, Scope};
use crate::moduledef::{FunctionDef, NativeFunctionDef, TypeDef};
use crate::object::{Object, ObjectStore, ObjectToken, Payload, TypeIndex};
use crate::types::{adds_scope, methods_match, scope_counted, Module};

verus! {

/// A value that a new native object starts with.
pub trait TriconeDefault: Sized {
    /// Whether `value` is the starting value.
    spec fn is_tricone_default(value: Self) -> bool;

    /// The starting value.
    fn tricone_default() -> (value: Self)
        ensures
            Self::is_tricone_default(value),
    ;
}

impl TriconeDefault for bool {
    open spec fn is_tricone_default(value: bool) -> bool {
        value == false
    }

    fn tricone_default() -> (value: bool) {
        false
    }
}

impl TriconeDefault for i64 {
    open spec fn is_tricone_default(value: i64) -> bool {
        value == 0
    }

    fn tricone_default() -> (value: i64) {
        0
    }
}

impl TriconeDefault for String {
    open spec fn is_tricone_default(value: String) -> bool {
        value@ == Seq::<char>::empty()
    }

    fn tricone_default() -> (value: String) {
        String::new()
    }
}

impl TriconeDefault for Function {
    /// A function that takes no arguments, closes over no scope and fails
    /// when it is called.
    open spec fn is_tricone_default(value: Function) -> bool {
        &&& value.arity == 0
        &&& *value.code.body == Body::Native(NativeProc::Uninitialized)
        &&& value.closure.vars@ == usize::MAX
    }

    fn tricone_default() -> (value: Function) {
        Function::new(NativeProc::Uninitialized, 0, Scope { vars: ObjectToken::dangling() })
    }
}

impl Payload {
    /// The kind of the payload; `None` where there is no payload.
    pub open spec fn spec_kind(&self) -> Option<NativeKind> {
        match *self {
            Payload::Empty => None,
            Payload::Bool(_) => Some(NativeKind::Bool),
            Payload::Int(_) => Some(NativeKind::Int),
            Payload::Text(_) => Some(NativeKind::Text),
            Payload::Function(_) => Some(NativeKind::Function),
        }
    }

    /// Whether the payload is the starting value of `kind`.
    pub open spec fn is_default_of(self, kind: NativeKind) -> bool {
        match self {
            Payload::Empty => false,
            Payload::Bool(value) => kind == NativeKind::Bool && bool::is_tricone_default(value),
            Payload::Int(value) => kind == NativeKind::Int && i64::is_tricone_default(value),
            Payload::Text(value) => kind == NativeKind::Text && String::is_tricone_default(value),
            Payload::Function(value) => kind == NativeKind::Function
                && Function::is_tricone_default(value),
        }
    }

    /// The kind of the payload; `None` where there is no payload.
    #[verifier::when_used_as_spec(spec_kind)]
    pub fn kind(&self) -> (kind: Option<NativeKind>)
        ensures
            kind == self.spec_kind(),
    {
        match self {
            Payload::Empty => None,
            Payload::Bool(_) => Some(NativeKind::Bool),
            Payload::Int(_) => Some(NativeKind::Int),
            Payload::Text(_) => Some(NativeKind::Text),
            Payload::Function(_) => Some(NativeKind::Function),
        }
    }

    /// The starting value of `kind`.
    pub fn default_of(kind: NativeKind) -> (payload: Payload)
        ensures
            payload.is_default_of(kind),
    {
        match kind {
            NativeKind::Bool => Payload::Bool(bool::tricone_default()),
            NativeKind::Int => Payload::Int(i64::tricone_default()),
            NativeKind::Text => Payload::Text(String::tricone_default()),
            NativeKind::Function => Payload::Function(Function::tricone_default()),
        }
    }
}

/// The boolean in the payload of `obj`; a `TypeError` where the payload is
/// of another kind.
pub fn get_bool(obj: &Object) -> (value: Result<bool, TriconeError>)
    ensures
        value == match obj.data {
            Payload::Bool(b) => Ok::<bool, TriconeError>(b),
            _ => Err::<bool, TriconeError>(TriconeError { kind: ErrorKind::TypeError }),
        },
{
    match &obj.data {
        Payload::Bool(b) => Ok(*b),
        _ => Err(TriconeError::new(ErrorKind::TypeError)),
    }
}

/// The integer in the payload of `obj`; a `TypeError` where the payload is
/// of another kind.
pub fn get_int(obj: &Object) -> (value: Result<i64, TriconeError>)
    ensures
        value == match obj.data {
            Payload::Int(i) => Ok::<i64, TriconeError>(i),
            _ => Err::<i64, TriconeError>(TriconeError { kind: ErrorKind::TypeError }),
        },
{
    match &obj.data {
        Payload::Int(i) => Ok(*i),
        _ => Err(TriconeError::new(ErrorKind::TypeError)),
    }
}

/// The text in the payload of `obj`; a `TypeError` where the payload is of
/// another kind.
pub fn get_text(obj: &Object) -> (value: Result<&String, TriconeError>)
    ensures
        match obj.data {
            Payload::Text(s) => value == Ok::<&String, TriconeError>(&s),
            _ => value == Err::<&String, TriconeError>(TriconeError { kind: ErrorKind::TypeError }),
        },
{
    match &obj.data {
        Payload::Text(s) => Ok(s),
        _ => Err(TriconeError::new(ErrorKind::TypeError)),
    }
}

/// Gives `obj` the payload `val`.
pub fn initialize_object_from_val(obj: &mut Object, val: Payload)
    ensures
        *final(obj) == (Object { members: old(obj).members, type_: old(obj).type_, data: val }),
{
    obj.data = val;
}

/// An object of the given type, without members, that holds `val`.
pub fn create_object_from_val(ty_idx: TypeIndex, val: Payload) -> (obj: Object)
    ensures
        obj.type_ == ty_idx,
        obj.data == val,
        obj.members.entries@.len() == 0,
        obj.members.distinct(),
        obj.members@ == Map::<Seq<char>, ObjectToken>::empty(),
{
    let mut obj = Object::raw_new(ty_idx);
    initialize_object_from_val(&mut obj, val);
    obj
}

/// Takes the payload out of `obj` and leaves it without one.
pub fn take_payload(obj: &mut Object) -> (val: Payload)
    ensures
        val == old(obj).data,
        *final(obj) == (Object {
            members: old(obj).members,
            type_: old(obj).type_,
            data: Payload::Empty,
        }),
{
    let mut val = Payload::Empty;
    std::mem::swap(&mut obj.data, &mut val);
    val
}

/// The description of a native method.
pub fn native_method(arity: usize, code: NativeProc) -> (def: FunctionDef)
    ensures
        def == FunctionDef::Native(NativeFunctionDef { arity, code: Box::new(code) }),
{
    FunctionDef::Native(NativeFunctionDef { arity, code: Box::new(code) })
}

/// The methods of a native type of `kind`: those of `extra`, and the
/// `create` and `drop` hooks of the kind where `extra` has none of its own.
pub open spec fn native_methods(kind: NativeKind, extra: Map<Seq<char>, FunctionDef>) -> Map<
    Seq<char>,
    FunctionDef,
> {
    let with_create = if extra.dom().contains(CREATE_METHOD_NAME@) {
        extra
    } else {
        extra.insert(
            CREATE_METHOD_NAME@,
            FunctionDef::Native(
                NativeFunctionDef { arity: 1, code: Box::new(NativeProc::Create(kind)) },
            ),
        )
    };
    if with_create.dom().contains(DROP_METHOD_NAME@) {
        with_create
    } else {
        with_create.insert(
            DROP_METHOD_NAME@,
            FunctionDef::Native(
                NativeFunctionDef { arity: 1, code: Box::new(NativeProc::Drop(kind)) },
            ),
        )
    }
}

/// Appends to `module` a native type of `kind`.  Its `create` hook gives a
/// new object the starting value of the kind and its `drop` hook destroys
/// the payload; `with_ty` holds the further methods of the type.
pub fn create_type_for(
    store: &mut ObjectStore,
    module: &mut Module,
    name: &str,
    kind: NativeKind,
    with_ty: TypeDef,
) -> (index: TypeIndex)
    ensures
        index.0 == old(module).index,
        index.1 == old(module).types@.len(),
        final(module).types@.len() == old(module).types@.len() + 1,
        final(module).types@.subrange(0, old(module).types@.len() as int) == old(module).types@,
        final(module).types@.last().name@ == name@,
        final(module).types@.last().index == index,
        final(module).types@.last().scope.vars@ == old(store).cells@.len(),
        final(module).types@.last().methods.distinct(),
        methods_match(
            final(module).types@.last().methods@,
            native_methods(kind, with_ty.methods@),
            final(module).types@.last().scope,
        ),
        final(module).name == old(module).name,
        final(module).index == old(module).index,
        final(module).globals == old(module).globals,
        adds_scope(*old(store), *final(store)),
        with_ty.methods.entries@.len() + 3 < usize::MAX ==> scope_counted(
            *final(store),
            final(module).types@.last(),
        ),
        final(module).types@.last().methods.entries@.len() <= with_ty.methods.entries@.len() + 2,
{
    let mut def = with_ty;
    if !def.methods.contains(CREATE_METHOD_NAME) {
        def.methods.insert(
            String::from_str(CREATE_METHOD_NAME),
            native_method(1, NativeProc::Create(kind)),
        );
    }
    if !def.methods.contains(DROP_METHOD_NAME) {
        def.methods.insert(
            String::from_str(DROP_METHOD_NAME),
            native_method(1, NativeProc::Drop(kind)),
        );
    }
    module.create_type(store, name, def)
}

/// Adds the method `add` to the description of a numeric type: it takes two
/// objects of one type and yields their sum as a new object of that type.
pub fn impl_add_for(ty: &mut TypeDef)
    ensures
        old(ty).methods.distinct() ==> final(ty).methods.distinct(),
        final(ty).methods.entries@.len() <= old(ty).methods.entries@.len() + 1,
        final(ty).methods@ == old(ty).methods@.insert(
            "add"@,
            FunctionDef::Native(NativeFunctionDef { arity: 2, code: Box::new(NativeProc::Add) }),
        ),
{
    ty.methods.insert(String::from_str("add"), native_method(2, NativeProc::Add));
}

/// Adds the method `tostring` to the description of a type: it yields the
/// text of the receiver's payload as a new string object.
pub fn impl_display_for(ty: &mut TypeDef)
    ensures
        old(ty).methods.distinct() ==> final(ty).methods.distinct(),
        final(ty).methods.entries@.len() <= old(ty).methods.entries@.len() + 1,
        final(ty).methods@ == old(ty).methods@.insert(
            "tostring"@,
            FunctionDef::Native(
                NativeFunctionDef { arity: 1, code: Box::new(NativeProc::ToString) },
            ),
        ),
{
    ty.methods.insert(String::from_str("tostring"), native_method(1, NativeProc::ToString));
}

} // verus!
