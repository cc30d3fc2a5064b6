//! The native procedures: the bodies of the hooks and methods of the
//! built-in types.
use vstd::prelude::*;
use crate::builtins::{builtin_if, builtin_while};
use crate::consts::core_module_id;
use crate::error::{ErrorKind, TriconeError};
use crate::function::{NativeKind, NativeProc};
use crate::generic::{get_int, get_text};
use crate::host::{host_values_view, HostValue, HostValueM, Hosted};
use crate::interpreter::{fails_with, same_but_store, steps_to, unchanged, Interpreter};
use crate::model::{payload_view, result_view, token_result_view, tokens_view, CellM};
use crate::object::{ObjectStore, ObjectToken, Payload, TypeIndex};
use crate::semantics::{
    m_builtin_if,
    m_builtin_while,
    m_create_bool,
    m_create_holding,
    m_create_native,
    m_create_object,
    m_drop_token,
    m_host_value,
    m_host_values,
    m_native,
    m_native_add,
    m_native_create,
    m_native_drop,
    m_native_host,
    m_native_println,
    m_native_tostring,
    m_payload_text,
};
use crate::text::int_to_text;

verus! {

/// The text of a payload that has one: `true` or `false` for a boolean,
/// the decimal digits for an integer.
pub open spec fn payload_text(data: Payload) -> Option<Seq<char>> {
    match data {
        Payload::Bool(true) => Some("true"@),
        Payload::Bool(false) => Some("false"@),
        Payload::Int(value) => Some(crate::text::decimal_text(value)),
        _ => None,
    }
}

/// The sum of two integers; a sum that an `i64` cannot hold wraps round.
pub open spec fn wrapping_sum(a: i64, b: i64) -> i64 {
    if a + b > i64::MAX {
        (a + b - 0x1_0000_0000_0000_0000) as i64
    } else if a + b < i64::MIN {
        (a + b + 0x1_0000_0000_0000_0000) as i64
    } else {
        (a + b) as i64
    }
}

/// Adds two integers as `native_add` does.
pub fn add_ints(a: i64, b: i64) -> (sum: i64)
    ensures
        sum == wrapping_sum(a, b),
{
    a.wrapping_add(b)
}

/// The text of a payload, for `tostring`; a `TypeError` for a payload
/// without one.
pub fn text_of(data: &Payload) -> (text: Result<String, TriconeError>)
    ensures
        match m_payload_text(payload_view(*data)) {
            Some(expected) => text is Ok && text->Ok_0@ == expected,
            None => text is Err,
        },
        match payload_text(*data) {
            Some(expected) => text is Ok && text->Ok_0@ == expected,
            None => text == Err::<String, TriconeError>(
                TriconeError { kind: ErrorKind::TypeError },
            ),
        },
{
    match data {
        Payload::Bool(value) => {
            if *value {
                Ok(String::from_str("true"))
            } else {
                Ok(String::from_str("false"))
            }
        },
        Payload::Int(value) => Ok(int_to_text(*value)),
        _ => Err(TriconeError::new(ErrorKind::TypeError)),
    }
}

/// Makes an object of the type `ty` and gives it the payload `data`.
/// Fails with `NameError`, and changes nothing, where `ty` is `None`: the
/// type was looked up by its name and not found.
pub fn create_holding(interpreter: &mut Interpreter, ty: Option<TypeIndex>, data: Payload) -> (r:
    Result<ObjectToken, TriconeError>)
    ensures
        (final(interpreter)@, token_result_view(r)) == m_create_holding(
            old(interpreter)@,
            ty,
            payload_view(data),
        ),
        steps_to(*old(interpreter), *final(interpreter)),
        ty is None ==> r == Err::<ObjectToken, TriconeError>(
            TriconeError { kind: ErrorKind::NameError },
        ) && unchanged(*old(interpreter), *final(interpreter)),
        r is Ok ==> {
            let token = r->Ok_0;
            &&& ty is Some
            &&& token@ == old(interpreter).store.cells@.len()
            &&& final(interpreter).store.live(token@)
            &&& final(interpreter).store.object(token@).data == data
            &&& final(interpreter).store.object(token@).type_ == ty->0
        },
    decreases old(interpreter).budget, 9int,
{
    proof {
        crate::model::lemma_store_view(interpreter.store, 0);
    }
    reveal(m_create_holding);
    reveal(m_create_object);
    let tyidx = match ty {
        Some(tyidx) => tyidx,
        None => {
            return Err(TriconeError::new(ErrorKind::NameError));
        },
    };
    let token = match interpreter.create_object(tyidx, 0) {
        Ok(token) => token,
        Err(e) => {
            return Err(e);
        },
    };
    match interpreter.store.put_payload(token.index(), data) {
        Ok(_) => Ok(token),
        Err(_) => Err(TriconeError::new(ErrorKind::IndexError)),
    }
}

/// Makes an object of the core type named `core_type` and gives it the
/// payload `data`.  Fails with `NameError` where the core module has no
/// such type.
pub fn create_native(interpreter: &mut Interpreter, core_type: &str, data: Payload) -> (r: Result<
    ObjectToken,
    TriconeError,
>)
    ensures
        (final(interpreter)@, token_result_view(r)) == m_create_native(
            old(interpreter)@,
            core_type@,
            payload_view(data),
        ),
        steps_to(*old(interpreter), *final(interpreter)),
        old(interpreter).lookup_type_spec(core_type@) is None ==> r == Err::<
            ObjectToken,
            TriconeError,
        >(TriconeError { kind: ErrorKind::NameError })
            && unchanged(*old(interpreter), *final(interpreter)),
        r is Ok ==> {
            let token = r->Ok_0;
            &&& token@ == old(interpreter).store.cells@.len()
            &&& final(interpreter).store.live(token@)
            &&& final(interpreter).store.object(token@).data == data
        },
    decreases old(interpreter).budget, 10int,
{
    reveal(m_create_native);
    reveal(m_create_holding);
    let ty = interpreter.lookup_type(core_module_id(), core_type);
    create_holding(interpreter, ty, data)
}

impl Interpreter {
    /// The identity of the core type named `name`.
    pub open spec fn lookup_type_spec(&self, name: Seq<char>) -> Option<crate::object::TypeIndex> {
        if self.modules@.len() > 0 {
            match crate::names::first_position(self.modules@[0].type_names(), name) {
                Some(i) => Some(crate::object::TypeIndex(core_module_id(), i as usize)),
                None => None,
            }
        } else {
            None
        }
    }
}

/// The `create` hook of a native type: the receiver gets the starting
/// value of `kind` as its payload.
pub fn native_create(interpreter: &mut Interpreter, kind: NativeKind, args: &[ObjectToken]) -> (r:
    Result<Option<ObjectToken>, TriconeError>)
    ensures
        (final(interpreter)@, result_view(r)) == m_native_create(
            old(interpreter)@,
            kind,
            tokens_view(args@),
        ),
        same_but_store(*old(interpreter), *final(interpreter)),
        steps_to(*old(interpreter), *final(interpreter)),
        args@.len() == 0
            ==> r == fails_with(ErrorKind::WrongArgumentCount)
            && unchanged(*old(interpreter), *final(interpreter)),
        args@.len() > 0 && !old(interpreter).store.live(args@[0]@) ==> r == fails_with(
            ErrorKind::IndexError,
        ) && final(interpreter).store.cells@ == old(interpreter).store.cells@,
        args@.len() > 0 && old(interpreter).store.live(args@[0]@) ==> {
            &&& r == Ok::<Option<ObjectToken>, TriconeError>(None)
            &&& old(interpreter).store.differs_in_object(&final(interpreter).store, args@[0]@)
            &&& final(interpreter).store.object(args@[0]@).data.is_default_of(kind)
            &&& final(interpreter).store.object(args@[0]@).members
                == old(interpreter).store.object(args@[0]@).members
        },
{
    proof {
        crate::model::lemma_tokens_view(args@);
    }
    if args.len() == 0 {
        return Err(TriconeError::new(ErrorKind::WrongArgumentCount));
    }
    match interpreter.store.put_payload(args[0].index(), Payload::default_of(kind)) {
        Ok(_) => Ok(None),
        Err(_) => Err(TriconeError::new(ErrorKind::IndexError)),
    }
}

/// The `drop` hook of a native type: the payload of the receiver is
/// destroyed.  A payload of another kind than `kind` is destroyed too, and
/// is a `TypeError`.  The closure of a function payload is given up.
pub fn native_drop(interpreter: &mut Interpreter, kind: NativeKind, args: &[ObjectToken]) -> (r:
    Result<Option<ObjectToken>, TriconeError>)
    ensures
        (final(interpreter)@, result_view(r)) == m_native_drop(
            old(interpreter)@,
            kind,
            tokens_view(args@),
        ),
        steps_to(*old(interpreter), *final(interpreter)),
        args@.len() == 0
            ==> r == fails_with(ErrorKind::WrongArgumentCount)
            && unchanged(*old(interpreter), *final(interpreter)),
        args@.len() > 0 && !old(interpreter).store.live(args@[0]@) ==> r == fails_with(
            ErrorKind::IndexError,
        ) && unchanged(*old(interpreter), *final(interpreter)),
        args@.len() > 0 && old(interpreter).store.live(args@[0]@) && old(interpreter).store.object(
            args@[0]@,
        ).data.spec_kind() != Some(kind) ==> r == fails_with(ErrorKind::TypeError),
        r is Ok ==> r == Ok::<Option<ObjectToken>, TriconeError>(None),
    decreases old(interpreter).budget, 12int,
{
    proof {
        crate::model::lemma_tokens_view(args@);
    }
    reveal(m_native_drop);
    reveal(m_drop_token);
    if args.len() == 0 {
        return Err(TriconeError::new(ErrorKind::WrongArgumentCount));
    }
    let data = match interpreter.store.put_payload(args[0].index(), Payload::Empty) {
        Ok(data) => data,
        Err(_) => {
            return Err(TriconeError::new(ErrorKind::IndexError));
        },
    };
    let matches = match data.kind() {
        Some(found) => found == kind,
        None => false,
    };
    let closed = match data {
        Payload::Function(func) => {
            if interpreter.store.is_live(func.closure.vars.index()) {
                interpreter.drop_token(func.closure.vars)
            } else {
                Ok(())
            }
        },
        _ => Ok(()),
    };
    if !matches {
        Err(TriconeError::new(ErrorKind::TypeError))
    } else {
        match closed {
            Ok(()) => Ok(None),
            Err(e) => Err(e),
        }
    }
}

/// The operands of `add`: the integers in the first two arguments, which
/// have to be live objects of one type.
pub open spec fn add_operands(interpreter: Interpreter, args: Seq<ObjectToken>) -> Result<
    (i64, i64),
    TriconeError,
> {
    if args.len() < 2 {
        Err(TriconeError { kind: ErrorKind::WrongArgumentCount })
    } else if !interpreter.store.live(args[0]@) || !interpreter.store.live(args[1]@) {
        Err(TriconeError { kind: ErrorKind::IndexError })
    } else {
        let a = interpreter.store.object(args[0]@);
        let b = interpreter.store.object(args[1]@);
        if a.type_ != b.type_ {
            Err(TriconeError { kind: ErrorKind::TypeError })
        } else {
            match (a.data, b.data) {
                (Payload::Int(x), Payload::Int(y)) => Ok((x, y)),
                _ => Err(TriconeError { kind: ErrorKind::TypeError }),
            }
        }
    }
}

/// The method `add`: a new object of the type of the operands that holds
/// their sum.
pub fn native_add(interpreter: &mut Interpreter, args: &[ObjectToken]) -> (r: Result<
    Option<ObjectToken>,
    TriconeError,
>)
    ensures
        (final(interpreter)@, result_view(r))
            == m_native_add(old(interpreter)@, tokens_view(args@)),
        steps_to(*old(interpreter), *final(interpreter)),
        add_operands(*old(interpreter), args@) is Err ==> r == Err::<
            Option<ObjectToken>,
            TriconeError,
        >(add_operands(*old(interpreter), args@)->Err_0)
            && unchanged(*old(interpreter), *final(interpreter)),
        r is Ok ==> {
            &&& add_operands(*old(interpreter), args@) is Ok
            &&& r->Ok_0 is Some
            &&& r->Ok_0->0@ == old(interpreter).store.cells@.len()
            &&& final(interpreter).store.live(r->Ok_0->0@)
            &&& final(interpreter).store.object(r->Ok_0->0@).data == Payload::Int(
                wrapping_sum(
                    add_operands(*old(interpreter), args@)->Ok_0.0,
                    add_operands(*old(interpreter), args@)->Ok_0.1,
                ),
            )
        },
    decreases old(interpreter).budget, 12int,
{
    proof {
        crate::model::lemma_tokens_view(args@);
    }
    reveal(m_native_add);
    reveal(m_create_object);
    if args.len() < 2 {
        return Err(TriconeError::new(ErrorKind::WrongArgumentCount));
    }
    let operands = match (args[0].obj(&interpreter.store), args[1].obj(&interpreter.store)) {
        (Some(a), Some(b)) => {
            if a.type_ == b.type_ {
                match (get_int(a), get_int(b)) {
                    (Ok(x), Ok(y)) => Ok((a.type_, x, y)),
                    _ => Err(TriconeError::new(ErrorKind::TypeError)),
                }
            } else {
                Err(TriconeError::new(ErrorKind::TypeError))
            }
        },
        _ => Err(TriconeError::new(ErrorKind::IndexError)),
    };
    match operands {
        Err(e) => Err(e),
        Ok((ty, x, y)) => {
            let token = match interpreter.create_object(ty, 0) {
                Ok(token) => token,
                Err(e) => {
                    return Err(e);
                },
            };
            match interpreter.store.put_payload(token.index(), Payload::Int(add_ints(x, y))) {
                Ok(_) => Ok(Some(token)),
                Err(_) => Err(TriconeError::new(ErrorKind::IndexError)),
            }
        },
    }
}

/// The method `tostring`: a new string object that holds the text of the
/// receiver's payload.
pub fn native_tostring(interpreter: &mut Interpreter, args: &[ObjectToken]) -> (r: Result<
    Option<ObjectToken>,
    TriconeError,
>)
    ensures
        (final(interpreter)@, result_view(r)) == m_native_tostring(
            old(interpreter)@,
            tokens_view(args@),
        ),
        steps_to(*old(interpreter), *final(interpreter)),
        args@.len() == 0
            ==> r == fails_with(ErrorKind::WrongArgumentCount)
            && unchanged(*old(interpreter), *final(interpreter)),
        args@.len() > 0 && !old(interpreter).store.live(args@[0]@) ==> r == fails_with(
            ErrorKind::IndexError,
        ) && unchanged(*old(interpreter), *final(interpreter)),
        args@.len() > 0 && old(interpreter).store.live(args@[0]@) && payload_text(
            old(interpreter).store.object(args@[0]@).data,
        ) is None
            ==> r == fails_with(ErrorKind::TypeError)
            && unchanged(*old(interpreter), *final(interpreter)),
        r is Ok ==> {
            &&& r->Ok_0 is Some
            &&& args@.len() > 0
            &&& old(interpreter).store.live(args@[0]@)
            &&& final(interpreter).store.live(r->Ok_0->0@)
            &&& final(interpreter).store.object(r->Ok_0->0@).data is Text
            &&& Some(final(interpreter).store.object(r->Ok_0->0@).data->Text_0@) == payload_text(
                old(interpreter).store.object(args@[0]@).data,
            )
        },
    decreases old(interpreter).budget, 12int,
{
    proof {
        crate::model::lemma_tokens_view(args@);
    }
    reveal(m_native_tostring);
    reveal(m_create_native);
    reveal(m_create_holding);
    reveal(m_create_bool);
    if args.len() == 0 {
        return Err(TriconeError::new(ErrorKind::WrongArgumentCount));
    }
    let text = match args[0].obj(&interpreter.store) {
        Some(object) => text_of(&object.data),
        None => Err(TriconeError::new(ErrorKind::IndexError)),
    };
    match text {
        Ok(text) => match crate::string::create_string(interpreter, text) {
            Ok(token) => Ok(Some(token)),
            Err(e) => Err(e),
        },
        Err(e) => Err(e),
    }
}

/// The method `println`: writes the text of the receiver, a string object,
/// as one line to the output.
pub fn native_println(interpreter: &mut Interpreter, args: &[ObjectToken]) -> (r: Result<
    Option<ObjectToken>,
    TriconeError,
>)
    ensures
        (final(interpreter)@, result_view(r)) == m_native_println(
            old(interpreter)@,
            tokens_view(args@),
        ),
        final(interpreter).modules == old(interpreter).modules,
        final(interpreter).thread == old(interpreter).thread,
        final(interpreter).store == old(interpreter).store,
        final(interpreter).budget == old(interpreter).budget,
        args@.len() == 0
            ==> r == fails_with(ErrorKind::WrongArgumentCount)
            && unchanged(*old(interpreter), *final(interpreter)),
        args@.len() > 0 && !old(interpreter).store.live(args@[0]@) ==> r == fails_with(
            ErrorKind::IndexError,
        ) && unchanged(*old(interpreter), *final(interpreter)),
        args@.len() > 0 && old(interpreter).store.live(args@[0]@)
            ==> match old(interpreter).store.object(args@[0]@).data {
            Payload::Text(line) => r == Ok::<Option<ObjectToken>, TriconeError>(None)
                && final(interpreter).output@ == old(interpreter).output@.push(line),
            _ => r == fails_with(ErrorKind::TypeError)
                && unchanged(*old(interpreter), *final(interpreter)),
        },
{
    proof {
        crate::model::lemma_tokens_view(args@);
    }
    if args.len() == 0 {
        return Err(TriconeError::new(ErrorKind::WrongArgumentCount));
    }
    let line = match args[0].obj(&interpreter.store) {
        Some(object) => match get_text(object) {
            Ok(text) => Ok(text.clone()),
            Err(e) => Err(e),
        },
        None => Err(TriconeError::new(ErrorKind::IndexError)),
    };
    match line {
        Ok(line) => {
            interpreter.emit(line);
            Ok(None)
        },
        Err(e) => Err(e),
    }
}

/// What a host procedure is given for the object behind `token`: its
/// payload.  A handle to nothing gives `IndexError`, a function object
/// `TypeError`.
pub fn host_value(store: &ObjectStore, token: &ObjectToken) -> (r: Result<HostValue, TriconeError>)
    ensures
        host_value_view(r) == m_host_value(store@, token@),
{
    proof {
        crate::model::lemma_store_view(*store, token@);
    }
    match token.obj(store) {
        None => Err(TriconeError::new(ErrorKind::IndexError)),
        Some(object) => match &object.data {
            Payload::Empty => Ok(HostValue::Nothing),
            Payload::Bool(b) => Ok(HostValue::Bool(*b)),
            Payload::Int(i) => Ok(HostValue::Int(*i)),
            Payload::Text(text) => Ok(HostValue::Text(text.clone())),
            Payload::Function(_) => Err(TriconeError::new(ErrorKind::TypeError)),
        },
    }
}

/// The model of what `host_value` returns.
pub open spec fn host_value_view(r: Result<HostValue, TriconeError>) -> Result<
    HostValueM,
    ErrorKind,
> {
    match r {
        Ok(value) => Ok(value@),
        Err(e) => Err(e.kind),
    }
}

/// The model of what `host_values` returns.
pub open spec fn host_values_result_view(r: Result<Vec<HostValue>, TriconeError>) -> Result<
    Seq<HostValueM>,
    ErrorKind,
> {
    match r {
        Ok(values) => Ok(host_values_view(values@)),
        Err(e) => Err(e.kind),
    }
}

/// What a host procedure is given for `args`: the value of each argument,
/// the first argument first, or the error of the first that has none.
pub fn host_values(store: &ObjectStore, args: &[ObjectToken]) -> (r: Result<
    Vec<HostValue>,
    TriconeError,
>)
    ensures
        host_values_result_view(r) == m_host_values(store@, tokens_view(args@)),
{
    proof {
        crate::model::lemma_tokens_view(args@);
    }
    let ghost ids = tokens_view(args@);
    let mut values: Vec<HostValue> = Vec::new();
    let mut i: usize = 0;
    assert(ids.take(0) =~= Seq::<int>::empty());
    assert(host_values_view(values@) =~= Seq::<HostValueM>::empty());
    while i < args.len()
        invariant
            i <= args@.len(),
            ids == tokens_view(args@),
            ids.len() == args@.len(),
            forall|k: int| 0 <= k < args@.len() ==> ids[k] == args@[k]@,
            m_host_values(store@, ids.take(i as int)) == Ok::<Seq<HostValueM>, ErrorKind>(
                host_values_view(values@),
            ),
        decreases args@.len() - i,
    {
        assert(ids.take(i + 1).drop_last() =~= ids.take(i as int));
        assert(ids.take(i + 1).last() == args@[i as int]@);
        match host_value(store, &args[i]) {
            Ok(value) => {
                let ghost before = values@;
                values.push(value);
                assert(host_values_view(values@) =~= host_values_view(before).push(value@));
            },
            Err(e) => {
                proof {
                    lemma_host_values_fail(store@, ids, i + 1);
                }
                return Err(e);
            },
        }
        i += 1;
    }
    assert(ids.take(i as int) =~= ids);
    Ok(values)
}

/// Where the values of the first `n` arguments cannot be had, those of
/// all of them cannot, for the same reason.
pub proof fn lemma_host_values_fail(cells: Seq<Option<CellM>>, args: Seq<int>, n: int)
    requires
        0 <= n <= args.len(),
        m_host_values(cells, args.take(n)) is Err,
    ensures
        m_host_values(cells, args) == m_host_values(cells, args.take(n)),
    decreases args.len() - n,
{
    if n == args.len() {
        assert(args.take(n) =~= args);
    } else {
        assert(args.take(n + 1).drop_last() =~= args.take(n));
        lemma_host_values_fail(cells, args, n + 1);
    }
}

/// A procedure of the host.  It is given the payloads of the arguments;
/// where one of them has none to give, the procedure is not run.  A value
/// that it answers with becomes a new object of the core type of its
/// kind, to which the result is the one handle; the unit value becomes a
/// new unit object.  An error of the procedure is the error of the call.
pub fn native_host(interpreter: &mut Interpreter, procedure: &Hosted,
    args: &[ObjectToken]) -> (r: Result<Option<ObjectToken>, TriconeError>)
    ensures
        (final(interpreter)@, result_view(r)) == m_native_host(
            old(interpreter)@,
            *procedure,
            tokens_view(args@),
        ),
        steps_to(*old(interpreter), *final(interpreter)),
        m_host_values(old(interpreter).store@, tokens_view(args@)) is Err ==> r == fails_with(
            m_host_values(old(interpreter).store@, tokens_view(args@))->Err_0,
        ) && unchanged(*old(interpreter), *final(interpreter)),
        m_host_values(old(interpreter).store@, tokens_view(args@)) is Ok ==> {
            let answer = procedure.answer(
                m_host_values(old(interpreter).store@, tokens_view(args@))->Ok_0,
            );
            &&& answer is Err ==> r == fails_with(answer->Err_0) && unchanged(
                *old(interpreter),
                *final(interpreter),
            )
            &&& answer == Ok::<Option<HostValueM>, ErrorKind>(None) ==> r == crate::exec::yields_nothing()
                && unchanged(*old(interpreter), *final(interpreter))
            &&& r is Ok && answer is Ok && answer->Ok_0 is Some ==> r->Ok_0 is Some
        },
    decreases old(interpreter).budget, 12int,
{
    reveal(m_native_host);
    reveal(m_create_native);
    reveal(m_create_holding);
    reveal(m_create_bool);
    reveal(m_create_object);
    let values = match host_values(&interpreter.store, args) {
        Ok(values) => values,
        Err(e) => {
            return Err(e);
        },
    };
    let made = match procedure.run(values.as_slice()) {
        Err(e) => {
            return Err(e);
        },
        Ok(None) => {
            return Ok(None);
        },
        Ok(Some(HostValue::Nothing)) => interpreter.get_unit_object(),
        Ok(Some(HostValue::Bool(b))) => crate::bool_::create_bool(interpreter, b),
        Ok(Some(HostValue::Int(i))) => crate::int_::create_int(interpreter, i),
        Ok(Some(HostValue::Text(text))) => crate::string::create_string(interpreter, text),
    };
    match made {
        Ok(token) => Ok(Some(token)),
        Err(e) => Err(e),
    }
}

/// Runs a native procedure on `args`.
pub fn run_native(interpreter: &mut Interpreter, procedure: &NativeProc,
    args: &[ObjectToken]) -> (r:
    Result<Option<ObjectToken>, TriconeError>)
    ensures
        (final(interpreter)@, result_view(r)) == m_native(
            old(interpreter)@,
            *procedure,
            tokens_view(args@),
        ),
        steps_to(*old(interpreter), *final(interpreter)),
        match *procedure {
            NativeProc::Emit(line) => r == Ok::<Option<ObjectToken>, TriconeError>(None)
                && final(interpreter).output@ == old(interpreter).output@.push(line)
                && final(interpreter).store == old(interpreter).store
                && final(interpreter).thread == old(interpreter).thread,
            NativeProc::Uninitialized => r == fails_with(ErrorKind::TypeError)
                && unchanged(*old(interpreter), *final(interpreter)),
            _ => true,
        },
    decreases old(interpreter).budget, 13int,
{
    reveal(m_native);
    reveal(m_native_drop);
    reveal(m_native_add);
    reveal(m_native_tostring);
    reveal(m_native_host);
    reveal(m_builtin_if);
    reveal(m_builtin_while);
    match procedure {
        NativeProc::Create(kind) => native_create(interpreter, *kind, args),
        NativeProc::Drop(kind) => native_drop(interpreter, *kind, args),
        NativeProc::Add => native_add(interpreter, args),
        NativeProc::ToString => native_tostring(interpreter, args),
        NativeProc::Println => native_println(interpreter, args),
        NativeProc::If => builtin_if(interpreter, args),
        NativeProc::While => builtin_while(interpreter, args),
        NativeProc::Emit(line) => {
            interpreter.emit(line.clone());
            Ok(None)
        },
        NativeProc::Host(host) => native_host(interpreter, host, args),
        NativeProc::Uninitialized => Err(TriconeError::new(ErrorKind::TypeError)),
    }
}

} // verus!
