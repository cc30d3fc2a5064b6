//! The control-flow builtins `if` and `while`, and the module that offers
//! them.
use vstd::prelude::*;
use crate::error::{ErrorKind, TriconeError};
use crate::function::{is_function_object, NativeProc};
use crate::generic::native_method;
use crate::interpreter::{fails_with, first_error, steps_to, unchanged, Interpreter};
use crate::model::{bool_result_view, option_view, result_view, tokens_view};
use crate::moduledef::ModuleDef;
use crate::object::{ModuleIndex, ObjectToken};
use crate::semantics::{
    m_builtin_if,
    m_builtin_while,
    m_call_function_object,
    m_call_in_frame,
    m_drop_token,
    m_drop_unit,
    m_if_target,
    m_settle,
    m_truth_of,
    m_while_loop,
};
use crate::table::NameTable;

verus! {

/// The position, among the arguments of `if`, of the function that `if`
/// calls: the second argument for a true condition, the third for a false
/// one.
pub fn select_branch(condition: bool) -> (index: usize)
    ensures
        index == if condition {
            1usize
        } else {
            2usize
        },
{
    if condition {
        1
    } else {
        2
    }
}

/// The boolean that the object behind `token` holds.
pub open spec fn truth_at(interpreter: Interpreter, token: ObjectToken) -> Result<
    bool,
    TriconeError,
> {
    if !interpreter.store.live(token@) {
        Err(TriconeError { kind: ErrorKind::IndexError })
    } else {
        crate::bool_::spec_from_object(interpreter, interpreter.store.object(token@))
    }
}

/// The argument of `if` that is called: `Ok(1)` where the first argument
/// is a true boolean, `Ok(2)` where it is a false one.
pub open spec fn if_target(interpreter: Interpreter, args: Seq<ObjectToken>) -> Result<
    usize,
    TriconeError,
> {
    if args.len() < 3 {
        Err(TriconeError { kind: ErrorKind::WrongArgumentCount })
    } else {
        match truth_at(interpreter, args[0]) {
            Ok(condition) => Ok(
                if condition {
                    1usize
                } else {
                    2usize
                },
            ),
            Err(e) => Err(e),
        }
    }
}

/// Decides which argument of `if` is called.
pub fn choose_branch(interpreter: &Interpreter, args: &[ObjectToken]) -> (target: Result<
    usize,
    TriconeError,
>)
    ensures
        match target {
            Ok(at) => m_if_target(interpreter@, tokens_view(args@)) == Ok::<int, ErrorKind>(
                at as int,
            ),
            Err(e) => m_if_target(interpreter@, tokens_view(args@)) == Err::<int, ErrorKind>(
                e.kind,
            ),
        },
        target == if_target(*interpreter, args@),
        target is Ok ==> target->Ok_0 < args@.len(),
{
    proof {
        crate::model::lemma_tokens_view(args@);
    }
    if args.len() < 3 {
        return Err(TriconeError::new(ErrorKind::WrongArgumentCount));
    }
    match args[0].obj(&interpreter.store) {
        Some(object) => match crate::bool_::from_object(interpreter, object) {
            Ok(condition) => Ok(select_branch(condition)),
            Err(e) => Err(e),
        },
        None => Err(TriconeError::new(ErrorKind::IndexError)),
    }
}

/// Calls the function object behind `token` without arguments in the
/// frame that is active, as `Function::call_in_frame` calls a function.
pub fn call_function_object(interpreter: &mut Interpreter, token: &ObjectToken) -> (r: Result<
    Option<ObjectToken>,
    TriconeError,
>)
    ensures
        (final(interpreter)@, result_view(r)) == m_call_function_object(
            old(interpreter)@,
            token@,
        ),
        steps_to(*old(interpreter), *final(interpreter)),
        !old(interpreter).store.live(token@)
            ==> r == fails_with(ErrorKind::IndexError)
            && unchanged(*old(interpreter), *final(interpreter)),
        old(interpreter).store.live(token@) && !is_function_object(
            old(interpreter).store.object(token@),
        ) ==> r == fails_with(ErrorKind::TypeError)
            && unchanged(*old(interpreter), *final(interpreter)),
    decreases old(interpreter).budget, 11int,
{
    reveal(m_call_function_object);
    reveal(m_call_in_frame);
    reveal(m_drop_token);
    reveal(m_settle);
    let function = match interpreter.function_of(token) {
        Ok(function) => function,
        Err(e) => {
            return Err(e);
        },
    };
    let none: Vec<ObjectToken> = Vec::new();
    proof {
        crate::model::lemma_tokens_empty(none@);
    }
    let res = function.call_in_frame(interpreter, none.as_slice());
    let closed = interpreter.drop_token(function.closure.vars);
    interpreter.settle(res, closed)
}

/// The builtin `if(condition, then, else)`: calls `then` where the
/// condition is true and `else` where it is false, and yields what the
/// called function yields.  The other function is not called.  The branch
/// runs in a new scope of the frame that is active, so it sees what its
/// caller bound there.
///
/// Fails, and changes nothing, with `WrongArgumentCount` for fewer than
/// three arguments, with `IndexError` where the condition is gone, and
/// with `TypeError` where it is no boolean.
pub fn builtin_if(interpreter: &mut Interpreter, args: &[ObjectToken]) -> (r: Result<
    Option<ObjectToken>,
    TriconeError,
>)
    ensures
        (final(interpreter)@, result_view(r))
            == m_builtin_if(old(interpreter)@, tokens_view(args@)),
        steps_to(*old(interpreter), *final(interpreter)),
        if_target(*old(interpreter), args@) is Err ==> r == Err::<
            Option<ObjectToken>,
            TriconeError,
        >(if_target(*old(interpreter), args@)->Err_0)
            && unchanged(*old(interpreter), *final(interpreter)),
    decreases old(interpreter).budget, 12int,
{
    proof {
        crate::model::lemma_tokens_view(args@);
    }
    reveal(m_builtin_if);
    reveal(m_call_function_object);
    match choose_branch(interpreter, args) {
        Ok(target) => call_function_object(interpreter, &args[target]),
        Err(e) => Err(e),
    }
}

/// Reads the boolean that a condition yielded and gives the object up.  A
/// condition that yielded nothing is a `TypeError`.
pub fn truth_of(interpreter: &mut Interpreter, value: Option<ObjectToken>) -> (r: Result<
    bool,
    TriconeError,
>)
    ensures
        (final(interpreter)@, bool_result_view(r)) == m_truth_of(
            old(interpreter)@,
            option_view(value),
        ),
        steps_to(*old(interpreter), *final(interpreter)),
        value is None ==> r == Err::<bool, TriconeError>(
            TriconeError { kind: ErrorKind::TypeError },
        ) && unchanged(*old(interpreter), *final(interpreter)),
        value is Some && truth_at(*old(interpreter), value->0) is Err ==> r is Err,
        value is Some && r is Ok ==> r == truth_at(*old(interpreter), value->0),
    decreases old(interpreter).budget, 11int,
{
    reveal(m_truth_of);
    reveal(m_drop_token);
    match value {
        None => Err(TriconeError::new(ErrorKind::TypeError)),
        Some(token) => {
            let truth = match token.obj(&interpreter.store) {
                Some(object) => crate::bool_::from_object(interpreter, object),
                None => Err(TriconeError::new(ErrorKind::IndexError)),
            };
            let released = interpreter.drop_token(token);
            match truth {
                Ok(value) => match released {
                    Ok(()) => Ok(value),
                    Err(e) => Err(e),
                },
                Err(e) => Err(e),
            }
        },
    }
}

/// The builtin `while(condition, body)`: calls `condition` in a nested
/// scope of the frame of `while`, and, for as long as it yields true,
/// calls `body` there on the arguments of `while` and `condition` again.
/// Both share that frame, so what one of them binds in the frame's scope
/// the other sees.  The body has to yield nothing, or a unit object, which
/// is given up; another object is given up too, and is a `TypeError`.
///
/// Fails, and changes nothing, with `WrongArgumentCount` for fewer than
/// two arguments.
pub fn builtin_while(interpreter: &mut Interpreter, args: &[ObjectToken]) -> (r: Result<
    Option<ObjectToken>,
    TriconeError,
>)
    ensures
        (final(interpreter)@, result_view(r)) == m_builtin_while(
            old(interpreter)@,
            tokens_view(args@),
        ),
        steps_to(*old(interpreter), *final(interpreter)),
        args@.len() < 2
            ==> r == fails_with(ErrorKind::WrongArgumentCount)
            && unchanged(*old(interpreter), *final(interpreter)),
        r is Ok ==> r == Ok::<Option<ObjectToken>, TriconeError>(None),
    decreases old(interpreter).budget, 12int,
{
    proof {
        crate::model::lemma_tokens_view(args@);
    }
    reveal(m_builtin_while);
    reveal(m_while_loop);
    reveal(m_drop_token);
    if args.len() < 2 {
        return Err(TriconeError::new(ErrorKind::WrongArgumentCount));
    }
    let condition = match interpreter.function_of(&args[0]) {
        Ok(function) => function,
        Err(e) => {
            return Err(e);
        },
    };
    let body = match interpreter.function_of(&args[1]) {
        Ok(function) => function,
        Err(e) => {
            let _ = interpreter.drop_token(condition.closure.vars);
            return Err(e);
        },
    };
    let none: Vec<ObjectToken> = Vec::new();
    proof {
        crate::model::lemma_tokens_empty(none@);
    }
    let mut outcome: Result<(), TriconeError> = Ok(());
    let ghost entered = *interpreter;
    loop
        invariant_except_break
            outcome is Ok,
            m_while_loop(
                interpreter@,
                crate::model::function_view(condition),
                crate::model::function_view(body),
                tokens_view(args@),
            ) == m_while_loop(
                entered@,
                crate::model::function_view(condition),
                crate::model::function_view(body),
                tokens_view(args@),
            ),
        invariant
            steps_to(*old(interpreter), *interpreter),
            interpreter.budget <= entered.budget,
            tokens_view(none@) == Seq::<int>::empty(),
        ensures
            steps_to(*old(interpreter), *interpreter),
            interpreter.budget <= entered.budget,
            (interpreter@, crate::model::unit_result_view(outcome)) == m_while_loop(
                entered@,
                crate::model::function_view(condition),
                crate::model::function_view(body),
                tokens_view(args@),
            ),
        decreases interpreter.budget,
    {
        reveal(m_while_loop);
        reveal(m_call_in_frame);
        reveal(m_truth_of);
        reveal(m_drop_unit);
        let tested = match condition.call_in_frame(interpreter, none.as_slice()) {
            Ok(value) => truth_of(interpreter, value),
            Err(e) => Err(e),
        };
        match tested {
            Ok(true) => {},
            Ok(false) => {
                break ;
            },
            Err(e) => {
                outcome = Err(e);
                break ;
            },
        }
        let ran = match body.call_in_frame(interpreter, args) {
            Ok(value) => interpreter.drop_unit(value),
            Err(e) => Err(e),
        };
        match ran {
            Ok(()) => {},
            Err(e) => {
                outcome = Err(e);
                break ;
            },
        }
    }
    let first = interpreter.drop_token(body.closure.vars);
    let second = interpreter.drop_token(condition.closure.vars);
    match first_error(outcome, first_error(first, second)) {
        Ok(()) => Ok(None),
        Err(e) => Err(e),
    }
}

/// Whether `def` describes the module `builtins`: no types, and the free
/// functions `if`, of three arguments, and `while`, of two.
pub open spec fn is_builtins_def(def: ModuleDef) -> bool {
    &&& def.name@ == "builtins"@
    &&& def.types.entries@.len() == 0
    &&& def.free_functions.distinct()
    &&& def.free_functions@ == Map::<Seq<char>, crate::moduledef::FunctionDef>::empty().insert(
        "if"@,
        crate::moduledef::FunctionDef::Native(
            crate::moduledef::NativeFunctionDef { arity: 3, code: Box::new(NativeProc::If) },
        ),
    ).insert(
        "while"@,
        crate::moduledef::FunctionDef::Native(
            crate::moduledef::NativeFunctionDef { arity: 2, code: Box::new(NativeProc::While) },
        ),
    )
}

/// The description of the module `builtins`.
pub fn builtins_def() -> (def: ModuleDef)
    ensures
        is_builtins_def(def),
{
    let mut free_functions = NameTable::new();
    free_functions.insert(String::from_str("if"), native_method(3, NativeProc::If));
    free_functions.insert(String::from_str("while"), native_method(2, NativeProc::While));
    ModuleDef { name: String::from_str("builtins"), types: NameTable::new(), free_functions }
}

/// Registers the module `builtins` and returns its position.
pub fn register_builtins(interpreter: &mut Interpreter) -> (index: ModuleIndex)
    ensures
        exists|def: ModuleDef|
            {
                &&& is_builtins_def(def)
                &&& #[trigger] crate::moduledef::registers(
                    *old(interpreter),
                    def,
                    *final(interpreter),
                    index,
                )
            },
{
    builtins_def().register(interpreter)
}

} // verus!
