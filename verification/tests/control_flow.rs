use tricone::bool_::{create_bool, register_bool_type};
use tricone::builtins::{builtin_if, builtin_while, choose_branch, register_builtins, select_branch};
use tricone::function::{function_object_from_function, Code, Function, NativeProc, Scope};
use tricone::instruction::Instruction;
use tricone::int_::create_int;
use tricone::interpreter::Interpreter;
use tricone::object::ObjectToken;
use tricone::ErrorKind;
use tricone::object::ModuleIndex;
use tricone::types::Module;

/// An interpreter whose host has registered the type `Bool`, in a module
/// of its own behind the core module.
fn with_bool() -> Interpreter {
    let mut interpreter = Interpreter::new();
    let index = ModuleIndex(interpreter.module_count());
    let mut module = Module::new(index, "logic", &mut interpreter.store);
    register_bool_type(&mut interpreter, &mut module);
    interpreter.modules.push(module);
    interpreter
}


fn emitter_object(interpreter: &mut Interpreter, line: &str, arity: usize) -> ObjectToken {
    let closure = Scope::new(&mut interpreter.store);
    let function = Function::new(NativeProc::Emit(line.to_owned()), arity, closure);
    function_object_from_function(function, &mut interpreter.store)
}

fn bytecode_object(
    interpreter: &mut Interpreter,
    program: Vec<Instruction>,
    arity: usize,
) -> ObjectToken {
    let closure = Scope::new(&mut interpreter.store);
    let function = Function::from_code(Code::create(program), arity, closure);
    function_object_from_function(function, &mut interpreter.store)
}

fn lines(interpreter: &Interpreter) -> Vec<&str> {
    interpreter.output().iter().map(|s| s.as_str()).collect()
}

/// Runs `if` in a frame, as a call of the builtin does.
fn run_if(
    interpreter: &mut Interpreter,
    args: &[ObjectToken],
) -> Result<Option<ObjectToken>, tricone::TriconeError> {
    let globals = Scope::new(&mut interpreter.store);
    let branching = Function::new(NativeProc::If, 3, globals);
    branching.call(interpreter, args)
}

#[test]
fn if_true_calls_then_and_never_else() {
    let mut interpreter = with_bool();
    let condition = create_bool(&mut interpreter, true).unwrap();
    let then = emitter_object(&mut interpreter, "then", 0);
    let otherwise = emitter_object(&mut interpreter, "else", 0);
    let args = vec![condition, then, otherwise];
    assert!(matches!(run_if(&mut interpreter, &args), Ok(None)));
    assert_eq!(lines(&interpreter), vec!["then"]);
}

#[test]
fn if_false_calls_else_and_never_then() {
    let mut interpreter = with_bool();
    let condition = create_bool(&mut interpreter, false).unwrap();
    let then = emitter_object(&mut interpreter, "then", 0);
    let otherwise = emitter_object(&mut interpreter, "else", 0);
    let args = vec![condition, then, otherwise];
    assert!(matches!(run_if(&mut interpreter, &args), Ok(None)));
    assert_eq!(lines(&interpreter), vec!["else"]);
}

#[test]
fn if_picks_the_second_or_the_third_argument() {
    assert_eq!(select_branch(true), 1);
    assert_eq!(select_branch(false), 2);
    let mut interpreter = with_bool();
    let yes = create_bool(&mut interpreter, true).unwrap();
    let no = create_bool(&mut interpreter, false).unwrap();
    let a = create_int(&mut interpreter, 0).unwrap();
    let b = create_int(&mut interpreter, 0).unwrap();
    let args = vec![yes, a, b];
    assert_eq!(choose_branch(&interpreter, &args).unwrap(), 1);
    let c = create_int(&mut interpreter, 0).unwrap();
    let d = create_int(&mut interpreter, 0).unwrap();
    let args = vec![no, c, d];
    assert_eq!(choose_branch(&interpreter, &args).unwrap(), 2);
}

#[test]
fn if_refuses_a_condition_that_is_no_boolean() {
    let mut interpreter = with_bool();
    let condition = create_int(&mut interpreter, 1).unwrap();
    let then = emitter_object(&mut interpreter, "then", 0);
    let otherwise = emitter_object(&mut interpreter, "else", 0);
    let args = vec![condition, then, otherwise];
    assert_eq!(builtin_if(&mut interpreter, &args).unwrap_err().kind, ErrorKind::TypeError);
    assert!(interpreter.output().is_empty());
    assert_eq!(
        builtin_if(&mut interpreter, &args[0..2]).unwrap_err().kind,
        ErrorKind::WrongArgumentCount
    );
}

#[test]
fn if_refuses_a_branch_that_is_no_function() {
    let mut interpreter = with_bool();
    let condition = create_bool(&mut interpreter, true).unwrap();
    let then = create_int(&mut interpreter, 1).unwrap();
    let otherwise = emitter_object(&mut interpreter, "else", 0);
    let args = vec![condition, then, otherwise];
    assert_eq!(builtin_if(&mut interpreter, &args).unwrap_err().kind, ErrorKind::TypeError);
    assert!(interpreter.output().is_empty());
}

#[test]
fn if_yields_what_the_branch_yields() {
    let mut interpreter = with_bool();
    let condition = create_bool(&mut interpreter, false).unwrap();
    let then = bytecode_object(&mut interpreter, vec![Instruction::CreateInt { value: 1 }], 0);
    let otherwise = bytecode_object(&mut interpreter, vec![Instruction::CreateInt { value: 2 }], 0);
    let args = vec![condition, then, otherwise];
    let value = run_if(&mut interpreter, &args).unwrap().unwrap();
    assert!(matches!(
        value.obj(&interpreter.store).unwrap().data,
        tricone::Payload::Int(2)
    ));
}

/// Runs `while` in a frame, as a call of the builtin does. The condition
/// looks the flag up; the body writes a line and binds the flag to a new,
/// false boolean in the scope of the frame of `while`.
fn run_while(
    interpreter: &mut Interpreter,
    start: bool,
) -> Result<Option<ObjectToken>, tricone::TriconeError> {
    let bool_type = interpreter.find_type("Bool").unwrap();
    let globals = Scope::new(&mut interpreter.store);
    let flag = create_bool(interpreter, start).unwrap();
    globals.vars.assign_member("flag".to_owned(), flag, interpreter).unwrap();
    let condition = bytecode_object(
        interpreter,
        vec![Instruction::LookupName { name: "flag".to_owned() }],
        0,
    );
    let body = bytecode_object(
        interpreter,
        vec![
            Instruction::CreateString { value: "body".to_owned() },
            Instruction::CallMethod { name: "println".to_owned(), num_args: 0, use_result: false },
            Instruction::CreateObject { type_: bool_type, num_args: 0 },
            Instruction::GetTopScope,
            Instruction::GetMember { name: "!parent".to_owned() },
            Instruction::Assign { name: "flag".to_owned() },
        ],
        2,
    );
    let looping = Function::new(NativeProc::While, 2, globals);
    let args = vec![condition, body];
    looping.call(interpreter, &args)
}

#[test]
fn while_runs_the_body_until_the_condition_is_false() {
    let mut interpreter = with_bool();
    let result = run_while(&mut interpreter, true);
    assert!(matches!(result, Ok(None)));
    // The flag starts true; the body runs once and binds it to false in the
    // frame that it shares with the condition.
    assert_eq!(lines(&interpreter), vec!["body"]);
}

#[test]
fn while_never_runs_the_body_for_a_false_condition() {
    let mut interpreter = with_bool();
    let result = run_while(&mut interpreter, false);
    assert!(matches!(result, Ok(None)));
    assert!(interpreter.output().is_empty());
}

#[test]
fn while_counts_as_many_rounds_as_the_condition_allows() {
    // The condition is true as long as a counter object has the member
    // `more`; each round of the body moves the counter one link on.
    let mut interpreter = with_bool();
    let globals = Scope::new(&mut interpreter.store);
    // more -> more -> more -> (end): three rounds.
    let end = Scope::new(&mut interpreter.store);
    let no = create_bool(&mut interpreter, false).unwrap();
    end.vars.assign_member("go".to_owned(), no, &mut interpreter).unwrap();
    let mut chain = end.vars;
    for _ in 0..3 {
        let link = Scope::new(&mut interpreter.store);
        let yes = create_bool(&mut interpreter, true).unwrap();
        link.vars.assign_member("go".to_owned(), yes, &mut interpreter).unwrap();
        link.vars.assign_member("more".to_owned(), chain, &mut interpreter).unwrap();
        chain = link.vars;
    }
    globals.vars.assign_member("at".to_owned(), chain, &mut interpreter).unwrap();
    let condition = bytecode_object(
        &mut interpreter,
        vec![
            Instruction::LookupName { name: "at".to_owned() },
            Instruction::GetMember { name: "go".to_owned() },
        ],
        0,
    );
    let body = bytecode_object(
        &mut interpreter,
        vec![
            Instruction::CreateString { value: "round".to_owned() },
            Instruction::CallMethod { name: "println".to_owned(), num_args: 0, use_result: false },
            Instruction::LookupName { name: "at".to_owned() },
            Instruction::GetMember { name: "more".to_owned() },
            Instruction::GetTopScope,
            Instruction::GetMember { name: "!parent".to_owned() },
            Instruction::Assign { name: "at".to_owned() },
        ],
        2,
    );
    let looping = Function::new(NativeProc::While, 2, globals);
    let args = vec![condition, body];
    let result = looping.call(&mut interpreter, &args);
    assert!(matches!(result, Ok(None)));
    assert_eq!(lines(&interpreter), vec!["round", "round", "round"]);
}

#[test]
fn while_without_an_end_stops_when_the_budget_is_spent() {
    let mut interpreter = with_bool();
    let globals = Scope::new(&mut interpreter.store);
    let flag = create_bool(&mut interpreter, true).unwrap();
    globals.vars.assign_member("flag".to_owned(), flag, &mut interpreter).unwrap();
    let condition = bytecode_object(
        &mut interpreter,
        vec![Instruction::LookupName { name: "flag".to_owned() }],
        0,
    );
    let body = emitter_object(&mut interpreter, "again", 2);
    let looping = Function::new(NativeProc::While, 2, globals);
    let args = vec![condition, body];
    interpreter.set_budget(200);
    let result = looping.call(&mut interpreter, &args);
    assert_eq!(result.unwrap_err().kind, ErrorKind::BudgetExhausted);
    assert!(interpreter.output().len() > 10);
    assert!(interpreter.budget() < 5);
}

#[test]
fn while_refuses_a_body_that_yields_a_value() {
    let mut interpreter = with_bool();
    let globals = Scope::new(&mut interpreter.store);
    let flag = create_bool(&mut interpreter, true).unwrap();
    globals.vars.assign_member("flag".to_owned(), flag, &mut interpreter).unwrap();
    let condition = bytecode_object(
        &mut interpreter,
        vec![Instruction::LookupName { name: "flag".to_owned() }],
        0,
    );
    let body = bytecode_object(&mut interpreter, vec![Instruction::CreateInt { value: 1 }], 2);
    let looping = Function::new(NativeProc::While, 2, globals);
    let args = vec![condition, body];
    let result = looping.call(&mut interpreter, &args);
    assert_eq!(result.unwrap_err().kind, ErrorKind::TypeError);
}

#[test]
fn while_gives_up_the_unit_value_of_its_body() {
    let mut interpreter = with_bool();
    let live_before = interpreter.store.cells.iter().filter(|c| c.is_some()).count();
    let result = run_while(&mut interpreter, true);
    assert!(matches!(result, Ok(None)));
    // What is left: the scope of the globals with the first flag, and the
    // two function objects with their closures.  No unit object.
    let unit = tricone::consts::unit_type_id();
    let units = interpreter
        .store
        .cells
        .iter()
        .filter(|c| matches!(c, Some(cell) if cell.object.type_ == unit))
        .count();
    assert_eq!(units, 0);
    assert!(interpreter.store.cells.iter().filter(|c| c.is_some()).count() > live_before);
}

#[test]
fn while_needs_two_arguments() {
    let mut interpreter = with_bool();
    let condition = emitter_object(&mut interpreter, "c", 0);
    let args = vec![condition];
    assert_eq!(
        builtin_while(&mut interpreter, &args).unwrap_err().kind,
        ErrorKind::WrongArgumentCount
    );
}

#[test]
fn the_builtins_are_functions_of_their_module() {
    let mut interpreter = with_bool();
    let index = register_builtins(&mut interpreter);
    assert_eq!(index.0, 2);
    assert!(interpreter.get_module(index).types.is_empty());
    let program = vec![
        Instruction::GetModuleGlobals { name: "builtins".to_owned() },
        Instruction::GetMember { name: "if".to_owned() },
        Instruction::LookupName { name: "condition".to_owned() },
        Instruction::LookupName { name: "then".to_owned() },
        Instruction::LookupName { name: "otherwise".to_owned() },
        Instruction::CallFunctionObject { num_args: 3, use_result: false },
    ];
    let closure = Scope::new(&mut interpreter.store);
    let condition = create_bool(&mut interpreter, true).unwrap();
    closure.vars.assign_member("condition".to_owned(), condition, &mut interpreter).unwrap();
    let then = emitter_object(&mut interpreter, "then", 0);
    closure.vars.assign_member("then".to_owned(), then, &mut interpreter).unwrap();
    let otherwise = emitter_object(&mut interpreter, "else", 0);
    closure.vars.assign_member("otherwise".to_owned(), otherwise, &mut interpreter).unwrap();
    let function = Function::from_code(Code::create(program), 0, closure);
    let result = function.call(&mut interpreter, &[]).unwrap().unwrap();
    assert_eq!(
        result.obj(&interpreter.store).unwrap().type_,
        tricone::consts::unit_type_id()
    );
    assert_eq!(lines(&interpreter), vec!["then"]);
    assert_eq!(interpreter.stack_depth(), 0);
}

#[test]
fn if_runs_its_branch_in_the_frame_of_its_caller() {
    let mut interpreter = with_bool();
    let globals = Scope::new(&mut interpreter.store);
    let seen = create_int(&mut interpreter, 9).unwrap();
    globals.vars.assign_member("seen".to_owned(), seen, &mut interpreter).unwrap();
    let branching = Function::new(NativeProc::If, 3, globals);
    let condition = create_bool(&mut interpreter, true).unwrap();
    let then =
        bytecode_object(&mut interpreter, vec![Instruction::LookupName { name: "seen".to_owned() }], 0);
    let otherwise = emitter_object(&mut interpreter, "else", 0);
    let args = vec![condition, then, otherwise];
    let value = branching.call(&mut interpreter, &args).unwrap().unwrap();
    assert!(matches!(value.obj(&interpreter.store).unwrap().data, tricone::Payload::Int(9)));
    assert!(interpreter.output().is_empty());

    let alone = Function::from_code(
        Code::create(vec![Instruction::LookupName { name: "seen".to_owned() }]),
        0,
        Scope::new(&mut interpreter.store),
    );
    assert!(alone.call(&mut interpreter, &[]).is_err());
}

#[test]
fn if_needs_a_frame_to_run_its_branch_in() {
    let mut interpreter = with_bool();
    let condition = create_bool(&mut interpreter, true).unwrap();
    let then = emitter_object(&mut interpreter, "then", 0);
    let otherwise = emitter_object(&mut interpreter, "else", 0);
    let args = vec![condition, then, otherwise];
    assert!(builtin_if(&mut interpreter, &args).is_err());
    assert!(interpreter.output().is_empty());
}
