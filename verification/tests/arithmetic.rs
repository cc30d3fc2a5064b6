use tricone::function::{Code, Function, Scope};
use tricone::instruction::Instruction;
use tricone::int_::create_int;
use tricone::interpreter::Interpreter;
use tricone::natives::{add_ints, text_of};
use tricone::object::Payload;
use tricone::string::create_string;
use tricone::ErrorKind;

fn run_program(interpreter: &mut Interpreter, program: Vec<Instruction>) -> Result<(), ErrorKind> {
    let closure = Scope::new(&mut interpreter.store);
    let function = Function::from_code(Code::create(program), 0, closure);
    let result = function.call(interpreter, &[]);
    let outcome = match result {
        Ok(Some(value)) => interpreter.drop_token(value).map_err(|e| e.kind),
        Ok(None) => Ok(()),
        Err(e) => Err(e.kind),
    };
    interpreter.drop_token(function.closure.vars).unwrap();
    outcome
}

fn call(name: &str, num_args: usize, use_result: bool) -> Instruction {
    Instruction::CallMethod { name: name.to_owned(), num_args, use_result }
}

#[test]
fn add_and_tostring_round_trip() {
    let mut interpreter = Interpreter::new();
    let outcome = run_program(
        &mut interpreter,
        vec![
            Instruction::CreateInt { value: 20 },
            Instruction::CreateInt { value: 22 },
            call("add", 1, true),
            call("tostring", 0, true),
            call("println", 0, false),
        ],
    );
    assert_eq!(outcome, Ok(()));
    assert_eq!(interpreter.output(), &vec!["42".to_owned()]);
    assert_eq!(interpreter.stack_depth(), 0);
}

#[test]
fn add_yields_an_int_object_holding_the_sum() {
    let mut interpreter = Interpreter::new();
    let a = create_int(&mut interpreter, 20).unwrap();
    let b = create_int(&mut interpreter, 22).unwrap();
    let args = vec![a, b];
    let sum = interpreter.call_method("add", &args).unwrap().unwrap();
    {
        let object = sum.obj(&interpreter.store).unwrap();
        assert!(matches!(object.data, Payload::Int(42)));
        let operand = args[0].obj(&interpreter.store).unwrap();
        assert_eq!(object.type_, operand.type_);
    }
    let text = interpreter.call_method("tostring", &[sum]).unwrap().unwrap();
    match &text.obj(&interpreter.store).unwrap().data {
        Payload::Text(s) => assert_eq!(s, "42"),
        _ => panic!("tostring has to yield a string object"),
    }
    interpreter.drop_token(text).unwrap();
    interpreter.release_all(args).unwrap();
}

#[test]
fn tostring_writes_negative_numbers_and_booleans() {
    assert_eq!(text_of(&Payload::Int(-7)).unwrap(), "-7");
    assert_eq!(text_of(&Payload::Int(0)).unwrap(), "0");
    assert_eq!(text_of(&Payload::Int(i64::MIN)).unwrap(), "-9223372036854775808");
    assert_eq!(text_of(&Payload::Bool(true)).unwrap(), "true");
    assert_eq!(text_of(&Payload::Bool(false)).unwrap(), "false");
    assert_eq!(text_of(&Payload::Empty).unwrap_err().kind, ErrorKind::TypeError);
    assert_eq!(text_of(&Payload::Text("x".to_owned())).unwrap_err().kind, ErrorKind::TypeError);
}

#[test]
fn add_wraps_round_at_the_ends_of_the_range() {
    assert_eq!(add_ints(20, 22), 42);
    assert_eq!(add_ints(i64::MAX, 1), i64::MIN);
    assert_eq!(add_ints(i64::MIN, -1), i64::MAX);
    assert_eq!(add_ints(-5, 5), 0);
}

#[test]
fn add_refuses_operands_of_different_types() {
    let mut interpreter = Interpreter::new();
    let a = create_string(&mut interpreter, "a".to_owned()).unwrap();
    let b = create_int(&mut interpreter, 1).unwrap();
    let args = vec![a, b];
    let result = interpreter.call_method("add", &args);
    assert_eq!(result.unwrap_err().kind, ErrorKind::TypeError);
    interpreter.release_all(args).unwrap();
}

#[test]
fn println_appends_to_the_output_in_order() {
    let mut interpreter = Interpreter::new();
    let outcome = run_program(
        &mut interpreter,
        vec![
            Instruction::CreateString { value: "first".to_owned() },
            call("println", 0, false),
            Instruction::CreateString { value: "second".to_owned() },
            call("println", 0, false),
        ],
    );
    assert_eq!(outcome, Ok(()));
    assert_eq!(interpreter.output(), &vec!["first".to_owned(), "second".to_owned()]);
}

#[test]
fn a_discarded_result_leaves_the_stack_balanced() {
    let mut interpreter = Interpreter::new();
    let live_before = interpreter.store.cells.iter().filter(|c| c.is_some()).count();
    let outcome = run_program(
        &mut interpreter,
        vec![
            Instruction::CreateInt { value: 1 },
            Instruction::CreateInt { value: 2 },
            call("add", 1, false),
        ],
    );
    assert_eq!(outcome, Ok(()));
    assert_eq!(interpreter.stack_depth(), 0);
    let live_after = interpreter.store.cells.iter().filter(|c| c.is_some()).count();
    assert_eq!(live_before, live_after);
}

#[test]
fn a_call_without_a_result_yields_a_unit_object_when_asked() {
    let mut interpreter = Interpreter::new();
    let closure = Scope::new(&mut interpreter.store);
    let function = Function::from_code(
        Code::create(vec![
            Instruction::CreateString { value: "x".to_owned() },
            call("println", 0, true),
        ]),
        0,
        closure,
    );
    let value = function.call(&mut interpreter, &[]).unwrap().unwrap();
    assert_eq!(
        value.obj(&interpreter.store).unwrap().type_,
        tricone::consts::unit_type_id()
    );
    interpreter.drop_token(value).unwrap();
    interpreter.drop_token(function.closure.vars).unwrap();
}
