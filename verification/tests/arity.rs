use tricone::function::{Code, Function, NativeProc, Scope};
use tricone::instruction::Instruction;
use tricone::int_::create_int;
use tricone::interpreter::Interpreter;
use tricone::ErrorKind;
use tricone::TriconeDefault;

fn emitter(interpreter: &mut Interpreter, arity: usize) -> Function {
    let closure = Scope::new(&mut interpreter.store);
    Function::new(NativeProc::Emit("ran".to_owned()), arity, closure)
}

#[test]
fn a_call_with_the_declared_number_of_arguments_runs_the_body() {
    for arity in 0..4usize {
        let mut interpreter = Interpreter::new();
        let function = emitter(&mut interpreter, arity);
        let mut args = Vec::new();
        for i in 0..arity {
            args.push(create_int(&mut interpreter, i as i64).unwrap());
        }
        let result = function.call(&mut interpreter, &args);
        assert!(matches!(result, Ok(None)));
        assert_eq!(interpreter.output(), &vec!["ran".to_owned()]);
    }
}

#[test]
fn a_call_with_any_other_number_of_arguments_never_runs_the_body() {
    for arity in 0..4usize {
        for given in 0..5usize {
            if given == arity {
                continue;
            }
            let mut interpreter = Interpreter::new();
            let function = emitter(&mut interpreter, arity);
            let mut args = Vec::new();
            for i in 0..given {
                args.push(create_int(&mut interpreter, i as i64).unwrap());
            }
            let budget = interpreter.budget();
            let cells = interpreter.store.len();
            let result = function.call(&mut interpreter, &args);
            assert_eq!(result.unwrap_err().kind, ErrorKind::WrongArgumentCount);
            assert!(interpreter.output().is_empty());
            assert_eq!(interpreter.budget(), budget);
            assert_eq!(interpreter.store.len(), cells);
            let result = function.call_in_frame(&mut interpreter, &args);
            assert_eq!(result.unwrap_err().kind, ErrorKind::WrongArgumentCount);
            assert!(interpreter.output().is_empty());
        }
    }
}

#[test]
fn a_method_call_counts_the_receiver() {
    let mut interpreter = Interpreter::new();
    let receiver = create_int(&mut interpreter, 5).unwrap();
    let extra = create_int(&mut interpreter, 6).unwrap();
    // `tostring` takes the receiver alone.
    let args = vec![extra, receiver];
    let result = interpreter.call_method("tostring", &args);
    assert_eq!(result.unwrap_err().kind, ErrorKind::WrongArgumentCount);
    // `add` takes two.
    let lone = vec![create_int(&mut interpreter, 1).unwrap()];
    let result = interpreter.call_method("add", &lone);
    assert_eq!(result.unwrap_err().kind, ErrorKind::WrongArgumentCount);
}

#[test]
fn bytecode_bodies_are_refused_as_well() {
    let mut interpreter = Interpreter::new();
    let closure = Scope::new(&mut interpreter.store);
    let function = Function::from_code(
        Code::create(vec![
            Instruction::CreateString { value: "ran".to_owned() },
            Instruction::CallMethod { name: "println".to_owned(), num_args: 0, use_result: false },
        ]),
        2,
        closure,
    );
    let result = function.call(&mut interpreter, &[]);
    assert_eq!(result.unwrap_err().kind, ErrorKind::WrongArgumentCount);
    assert!(interpreter.output().is_empty());
    let args = vec![
        create_int(&mut interpreter, 1).unwrap(),
        create_int(&mut interpreter, 2).unwrap(),
    ];
    assert!(matches!(function.call(&mut interpreter, &args), Ok(Some(_))));
    assert_eq!(interpreter.output(), &vec!["ran".to_owned()]);
}

#[test]
fn the_default_function_takes_nothing_and_fails() {
    let mut interpreter = Interpreter::new();
    let function = Function::tricone_default();
    let one = vec![create_int(&mut interpreter, 1).unwrap()];
    assert_eq!(
        function.call(&mut interpreter, &one).unwrap_err().kind,
        ErrorKind::WrongArgumentCount
    );
    assert_eq!(function.call(&mut interpreter, &[]).unwrap_err().kind, ErrorKind::TypeError);
}
