use tricone::bool_::{create_bool, register_bool_type};
use tricone::function::{function_object_from_function, Function, NativeProc, Scope};
use tricone::generic::{get_bool, get_text, native_method};
use tricone::host::{FirstValue, HostProcedure, HostValue, Hosted, Negation};
use tricone::instruction::Instruction;
use tricone::int_::create_int;
use tricone::interpreter::Interpreter;
use tricone::moduledef::{ModuleDef, TypeDef};
use tricone::natives::{host_value, host_values, native_host};
use tricone::object::ObjectToken;
use tricone::string::create_string;
use tricone::table::NameTable;
use tricone::ErrorKind;
use tricone::object::ModuleIndex;
use tricone::types::Module;

/// An interpreter whose host has registered the type `Bool`, in a module
/// of its own behind the core module.
fn with_bool() -> Interpreter {
    let mut interpreter = Interpreter::new();
    let index = ModuleIndex(interpreter.module_count());
    let mut module = Module::new(index, "logic", &mut interpreter.store);
    register_bool_type(&mut interpreter, &mut module);
    interpreter.modules.push(module);
    interpreter
}


fn hosted(procedure: Box<dyn HostProcedure>, arity: usize, interpreter: &mut Interpreter) -> Function {
    let closure = Scope::new(&mut interpreter.store);
    Function::new(NativeProc::Host(Hosted { procedure }), arity, closure)
}

#[test]
fn a_host_procedure_answers_with_a_new_object() {
    let mut interpreter = with_bool();
    let negation = hosted(Box::new(Negation), 1, &mut interpreter);
    let yes = create_bool(&mut interpreter, true).unwrap();
    let args = [yes];
    let cells = interpreter.store.cells.len();
    let direct = Hosted { procedure: Box::new(Negation) };
    let made = native_host(&mut interpreter, &direct, &args).unwrap().unwrap();
    assert_eq!(made.index(), cells);
    assert_eq!(get_bool(made.obj(&interpreter.store).unwrap()).unwrap(), false);
    let answer = negation.call(&mut interpreter, &args).unwrap().unwrap();
    assert_eq!(get_bool(args[0].obj(&interpreter.store).unwrap()).unwrap(), true);
    assert_eq!(get_bool(answer.obj(&interpreter.store).unwrap()).unwrap(), false);
    let again = negation.call(&mut interpreter, &[answer]).unwrap().unwrap();
    assert_eq!(get_bool(again.obj(&interpreter.store).unwrap()).unwrap(), true);
}

#[test]
fn a_host_procedure_is_given_the_values_in_order() {
    let mut interpreter = with_bool();
    let first = hosted(Box::new(FirstValue), 2, &mut interpreter);
    let a = create_string(&mut interpreter, "ab".to_owned()).unwrap();
    let b = create_int(&mut interpreter, 7).unwrap();
    let args = [a, b];
    let answer = first.call(&mut interpreter, &args).unwrap().unwrap();
    assert_ne!(answer.index(), args[0].index());
    assert_eq!(get_text(answer.obj(&interpreter.store).unwrap()).unwrap(), "ab");
    let values = host_values(&interpreter.store, &args).unwrap();
    assert!(matches!(values.as_slice(), [HostValue::Text(_), HostValue::Int(7)]));
}

#[test]
fn a_host_procedure_may_answer_nothing() {
    let mut interpreter = with_bool();
    let first = hosted(Box::new(FirstValue), 0, &mut interpreter);
    assert!(matches!(first.call(&mut interpreter, &[]), Ok(None)));
    let cells = interpreter.store.cells.len();
    let direct = Hosted { procedure: Box::new(FirstValue) };
    assert!(matches!(native_host(&mut interpreter, &direct, &[]), Ok(None)));
    assert_eq!(interpreter.store.cells.len(), cells);
    assert!(interpreter.output().is_empty());
}

#[test]
fn the_unit_value_of_a_host_procedure_is_a_unit_object() {
    let mut interpreter = with_bool();
    let first = hosted(Box::new(FirstValue), 1, &mut interpreter);
    let unit = [interpreter.get_unit_object().unwrap()];
    let answer = first.call(&mut interpreter, &unit).unwrap().unwrap();
    assert_ne!(answer.index(), unit[0].index());
    let object = answer.obj(&interpreter.store).unwrap();
    assert_eq!(object.type_, tricone::consts::unit_type_id());
    assert!(matches!(host_value(&interpreter.store, &answer), Ok(HostValue::Nothing)));
}

#[test]
fn the_error_of_a_host_procedure_is_the_error_of_the_call() {
    let mut interpreter = with_bool();
    let negation = hosted(Box::new(Negation), 1, &mut interpreter);
    let args = [create_int(&mut interpreter, 1).unwrap()];
    let failed = negation.call(&mut interpreter, &args).unwrap_err();
    assert_eq!(failed.kind, ErrorKind::TypeError);
    let cells = interpreter.store.cells.len();
    let direct = Hosted { procedure: Box::new(Negation) };
    let failed = native_host(&mut interpreter, &direct, &args).unwrap_err();
    assert_eq!(failed.kind, ErrorKind::TypeError);
    assert_eq!(interpreter.store.cells.len(), cells);
    let loose = hosted(Box::new(Negation), 2, &mut interpreter);
    let two = [create_bool(&mut interpreter, true).unwrap(), create_bool(&mut interpreter, true).unwrap()];
    let failed = loose.call(&mut interpreter, &two).unwrap_err();
    assert_eq!(failed.kind, ErrorKind::WrongArgumentCount);
}

#[test]
fn a_host_procedure_is_not_run_on_what_has_no_value() {
    let mut interpreter = with_bool();
    let first = hosted(Box::new(FirstValue), 1, &mut interpreter);
    let other = hosted(Box::new(Negation), 0, &mut interpreter);
    let function = function_object_from_function(other, &mut interpreter.store);
    let one = create_int(&mut interpreter, 1).unwrap();
    let two = create_int(&mut interpreter, 2).unwrap();
    let all = [one, function, ObjectToken::dangling(), two];
    let failed = first.call(&mut interpreter, &all[1..2]).unwrap_err();
    assert_eq!(failed.kind, ErrorKind::TypeError);
    let failed = first.call(&mut interpreter, &all[2..3]).unwrap_err();
    assert_eq!(failed.kind, ErrorKind::IndexError);
    assert_eq!(host_values(&interpreter.store, &all[0..2]).unwrap_err().kind, ErrorKind::TypeError);
    assert_eq!(host_values(&interpreter.store, &all[1..3]).unwrap_err().kind, ErrorKind::TypeError);
    assert_eq!(host_values(&interpreter.store, &all[2..4]).unwrap_err().kind, ErrorKind::IndexError);
    let values = host_values(&interpreter.store, &all[0..1]).unwrap();
    assert!(matches!(values.as_slice(), [HostValue::Int(1)]));
    assert!(host_values(&interpreter.store, &all[0..0]).unwrap().is_empty());
}

#[test]
fn a_host_procedure_is_held_to_its_arity() {
    let mut interpreter = with_bool();
    let first = hosted(Box::new(FirstValue), 2, &mut interpreter);
    let one = create_int(&mut interpreter, 1).unwrap();
    let two = create_int(&mut interpreter, 2).unwrap();
    let args = [one, two];
    let failed = first.call(&mut interpreter, &args[0..1]).unwrap_err();
    assert_eq!(failed.kind, ErrorKind::WrongArgumentCount);
    let answer = first.call(&mut interpreter, &args).unwrap().unwrap();
    assert!(matches!(host_value(&interpreter.store, &answer), Ok(HostValue::Int(1))));
}

#[test]
fn a_module_may_define_a_method_of_the_host() {
    let mut interpreter = with_bool();
    let mut methods = NameTable::new();
    methods.insert(
        "not".to_owned(),
        native_method(1, NativeProc::Host(Hosted { procedure: Box::new(Negation) })),
    );
    let mut types = NameTable::new();
    types.insert("Flag".to_owned(), TypeDef { methods });
    let def = ModuleDef { name: "host".to_owned(), types, free_functions: NameTable::new() };
    let module = def.register(&mut interpreter);
    let ty = interpreter.lookup_type(module, "Flag").unwrap();
    let program = vec![Instruction::CreateObject { type_: ty, num_args: 0 }];
    let flag = interpreter.run_program(program).unwrap().unwrap();
    let failed = interpreter.call_method("not", &[flag]).unwrap_err();
    assert_eq!(failed.kind, ErrorKind::TypeError);
}
