use tricone::function::{function_object_from_function, Code, Function, Scope};
use tricone::instruction::Instruction;
use tricone::int_::create_int;
use tricone::interpreter::Interpreter;
use tricone::object::{ModuleIndex, ObjectToken, TypeIndex};
use tricone::scope::Frame;
use tricone::{ErrorKind, TriconeError};

fn in_frame(interpreter: &mut Interpreter) {
    let scope = Scope::new(&mut interpreter.store);
    interpreter.thread.frame_stack.push(Frame::new(scope));
}

fn kind_of(result: Result<Option<ObjectToken>, TriconeError>) -> ErrorKind {
    result.unwrap_err().kind
}

#[test]
fn each_kind_has_its_message() {
    assert_eq!(TriconeError::new(ErrorKind::IndexError).message(), "index out of range");
    assert_eq!(
        TriconeError::new(ErrorKind::WrongArgumentCount).message(),
        "wrong number of arguments"
    );
    assert_eq!(TriconeError::new(ErrorKind::TypeError).message(), "unexpected type");
    assert_eq!(TriconeError::new(ErrorKind::NameError).message(), "unresolved name");
    assert_eq!(TriconeError::new(ErrorKind::BudgetExhausted).message(), "step budget exhausted");
}

#[test]
fn instructions_refuse_a_stack_that_is_too_short() {
    let mut interpreter = Interpreter::new();
    in_frame(&mut interpreter);
    let short = vec![
        Instruction::Assign { name: "x".to_owned() },
        Instruction::GetMember { name: "x".to_owned() },
        Instruction::CallMethod { name: "m".to_owned(), num_args: 0, use_result: false },
        Instruction::CallFunctionObject { num_args: 0, use_result: false },
        Instruction::CreateObject { type_: tricone::consts::unit_type_id(), num_args: 1 },
    ];
    for insn in &short {
        assert_eq!(kind_of(interpreter.run_instruction(insn)), ErrorKind::IndexError);
        assert_eq!(interpreter.stack_depth(), 0);
    }
    let one = create_int(&mut interpreter, 1).unwrap();
    interpreter.push_operand(one);
    let needs_two = vec![
        Instruction::Assign { name: "x".to_owned() },
        Instruction::CallMethod { name: "add".to_owned(), num_args: 1, use_result: false },
        Instruction::CallFunctionObject { num_args: 1, use_result: false },
    ];
    for insn in &needs_two {
        assert_eq!(kind_of(interpreter.run_instruction(insn)), ErrorKind::IndexError);
        assert_eq!(interpreter.stack_depth(), 1);
    }
}

#[test]
fn instructions_refuse_work_without_a_frame() {
    let mut interpreter = Interpreter::new();
    assert_eq!(
        kind_of(interpreter.run_instruction(&Instruction::GetTopScope)),
        ErrorKind::IndexError
    );
    assert_eq!(
        kind_of(interpreter.run_instruction(&Instruction::LookupName { name: "x".to_owned() })),
        ErrorKind::IndexError
    );
    let closure = Scope::new(&mut interpreter.store);
    let function = Function::from_code(Code::create(vec![]), 0, closure);
    assert_eq!(kind_of(function.call_in_frame(&mut interpreter, &[])), ErrorKind::IndexError);
}

#[test]
fn unresolved_names_are_name_errors() {
    let mut interpreter = Interpreter::new();
    in_frame(&mut interpreter);
    assert_eq!(
        kind_of(interpreter.run_instruction(&Instruction::LookupName { name: "x".to_owned() })),
        ErrorKind::NameError
    );
    assert_eq!(
        kind_of(
            interpreter.run_instruction(&Instruction::GetModuleGlobals { name: "nope".to_owned() })
        ),
        ErrorKind::NameError
    );
    let object = create_int(&mut interpreter, 1).unwrap();
    interpreter.push_operand(object);
    assert_eq!(
        kind_of(interpreter.run_instruction(&Instruction::GetMember { name: "m".to_owned() })),
        ErrorKind::NameError
    );
    let object = create_int(&mut interpreter, 1).unwrap();
    interpreter.push_operand(object);
    assert_eq!(
        kind_of(interpreter.run_instruction(&Instruction::CallMethod {
            name: "nomethod".to_owned(),
            num_args: 0,
            use_result: false
        })),
        ErrorKind::NameError
    );
    assert_eq!(interpreter.stack_depth(), 0);
}

#[test]
fn a_call_target_that_is_no_function_is_a_type_error() {
    let mut interpreter = Interpreter::new();
    in_frame(&mut interpreter);
    let object = create_int(&mut interpreter, 1).unwrap();
    let index = object.index();
    interpreter.push_operand(object);
    assert_eq!(
        kind_of(
            interpreter
                .run_instruction(&Instruction::CallFunctionObject { num_args: 0, use_result: true })
        ),
        ErrorKind::TypeError
    );
    // The operand was taken and given up all the same.
    assert_eq!(interpreter.stack_depth(), 0);
    assert!(!interpreter.store.is_live(index));
}

#[test]
fn assign_needs_a_scope_on_top_of_the_value() {
    let mut interpreter = Interpreter::new();
    in_frame(&mut interpreter);
    let value = create_int(&mut interpreter, 1).unwrap();
    let not_a_scope = create_int(&mut interpreter, 2).unwrap();
    interpreter.push_operand(value);
    interpreter.push_operand(not_a_scope);
    assert_eq!(
        kind_of(interpreter.run_instruction(&Instruction::Assign { name: "x".to_owned() })),
        ErrorKind::TypeError
    );
    assert_eq!(interpreter.stack_depth(), 0);
}

#[test]
fn assign_binds_in_the_scope_that_it_pops() {
    let mut interpreter = Interpreter::new();
    in_frame(&mut interpreter);
    let other = Scope::new(&mut interpreter.store);
    let value = create_int(&mut interpreter, 5).unwrap();
    let value_index = value.index();
    interpreter.push_operand(value);
    let handle = other.vars.dup(&mut interpreter.store);
    interpreter.push_operand(handle);
    let result = interpreter.run_instruction(&Instruction::Assign { name: "x".to_owned() });
    assert!(matches!(result, Ok(None)));
    let bound = other.vars.get_member("x", &mut interpreter.store).unwrap();
    assert_eq!(bound.index(), value_index);
    // Not in the scope of the frame.
    assert_eq!(
        kind_of(interpreter.run_instruction(&Instruction::LookupName { name: "x".to_owned() })),
        ErrorKind::NameError
    );
}

#[test]
fn create_object_refuses_an_unknown_type() {
    let mut interpreter = Interpreter::new();
    let cells = interpreter.store.len();
    assert_eq!(
        interpreter.create_object(TypeIndex(ModuleIndex(0), 99), 0).unwrap_err().kind,
        ErrorKind::IndexError
    );
    assert_eq!(
        interpreter.create_object(TypeIndex(ModuleIndex(5), 0), 0).unwrap_err().kind,
        ErrorKind::IndexError
    );
    assert_eq!(interpreter.store.len(), cells);
}

#[test]
fn a_spent_budget_refuses_calls_and_destructions() {
    let mut interpreter = Interpreter::new();
    let closure = Scope::new(&mut interpreter.store);
    let function = Function::from_code(Code::create(vec![]), 0, closure);
    let number = create_int(&mut interpreter, 1).unwrap();
    let index = number.index();
    interpreter.set_budget(0);
    assert_eq!(kind_of(function.call(&mut interpreter, &[])), ErrorKind::BudgetExhausted);
    assert_eq!(interpreter.drop_token(number).unwrap_err().kind, ErrorKind::BudgetExhausted);
    assert!(interpreter.store.is_live(index));
    assert_eq!(interpreter.enter().unwrap_err().kind, ErrorKind::BudgetExhausted);
    interpreter.set_budget(1);
    assert!(interpreter.enter().is_ok());
    assert_eq!(interpreter.budget(), 0);
}

#[test]
fn a_program_without_a_value_yields_the_unit_value() {
    let mut interpreter = Interpreter::new();
    let unit = interpreter.run_code(&[]).unwrap().unwrap();
    assert_eq!(
        unit.obj(&interpreter.store).unwrap().type_,
        tricone::consts::unit_type_id()
    );
    in_frame(&mut interpreter);
    let unit = interpreter.run_code(&[Instruction::Diag]).unwrap().unwrap();
    assert_eq!(
        unit.obj(&interpreter.store).unwrap().type_,
        tricone::consts::unit_type_id()
    );
    assert!(matches!(interpreter.run_instruction(&Instruction::Diag), Ok(None)));
    assert!(interpreter.output().is_empty());
}

#[test]
fn the_diagnostic_instructions_change_nothing() {
    let mut interpreter = Interpreter::new();
    in_frame(&mut interpreter);
    // On an empty stack too.
    assert!(matches!(interpreter.run_instruction(&Instruction::DebugPrintObject), Ok(None)));
    let value = create_int(&mut interpreter, 1).unwrap();
    let index = value.index();
    interpreter.push_operand(value);
    let budget = interpreter.budget();
    let cells = interpreter.store.len();
    for insn in [Instruction::Diag, Instruction::DebugPrintObject] {
        assert!(matches!(interpreter.run_instruction(&insn), Ok(None)));
        assert_eq!(interpreter.stack_depth(), 1);
        assert_eq!(interpreter.store.strong_count(index), 1);
        assert_eq!(interpreter.store.len(), cells);
        assert_eq!(interpreter.budget(), budget);
        assert_eq!(interpreter.thread.frame_stack.len(), 1);
        assert!(interpreter.output().is_empty());
    }
    assert_eq!(interpreter.pop_operand().unwrap().index(), index);
}

#[test]
fn a_program_threads_each_value_to_the_next_instruction() {
    let mut interpreter = Interpreter::new();
    in_frame(&mut interpreter);
    let program = vec![
        Instruction::CreateInt { value: 1 },
        Instruction::CreateInt { value: 2 },
        Instruction::CreateInt { value: 3 },
    ];
    let last = interpreter.run_code(&program).unwrap().unwrap();
    assert!(matches!(last.obj(&interpreter.store).unwrap().data, tricone::Payload::Int(3)));
    assert_eq!(interpreter.stack_depth(), 2);
    let top = interpreter.pop_operand().unwrap();
    assert!(matches!(top.obj(&interpreter.store).unwrap().data, tricone::Payload::Int(2)));
}

#[test]
fn a_function_object_is_told_by_its_type_and_payload() {
    let mut interpreter = Interpreter::new();
    let closure = Scope::new(&mut interpreter.store);
    let function = Function::from_code(Code::create(vec![]), 3, closure);
    let object = function_object_from_function(function, &mut interpreter.store);
    {
        let found = tricone::function::function_from_function_object(
            object.obj(&interpreter.store).unwrap(),
        )
        .unwrap();
        assert_eq!(found.arity, 3);
    }
    let number = create_int(&mut interpreter, 1).unwrap();
    let refused = tricone::function::function_from_function_object(
        number.obj(&interpreter.store).unwrap(),
    );
    assert_eq!(refused.err().unwrap().kind, ErrorKind::TypeError);
    assert_eq!(interpreter.function_of(&number).err().unwrap().kind, ErrorKind::TypeError);
    assert_eq!(
        interpreter.function_of(&ObjectToken::dangling()).err().unwrap().kind,
        ErrorKind::IndexError
    );
}
