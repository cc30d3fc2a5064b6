use tricone::function::{function_object_from_function, Code, Function, NativeProc, Scope};
use tricone::instruction::Instruction;
use tricone::int_::create_int;
use tricone::interpreter::{Interpreter, DEFAULT_BUDGET, MAX_DEPTH};
use tricone::object::ObjectToken;
use tricone::ErrorKind;

fn self_calling(interpreter: &mut Interpreter) -> Function {
    let globals = Scope::new(&mut interpreter.store);
    let closure = globals.dup(&mut interpreter.store);
    let function = Function::from_code(
        Code::create(vec![
            Instruction::LookupName { name: "again".to_owned() },
            Instruction::CallFunctionObject { num_args: 0, use_result: false },
        ]),
        0,
        closure,
    );
    let object = function_object_from_function(function, &mut interpreter.store);
    let handle = object.dup(&mut interpreter.store);
    globals.vars.assign_member("again".to_owned(), object, interpreter).unwrap();
    interpreter.function_of(&handle).unwrap()
}

#[test]
fn a_function_that_calls_itself_without_end_is_stopped_by_the_depth() {
    let mut interpreter = Interpreter::new();
    let function = self_calling(&mut interpreter);
    assert_eq!(interpreter.budget(), DEFAULT_BUDGET);
    let result = function.call(&mut interpreter, &[]);
    assert_eq!(result.unwrap_err().kind, ErrorKind::DepthExceeded);
    assert_eq!(interpreter.stack_depth(), 0);
    assert_eq!(interpreter.depth, 0);
    assert_eq!(interpreter.thread.frame_stack.len(), 0);
    // No more than the calls that were under way and what they gave up.
    assert!(interpreter.budget() > DEFAULT_BUDGET - 4 * MAX_DEPTH);
}

#[test]
fn a_function_that_calls_itself_without_end_is_stopped_by_the_budget() {
    let mut interpreter = Interpreter::new();
    let function = self_calling(&mut interpreter);
    interpreter.set_budget(100);
    let result = function.call(&mut interpreter, &[]);
    assert_eq!(result.unwrap_err().kind, ErrorKind::BudgetExhausted);
    assert_eq!(interpreter.depth, 0);
}

#[test]
fn the_depth_counts_what_is_under_way() {
    let mut interpreter = Interpreter::new();
    assert_eq!(interpreter.depth, 0);
    interpreter.enter().unwrap();
    interpreter.enter().unwrap();
    assert_eq!(interpreter.depth, 2);
    assert_eq!(interpreter.budget(), DEFAULT_BUDGET - 2);
    interpreter.leave();
    assert_eq!(interpreter.depth, 1);
    interpreter.leave();
    interpreter.leave();
    assert_eq!(interpreter.depth, 0);
    interpreter.depth = MAX_DEPTH;
    assert_eq!(interpreter.enter().unwrap_err().kind, ErrorKind::DepthExceeded);
    assert_eq!(interpreter.budget(), DEFAULT_BUDGET - 2);
    let closure = Scope::new(&mut interpreter.store);
    let function = Function::new(NativeProc::Emit("ran".to_owned()), 0, closure);
    assert_eq!(
        function.call(&mut interpreter, &[]).unwrap_err().kind,
        ErrorKind::DepthExceeded
    );
    assert!(interpreter.output().is_empty());
    // A call needs one level for itself and one for the destruction of the
    // scopes of its frame.
    interpreter.depth = MAX_DEPTH - 2;
    assert!(function.call(&mut interpreter, &[]).is_ok());
    assert_eq!(interpreter.depth, MAX_DEPTH - 2);
    assert_eq!(interpreter.output(), &vec!["ran".to_owned()]);
}

#[test]
fn a_chain_of_members_deeper_than_the_limit_is_not_followed_to_its_end() {
    let mut interpreter = Interpreter::new();
    let mut head: ObjectToken = create_int(&mut interpreter, 0).unwrap();
    for i in 1..(2 * MAX_DEPTH) {
        let next = create_int(&mut interpreter, i as i64).unwrap();
        next.assign_member("rest".to_owned(), head, &mut interpreter).unwrap();
        head = next;
    }
    let result = interpreter.drop_token(head);
    assert_eq!(result.unwrap_err().kind, ErrorKind::DepthExceeded);
    assert_eq!(interpreter.depth, 0);
    // A chain within the limit goes as a whole.
    let mut head: ObjectToken = create_int(&mut interpreter, 0).unwrap();
    let first = head.index();
    for i in 1..(MAX_DEPTH / 2) {
        let next = create_int(&mut interpreter, i as i64).unwrap();
        next.assign_member("rest".to_owned(), head, &mut interpreter).unwrap();
        head = next;
    }
    interpreter.drop_token(head).unwrap();
    assert!(!interpreter.store.is_live(first));
}
