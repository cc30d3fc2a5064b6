use tricone::function::{Code, Function, NativeProc, Scope};
use tricone::instruction::Instruction;
use tricone::int_::create_int;
use tricone::interpreter::Interpreter;
use tricone::object::{ModuleIndex, Object, ObjectToken, Payload, TypeIndex};
use tricone::scope::{Frame, Thread};
use tricone::ErrorKind;

#[test]
fn frames_and_operands_are_pushed_and_popped_in_order() {
    let mut interpreter = Interpreter::new();
    assert!(interpreter.pop_frame().is_none());
    assert!(interpreter.pop_operand().is_none());
    let a = Scope::new(&mut interpreter.store);
    let b = Scope::new(&mut interpreter.store);
    let (a_index, b_index) = (a.vars.index(), b.vars.index());
    interpreter.push_frame(Frame::new(a));
    interpreter.push_frame(Frame::new(b));
    assert_eq!(interpreter.thread.top_frame().unwrap().top_scope.vars.index(), b_index);
    assert_eq!(interpreter.pop_frame().unwrap().top_scope.vars.index(), b_index);
    assert_eq!(interpreter.pop_frame().unwrap().top_scope.vars.index(), a_index);
    let x = create_int(&mut interpreter, 1).unwrap();
    let y = create_int(&mut interpreter, 2).unwrap();
    let z = create_int(&mut interpreter, 3).unwrap();
    let (x_index, y_index, z_index) = (x.index(), y.index(), z.index());
    interpreter.push_operand(x);
    interpreter.push_operand(y);
    interpreter.push_operand(z);
    let top_two = interpreter.get_args_from_stack(2);
    assert_eq!(top_two.len(), 2);
    assert_eq!(top_two[0].index(), y_index);
    assert_eq!(top_two[1].index(), z_index);
    assert_eq!(interpreter.stack_depth(), 1);
    assert_eq!(interpreter.pop_operand().unwrap().index(), x_index);
    let mut thread = Thread::new();
    assert!(thread.top_frame().is_none());
}

#[test]
fn lines_are_appended_to_the_output() {
    let mut interpreter = Interpreter::new();
    interpreter.emit("one".to_owned());
    interpreter.emit("two".to_owned());
    assert_eq!(interpreter.output(), &vec!["one".to_owned(), "two".to_owned()]);
}

#[test]
fn a_member_is_borrowed_without_a_new_handle() {
    let mut interpreter = Interpreter::new();
    let holder = Scope::new(&mut interpreter.store);
    let value = create_int(&mut interpreter, 4).unwrap();
    let value_index = value.index();
    holder.vars.assign_member("v".to_owned(), value, &mut interpreter).unwrap();
    {
        let borrowed = holder.vars.with_member_ref("v", &interpreter.store).unwrap();
        assert_eq!(borrowed.index(), value_index);
    }
    assert_eq!(interpreter.store.strong_count(value_index), 1);
    assert!(holder.vars.with_member_ref("w", &interpreter.store).is_none());
    assert!(Scope::with_parent(&holder.vars, &interpreter.store).is_none());
    let child = holder.dup(&mut interpreter.store).into_child(&mut interpreter.store);
    let parent = Scope::with_parent(&child.vars, &interpreter.store).unwrap();
    assert_eq!(parent.index(), holder.vars.index());
}

#[test]
fn destruction_runs_the_hook_and_empties_the_cell() {
    let mut interpreter = Interpreter::new();
    let number = create_int(&mut interpreter, 7).unwrap();
    let index = number.index();
    interpreter.destroy(number).unwrap();
    assert!(!interpreter.store.is_live(index));
    assert_eq!(
        interpreter.destroy(ObjectToken::dangling()).unwrap_err().kind,
        ErrorKind::IndexError
    );
}

#[test]
fn initialisation_runs_the_create_hook_on_the_object() {
    let mut interpreter = Interpreter::new();
    let int_type = interpreter.lookup_type(ModuleIndex(0), "Int").unwrap();
    let raw = ObjectToken::new(Object::raw_new(int_type), &mut interpreter.store);
    assert!(matches!(raw.obj(&interpreter.store).unwrap().data, Payload::Empty));
    interpreter.initialise(&raw, int_type, Vec::new()).unwrap();
    assert!(matches!(raw.obj(&interpreter.store).unwrap().data, Payload::Int(0)));
    assert_eq!(interpreter.store.strong_count(raw.index()), 1);
    // The hook of a native type takes the object alone.
    let extra = vec![create_int(&mut interpreter, 1).unwrap()];
    let extra_index = extra[0].index();
    assert_eq!(
        interpreter.initialise(&raw, int_type, extra).unwrap_err().kind,
        ErrorKind::WrongArgumentCount
    );
    assert!(!interpreter.store.is_live(extra_index));
    // A type without the hook only has its operands given up.
    let plain =
        ObjectToken::new(Object::raw_new(TypeIndex(ModuleIndex(0), 1)), &mut interpreter.store);
    let extra = vec![create_int(&mut interpreter, 2).unwrap()];
    let extra_index = extra[0].index();
    interpreter.initialise(&plain, TypeIndex(ModuleIndex(0), 1), extra).unwrap();
    assert!(!interpreter.store.is_live(extra_index));
}

#[test]
fn create_object_takes_its_operands_from_the_stack() {
    let mut interpreter = Interpreter::new();
    let operand = create_int(&mut interpreter, 1).unwrap();
    let operand_index = operand.index();
    interpreter.push_operand(operand);
    // The unit type has no hook: the operand is taken and given up.
    let unit = interpreter.create_object(tricone::consts::unit_type_id(), 1).unwrap();
    assert_eq!(interpreter.stack_depth(), 0);
    assert!(!interpreter.store.is_live(operand_index));
    assert!(interpreter.store.is_live(unit.index()));
    // A hook that refuses its operands takes the new object with it.
    let operand = create_int(&mut interpreter, 2).unwrap();
    interpreter.push_operand(operand);
    let int_type = interpreter.lookup_type(ModuleIndex(0), "Int").unwrap();
    let cells = interpreter.store.len();
    assert_eq!(
        interpreter.create_object(int_type, 1).unwrap_err().kind,
        ErrorKind::WrongArgumentCount
    );
    assert!(!interpreter.store.is_live(cells));
    assert_eq!(interpreter.stack_depth(), 0);
}

#[test]
fn a_scope_object_is_made_like_any_object() {
    let mut interpreter = Interpreter::new();
    let scope = interpreter.create_scope().unwrap();
    assert_eq!(
        scope.vars.obj(&interpreter.store).unwrap().type_,
        tricone::consts::scope_type_id()
    );
    assert!(interpreter.store.is_scope_at(scope.vars.index()));
    let number = create_int(&mut interpreter, 1).unwrap();
    assert!(!interpreter.store.is_scope_at(number.index()));
}

#[test]
fn a_call_in_frame_shares_the_scope_of_the_frame() {
    let mut interpreter = Interpreter::new();
    let outer = Scope::new(&mut interpreter.store);
    let value = create_int(&mut interpreter, 11).unwrap();
    outer.vars.assign_member("seen".to_owned(), value, &mut interpreter).unwrap();
    interpreter.push_frame(Frame::new(outer));
    // The closure of the function does not bind the name; the frame does.
    let closure = Scope::new(&mut interpreter.store);
    let function = Function::from_code(
        Code::create(vec![Instruction::LookupName { name: "seen".to_owned() }]),
        0,
        closure,
    );
    let found = function.call_in_frame(&mut interpreter, &[]).unwrap().unwrap();
    assert!(matches!(found.obj(&interpreter.store).unwrap().data, Payload::Int(11)));
    // In a frame of its own the function sees its closure alone.
    assert_eq!(
        function.call(&mut interpreter, &[]).unwrap_err().kind,
        ErrorKind::NameError
    );
    let closure = Scope::new(&mut interpreter.store);
    let emitter = Function::new(NativeProc::Emit("x".to_owned()), 0, closure);
    assert!(matches!(emitter.invoke(&mut interpreter, &[]), Ok(None)));
}

#[test]
fn a_program_runs_in_a_frame_of_its_own_and_leaves_nothing_behind() {
    let mut interpreter = Interpreter::new();
    let cells = interpreter.store.len();
    let value = interpreter
        .run_program(vec![
            Instruction::CreateInt { value: 20 },
            Instruction::CreateInt { value: 22 },
            Instruction::CallMethod { name: "add".to_owned(), num_args: 1, use_result: true },
        ])
        .unwrap()
        .unwrap();
    assert!(matches!(value.obj(&interpreter.store).unwrap().data, Payload::Int(42)));
    assert_eq!(interpreter.stack_depth(), 0);
    assert_eq!(interpreter.thread.frame_stack.len(), 0);
    assert_eq!(interpreter.depth, 0);
    interpreter.drop_token(value).unwrap();
    let live = interpreter.store.cells.iter().filter(|c| c.is_some()).count();
    assert_eq!(live, cells);
    let unit = interpreter.run_program(Vec::new()).unwrap().unwrap();
    assert_eq!(
        unit.obj(&interpreter.store).unwrap().type_,
        tricone::consts::unit_type_id()
    );
    interpreter.drop_token(unit).unwrap();
    assert_eq!(
        interpreter
            .run_program(vec![Instruction::LookupName { name: "nowhere".to_owned() }])
            .unwrap_err()
            .kind,
        ErrorKind::NameError
    );
}
