use tricone::function::{Code, Function, NativeKind, NativeProc, Scope};
use tricone::generic::native_method;
use tricone::instruction::Instruction;
use tricone::int_::create_int;
use tricone::interpreter::Interpreter;
use tricone::moduledef::{ModuleDef, TypeDef};
use tricone::object::{ModuleIndex, Object, ObjectToken, Payload, TypeIndex};
use tricone::types::Module;
use tricone::table::NameTable;
use tricone::ErrorKind;

fn counted_module(interpreter: &mut Interpreter) -> TypeIndex {
    let mut methods = NameTable::new();
    methods.insert("create".to_owned(), native_method(1, NativeProc::Emit("made".to_owned())));
    methods.insert("drop".to_owned(), native_method(1, NativeProc::Emit("gone".to_owned())));
    let mut types = NameTable::new();
    types.insert("Counted".to_owned(), TypeDef { methods });
    let def = ModuleDef { name: "counting".to_owned(), types, free_functions: NameTable::new() };
    let module = def.register(interpreter);
    TypeIndex(module, 0)
}

fn count(interpreter: &Interpreter, line: &str) -> usize {
    interpreter.output().iter().filter(|l| l.as_str() == line).count()
}

#[test]
fn every_object_is_dropped_exactly_once() {
    let mut interpreter = Interpreter::new();
    let counted = counted_module(&mut interpreter);
    let mut handles = Vec::new();
    for _ in 0..5 {
        let object = interpreter.create_object(counted, 0).unwrap();
        // A second and a third handle to each object.
        handles.push(object.dup(&mut interpreter.store));
        handles.push(object.dup(&mut interpreter.store));
        handles.push(object);
    }
    assert_eq!(count(&interpreter, "made"), 5);
    assert_eq!(count(&interpreter, "gone"), 0);
    interpreter.release_all(handles).unwrap();
    assert_eq!(count(&interpreter, "made"), 5);
    assert_eq!(count(&interpreter, "gone"), 5);
}

#[test]
fn members_go_with_the_object_that_holds_them() {
    let mut interpreter = Interpreter::new();
    let counted = counted_module(&mut interpreter);
    let outer = interpreter.create_object(counted, 0).unwrap();
    let inner = interpreter.create_object(counted, 0).unwrap();
    let inner_index = inner.index();
    let deeper = interpreter.create_object(counted, 0).unwrap();
    let deeper_index = deeper.index();
    inner.assign_member("deeper".to_owned(), deeper, &mut interpreter).unwrap();
    outer.assign_member("inner".to_owned(), inner, &mut interpreter).unwrap();
    assert_eq!(count(&interpreter, "gone"), 0);
    let outer_index = outer.index();
    interpreter.drop_token(outer).unwrap();
    assert_eq!(count(&interpreter, "gone"), 3);
    assert!(!interpreter.store.is_live(outer_index));
    assert!(!interpreter.store.is_live(inner_index));
    assert!(!interpreter.store.is_live(deeper_index));
}

#[test]
fn a_shared_member_outlives_one_of_its_holders() {
    let mut interpreter = Interpreter::new();
    let counted = counted_module(&mut interpreter);
    let shared = interpreter.create_object(counted, 0).unwrap();
    let a = interpreter.create_object(counted, 0).unwrap();
    let b = interpreter.create_object(counted, 0).unwrap();
    let for_a = shared.dup(&mut interpreter.store);
    a.assign_member("s".to_owned(), for_a, &mut interpreter).unwrap();
    b.assign_member("s".to_owned(), shared, &mut interpreter).unwrap();
    let shared_index = a.get_member("s", &mut interpreter.store).unwrap();
    assert_eq!(interpreter.store.strong_count(shared_index.index()), 3);
    interpreter.drop_token(a).unwrap();
    assert_eq!(count(&interpreter, "gone"), 1);
    assert_eq!(interpreter.store.strong_count(shared_index.index()), 2);
    interpreter.drop_token(b).unwrap();
    assert_eq!(count(&interpreter, "gone"), 2);
    assert_eq!(interpreter.store.strong_count(shared_index.index()), 1);
    interpreter.drop_token(shared_index).unwrap();
    assert_eq!(count(&interpreter, "gone"), 3);
}

#[test]
fn the_unit_type_is_exempt_from_drop_dispatch() {
    let mut interpreter = Interpreter::new();
    let unit = interpreter.get_unit_object().unwrap();
    let index = unit.index();
    let budget = interpreter.budget();
    interpreter.drop_token(unit).unwrap();
    assert!(!interpreter.store.is_live(index));
    // One step for the destruction, none for a call of a hook.
    assert_eq!(interpreter.budget(), budget - 1);
}

#[test]
fn a_handle_to_a_destroyed_object_is_refused() {
    let mut interpreter = Interpreter::new();
    let number = create_int(&mut interpreter, 1).unwrap();
    let index = number.index();
    interpreter.drop_token(number).unwrap();
    let stale = ObjectToken::new(
        Object::raw_new(tricone::consts::unit_type_id()),
        &mut interpreter.store,
    );
    // `stale` is a live handle of its own; the destroyed cell stays empty.
    assert!(!interpreter.store.is_live(index));
    assert_ne!(stale.index(), index);
    interpreter.drop_token(stale).unwrap();
    assert_eq!(
        interpreter.drop_token(ObjectToken::dangling()).unwrap_err().kind,
        ErrorKind::IndexError
    );
}

#[test]
fn count_goes_up_with_dup_and_down_with_release() {
    let mut interpreter = Interpreter::new();
    let number = create_int(&mut interpreter, 9).unwrap();
    assert_eq!(interpreter.store.strong_count(number.index()), 1);
    let second = number.dup(&mut interpreter.store);
    assert_eq!(second, number);
    assert_eq!(interpreter.store.strong_count(number.index()), 2);
    interpreter.drop_token(second).unwrap();
    assert_eq!(interpreter.store.strong_count(number.index()), 1);
    assert!(interpreter.store.is_live(number.index()));
    let index = number.index();
    interpreter.drop_token(number).unwrap();
    assert_eq!(interpreter.store.strong_count(index), 0);
}

#[test]
fn the_drop_hook_receives_the_object_itself() {
    // The hook of a native type destroys the payload of its receiver. It
    // can do so only if the receiver is handed to it.
    let mut interpreter = Interpreter::new();
    let number = create_int(&mut interpreter, 5).unwrap();
    let extra = number.dup(&mut interpreter.store);
    interpreter
        .maybe_call_no_args_no_ret_method(&number, "drop")
        .unwrap();
    assert!(matches!(extra.obj(&interpreter.store).unwrap().data, Payload::Empty));
    assert_eq!(interpreter.store.strong_count(number.index()), 2);
    // A second run of the hook finds no payload of its kind.
    assert_eq!(
        interpreter.maybe_call_no_args_no_ret_method(&number, "drop").unwrap_err().kind,
        ErrorKind::TypeError
    );
    // A method that the type does not have is not called.
    assert!(interpreter.maybe_call_no_args_no_ret_method(&number, "absent").is_ok());
}

#[test]
fn a_function_object_gives_up_its_closure() {
    let mut interpreter = Interpreter::new();
    let closure = Scope::new(&mut interpreter.store);
    let closure_index = closure.vars.index();
    let function = Function::new(NativeProc::Emit("x".to_owned()), 0, closure);
    let object = tricone::function::function_object_from_function(function, &mut interpreter.store);
    assert!(interpreter.store.is_live(closure_index));
    interpreter.drop_token(object).unwrap();
    assert!(!interpreter.store.is_live(closure_index));
}

#[test]
fn create_runs_the_create_hook_with_the_starting_value() {
    let mut interpreter = Interpreter::new();
    let int_type = interpreter.lookup_type(tricone::consts::core_module_id(), "Int").unwrap();
    let object = interpreter.create_object(int_type, 0).unwrap();
    assert!(matches!(object.obj(&interpreter.store).unwrap().data, Payload::Int(0)));
    let string_type = interpreter.lookup_type(tricone::consts::core_module_id(), "String").unwrap();
    let text = interpreter.create_object(string_type, 0).unwrap();
    match &text.obj(&interpreter.store).unwrap().data {
        Payload::Text(s) => assert!(s.is_empty()),
        _ => panic!("a string payload is expected"),
    }
    let mut logic = Module::new(ModuleIndex(1), "logic", &mut interpreter.store);
    let bool_type = tricone::bool_::register_bool_type(&mut interpreter, &mut logic);
    interpreter.modules.push(logic);
    let flag = interpreter.create_object(bool_type, 0).unwrap();
    assert!(matches!(flag.obj(&interpreter.store).unwrap().data, Payload::Bool(false)));
    assert_eq!(Payload::default_of(NativeKind::Int).kind(), Some(NativeKind::Int));
    interpreter.release_all(vec![object, text, flag]).unwrap();
}

#[test]
fn teardown_gives_up_what_the_registry_holds() {
    let mut interpreter = Interpreter::new();
    counted_module(&mut interpreter);
    let closure = Scope::new(&mut interpreter.store);
    let function = Function::from_code(
        Code::create(vec![Instruction::CreateInt { value: 1 }]),
        0,
        closure,
    );
    let value = function.call(&mut interpreter, &[]).unwrap().unwrap();
    interpreter.drop_token(value).unwrap();
    interpreter.drop_token(function.closure.vars).unwrap();
    interpreter.teardown().unwrap();
    assert_eq!(interpreter.module_count(), 0);
    let live = interpreter.store.cells.iter().filter(|c| c.is_some()).count();
    assert_eq!(live, 0);
}

#[test]
fn a_handle_that_is_not_released_keeps_its_share() {
    // A handle is a plain value: letting it go unreleased runs no hook and
    // frees nothing, so the object stays with its count.
    let mut interpreter = Interpreter::new();
    let counted = counted_module(&mut interpreter);
    let object = interpreter.create_object(counted, 0).unwrap();
    let index = object.index();
    {
        let second = object.dup(&mut interpreter.store);
        assert_eq!(second.index(), index);
    }
    assert_eq!(interpreter.store.strong_count(index), 2);
    interpreter.drop_token(object).unwrap();
    assert!(interpreter.store.is_live(index));
    assert_eq!(count(&interpreter, "gone"), 0);
}

#[test]
fn teardown_runs_the_hooks_of_what_the_globals_hold() {
    let mut interpreter = Interpreter::new();
    let counted = counted_module(&mut interpreter);
    let object = interpreter.create_object(counted, 0).unwrap();
    let number = create_int(&mut interpreter, 3).unwrap();
    let globals = interpreter.globals_of(counted.0).unwrap();
    globals.vars.assign_member("kept".to_owned(), object, &mut interpreter).unwrap();
    globals.vars.assign_member("number".to_owned(), number, &mut interpreter).unwrap();
    interpreter.drop_token(globals.vars).unwrap();
    assert_eq!(count(&interpreter, "gone"), 0);
    // The globals go first, while the scopes of the types still live, so
    // the hooks of the two objects run without an error.
    interpreter.teardown().unwrap();
    assert_eq!(count(&interpreter, "gone"), 1);
    assert_eq!(interpreter.module_count(), 0);
    let live = interpreter.store.cells.iter().filter(|c| c.is_some()).count();
    assert_eq!(live, 0);
}

#[test]
fn teardown_gives_up_each_handle_of_the_registry_once() {
    let mut interpreter = Interpreter::new();
    // An outside handle to the scope of a type keeps that scope alive with
    // exactly the one count that is left.
    let kept = interpreter.get_type(TypeIndex(tricone::ModuleIndex(0), 3)).scope.vars.index();
    let before = interpreter.store.strong_count(kept);
    // The type `Int` holds its scope once and once for each of its four
    // methods.
    assert_eq!(before, 5);
    interpreter.store.retain(kept);
    interpreter.teardown().unwrap();
    assert_eq!(interpreter.store.strong_count(kept), 1);
}

fn alive(interpreter: &Interpreter) -> usize {
    interpreter.store.cells.iter().filter(|cell| cell.is_some()).count()
}

#[test]
fn as_many_drops_run_as_objects_go() {
    let mut interpreter = Interpreter::new();
    let counted = counted_module(&mut interpreter);
    let root = interpreter.create_object(counted, 0).unwrap();
    let left = interpreter.create_object(counted, 0).unwrap();
    let right = interpreter.create_object(counted, 0).unwrap();
    let shared = interpreter.create_object(counted, 0).unwrap();
    let kept = interpreter.create_object(counted, 0).unwrap();
    let kept_too = kept.dup(&mut interpreter.store);
    let shared_too = shared.dup(&mut interpreter.store);
    left.assign_member("shared".to_owned(), shared, &mut interpreter).unwrap();
    right.assign_member("shared".to_owned(), shared_too, &mut interpreter).unwrap();
    right.assign_member("kept".to_owned(), kept_too, &mut interpreter).unwrap();
    root.assign_member("left".to_owned(), left, &mut interpreter).unwrap();
    root.assign_member("right".to_owned(), right, &mut interpreter).unwrap();

    let before = alive(&interpreter);
    let lines = interpreter.output().len();
    interpreter.drop_token(root).unwrap();
    assert_eq!(count(&interpreter, "gone"), 4);
    assert_eq!(interpreter.output().len() - lines, 4);
    assert_eq!(before - alive(&interpreter), 4);
    assert!(interpreter.store.is_live(kept.index()));

    let before = alive(&interpreter);
    interpreter.drop_token(kept).unwrap();
    assert_eq!(count(&interpreter, "gone"), 5);
    assert_eq!(before - alive(&interpreter), 1);
    assert_eq!(count(&interpreter, "made"), 5);
}
