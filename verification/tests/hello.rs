use tricone::hello::{do_add_program, do_hello, entry_program, hello_program, register_hello};
use tricone::interpreter::Interpreter;
use tricone::object::ModuleIndex;

#[test]
fn the_demonstration_prints_its_lines_in_order() {
    let mut interpreter = Interpreter::new();
    do_hello(&mut interpreter).unwrap();
    let lines: Vec<&str> = interpreter.output().iter().map(|s| s.as_str()).collect();
    assert_eq!(
        lines,
        vec![
            "hello from CREATE method!!",
            "hello from method!!",
            "hello from DROP method!!",
            "Hello world!",
            "42",
            "42",
        ]
    );
    assert_eq!(interpreter.stack_depth(), 0);
    assert_eq!(interpreter.module_count(), 2);
    assert_eq!(interpreter.lookup_module_index("hello"), Some(ModuleIndex(1)));
}

#[test]
fn the_demonstration_module_has_one_type_and_two_functions() {
    let def = register_hello(ModuleIndex(1));
    assert_eq!(def.name, "hello");
    assert_eq!(def.types.len(), 1);
    assert_eq!(def.free_functions.len(), 2);
    assert!(def.free_functions.contains("hello"));
    assert!(def.free_functions.contains("do_add"));
    assert_eq!(hello_program(ModuleIndex(1)).len(), 12);
    assert_eq!(do_add_program().len(), 6);
    assert_eq!(entry_program().len(), 6);
}

#[test]
fn the_demonstration_leaves_nothing_behind_after_teardown() {
    let mut interpreter = Interpreter::new();
    do_hello(&mut interpreter).unwrap();
    interpreter.teardown().unwrap();
    let live = interpreter.store.cells.iter().filter(|c| c.is_some()).count();
    // The functions of the module close over its globals, and the globals
    // hold the functions: these objects keep each other alive.
    assert_eq!(live, 3);
}
