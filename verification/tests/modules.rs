use tricone::function::{Body, NativeProc};
use tricone::generic::native_method;
use tricone::instruction::Instruction;
use tricone::interpreter::Interpreter;
use tricone::moduledef::{BytecodeFunctionDef, FunctionDef, ModuleDef, TypeDef};
use tricone::object::{ModuleIndex, Payload, TypeIndex};
use tricone::table::NameTable;
use tricone::types::{Module, Type};
use tricone::{Function, Scope};

fn sample(name: &str) -> ModuleDef {
    let mut methods = NameTable::new();
    methods.insert("greet".to_owned(), native_method(1, NativeProc::Emit("hi".to_owned())));
    methods.insert("drop".to_owned(), native_method(1, NativeProc::Emit("bye".to_owned())));
    let mut types = NameTable::new();
    types.insert("Greeter".to_owned(), TypeDef { methods });
    types.insert("Plain".to_owned(), TypeDef::new());
    let mut free_functions = NameTable::new();
    free_functions.insert(
        "answer".to_owned(),
        FunctionDef::Bytecode(BytecodeFunctionDef {
            arity: 0,
            instructions: vec![Instruction::CreateInt { value: 42 }],
        }),
    );
    ModuleDef { name: name.to_owned(), types, free_functions }
}

#[test]
fn a_new_interpreter_holds_the_core_module() {
    let interpreter = Interpreter::new();
    assert_eq!(interpreter.module_count(), 1);
    let core = interpreter.get_module(tricone::consts::core_module_id());
    assert_eq!(core.name, "core");
    let names: Vec<&str> = core.types.iter().map(|t| t.name.as_str()).collect();
    assert_eq!(names, vec!["Scope", "Unit", "Function", "Int", "String"]);
    assert_eq!(interpreter.store.cells.len(), 6);
    assert_eq!(interpreter.find_type("Bool"), None);
    assert_eq!(interpreter.find_type("Int"), Some(TypeIndex(ModuleIndex(0), 3)));
    for (i, ty) in core.types.iter().enumerate() {
        assert_eq!(ty.index, TypeIndex(ModuleIndex(0), i));
    }
    assert_eq!(
        interpreter.lookup_type(ModuleIndex(0), "Scope"),
        Some(tricone::consts::scope_type_id())
    );
    assert_eq!(
        interpreter.lookup_type(ModuleIndex(0), "Unit"),
        Some(tricone::consts::unit_type_id())
    );
    assert_eq!(
        interpreter.lookup_type(ModuleIndex(0), "Function"),
        Some(tricone::consts::function_type_id())
    );
    assert_eq!(interpreter.lookup_type(ModuleIndex(0), "Nothing"), None);
    assert_eq!(interpreter.lookup_type(ModuleIndex(7), "Int"), None);
    let int = interpreter.get_type(TypeIndex(ModuleIndex(0), 3));
    assert!(int.methods.contains("add"));
    assert!(int.methods.contains("tostring"));
    assert!(int.methods.contains("create"));
    assert!(int.methods.contains("drop"));
    assert_eq!(int.methods.get("add").unwrap().arity, 2);
    assert!(!core.types[0].methods.contains("create"));
    assert_eq!(interpreter.budget(), tricone::interpreter::DEFAULT_BUDGET);
}

#[test]
fn registering_one_definition_twice_gives_two_independent_modules() {
    let mut interpreter = Interpreter::new();
    let first = sample("one").register(&mut interpreter);
    let second = sample("two").register(&mut interpreter);
    assert_eq!(first, ModuleIndex(1));
    assert_eq!(second, ModuleIndex(2));
    assert_eq!(interpreter.lookup_module_index("one"), Some(first));
    assert_eq!(interpreter.lookup_module_index("two"), Some(second));
    let a = interpreter.get_module(first);
    let b = interpreter.get_module(second);
    assert_eq!(a.types.len(), 2);
    assert_eq!(b.types.len(), 2);
    for j in 0..2 {
        assert_eq!(a.types[j].name, b.types[j].name);
        assert_eq!(a.types[j].index, TypeIndex(first, j));
        assert_eq!(b.types[j].index, TypeIndex(second, j));
        assert_ne!(a.types[j].scope.vars, b.types[j].scope.vars);
        assert_eq!(a.types[j].methods.len(), b.types[j].methods.len());
    }
    assert_ne!(a.globals.vars, b.globals.vars);
    assert_eq!(interpreter.lookup_type(first, "Greeter"), Some(TypeIndex(first, 0)));
    assert_eq!(interpreter.lookup_type(second, "Plain"), Some(TypeIndex(second, 1)));

    // A change to the method table of the second leaves the first alone.
    let store = &mut interpreter.store;
    let ty = &mut interpreter.modules[2].types[0];
    ty.register_native_method("extra", 1, NativeProc::Emit("x".to_owned()), store);
    assert!(interpreter.get_type(TypeIndex(second, 0)).methods.contains("extra"));
    assert!(!interpreter.get_type(TypeIndex(first, 0)).methods.contains("extra"));

    // Objects of the two types are dispatched through their own tables.
    let of_first = interpreter.create_object(TypeIndex(first, 0), 0).unwrap();
    let of_second = interpreter.create_object(TypeIndex(second, 0), 0).unwrap();
    let args = vec![of_second];
    assert!(interpreter.call_method("extra", &args).is_ok());
    let args_first = vec![of_first];
    assert_eq!(
        interpreter.call_method("extra", &args_first).unwrap_err().kind,
        tricone::ErrorKind::NameError
    );
}

#[test]
fn free_functions_are_function_objects_in_the_globals() {
    let mut interpreter = Interpreter::new();
    let index = sample("mod").register(&mut interpreter);
    let globals = interpreter.globals_of(index).unwrap().vars;
    let answer = globals.get_member("answer", &mut interpreter.store).unwrap();
    {
        let object = answer.obj(&interpreter.store).unwrap();
        assert_eq!(object.type_, tricone::consts::function_type_id());
        match &object.data {
            Payload::Function(function) => {
                assert_eq!(function.arity, 0);
                assert_eq!(function.closure.vars, globals);
                assert!(matches!(&*function.code.body, Body::Bytecode(code) if code.len() == 1));
            }
            _ => panic!("a function payload is expected"),
        }
    }
    assert!(globals.get_member("absent", &mut interpreter.store).is_none());
    let function = interpreter.function_of(&answer).unwrap();
    let value = function.call(&mut interpreter, &[]).unwrap().unwrap();
    assert!(matches!(value.obj(&interpreter.store).unwrap().data, Payload::Int(42)));
}

#[test]
fn the_first_of_two_entries_with_one_name_wins() {
    let mut interpreter = Interpreter::new();
    let mut free_functions = NameTable::new();
    free_functions.entries.push(tricone::Entry {
        name: "f".to_owned(),
        value: native_method(0, NativeProc::Emit("first".to_owned())),
    });
    free_functions.entries.push(tricone::Entry {
        name: "f".to_owned(),
        value: native_method(0, NativeProc::Emit("second".to_owned())),
    });
    let mut methods = NameTable::new();
    methods.entries.push(tricone::Entry {
        name: "m".to_owned(),
        value: native_method(1, NativeProc::Emit("first".to_owned())),
    });
    methods.entries.push(tricone::Entry {
        name: "m".to_owned(),
        value: native_method(1, NativeProc::Emit("second".to_owned())),
    });
    let mut types = NameTable::new();
    types.insert("T".to_owned(), TypeDef { methods });
    let def = ModuleDef { name: "dup".to_owned(), types, free_functions };
    let index = def.register(&mut interpreter);
    let globals = interpreter.globals_of(index).unwrap().vars;
    let f = globals.get_member("f", &mut interpreter.store).unwrap();
    let function = interpreter.function_of(&f).unwrap();
    function.call(&mut interpreter, &[]).unwrap();
    let object = interpreter.create_object(TypeIndex(index, 0), 0).unwrap();
    interpreter.call_method("m", &[object]).unwrap();
    let lines: Vec<&str> = interpreter.output().iter().map(|s| s.as_str()).collect();
    assert_eq!(lines, vec!["first", "first"]);
}

#[test]
fn types_are_appended_under_consecutive_identities() {
    let mut interpreter = Interpreter::new();
    let index = interpreter.create_module("m");
    assert_eq!(index, ModuleIndex(1));
    let store = &mut interpreter.store;
    let module: &mut Module = &mut interpreter.modules[1];
    let a = module.create_type(store, "A", TypeDef::new());
    let b = module.create_type(store, "B", TypeDef::new());
    assert_eq!(a, TypeIndex(index, 0));
    assert_eq!(b, TypeIndex(index, 1));
    assert_eq!(module.lookup_type_index("B"), Some(1));
    assert_eq!(module.lookup_type_index("C"), None);
    assert!(module.lookup_type_mut("A").is_some());
    let ty = Type::new("C", TypeIndex(index, 2), &mut interpreter.store);
    assert_eq!(interpreter.register_type(index, ty), TypeIndex(index, 2));
    assert_eq!(interpreter.get_type(TypeIndex(index, 2)).name, "C");
    assert!(interpreter.is_type(TypeIndex(index, 2)));
    assert!(!interpreter.is_type(TypeIndex(index, 3)));
}

#[test]
fn a_method_replaces_the_one_of_the_same_name() {
    let mut interpreter = Interpreter::new();
    let mut ty = Type::new("T", TypeIndex(ModuleIndex(9), 0), &mut interpreter.store);
    let first =
        ty.register_native_method("m", 1, NativeProc::Emit("a".to_owned()), &mut interpreter.store);
    assert!(first.is_none());
    let displaced = ty
        .register_bytecode_method("m", 2, vec![Instruction::Diag], &mut interpreter.store)
        .unwrap();
    assert_eq!(displaced.arity, 1);
    assert_eq!(ty.methods.len(), 1);
    let method: Function = ty.get_method("m", &mut interpreter.store).unwrap();
    assert_eq!(method.arity, 2);
    assert_eq!(method.closure.vars, ty.scope().vars);
    assert!(ty.get_method("n", &mut interpreter.store).is_none());
    // The type, the displaced method, its replacement and the duplicate:
    // four handles to the scope of the type.
    assert_eq!(interpreter.store.strong_count(ty.scope.vars.index()), 4);
    let scope: &Scope = ty.scope();
    assert!(interpreter.store.is_live(scope.vars.index()));
}

#[test]
fn a_host_registers_the_boolean_type_where_it_likes() {
    let mut interpreter = Interpreter::new();
    assert_eq!(
        tricone::bool_::create_bool(&mut interpreter, true).unwrap_err().kind,
        tricone::ErrorKind::NameError
    );
    let plain = interpreter.create_module("plain");
    assert_eq!(plain, ModuleIndex(1));
    let index = ModuleIndex(interpreter.module_count());
    let mut module = Module::new(index, "logic", &mut interpreter.store);
    module.create_type(&mut interpreter.store, "Other", TypeDef::new());
    let bool_type = tricone::bool_::register_bool_type(&mut interpreter, &mut module);
    interpreter.modules.push(module);
    assert_eq!(bool_type, TypeIndex(ModuleIndex(2), 1));
    assert_eq!(interpreter.find_type("Bool"), Some(bool_type));
    assert_eq!(interpreter.lookup_type(ModuleIndex(0), "Bool"), None);
    assert_eq!(interpreter.find_type("Other"), Some(TypeIndex(ModuleIndex(2), 0)));
    assert_eq!(interpreter.find_type("Nothing"), None);

    let yes = tricone::bool_::create_bool(&mut interpreter, true).unwrap();
    let object = yes.obj(&interpreter.store).unwrap();
    assert_eq!(object.type_, bool_type);
    assert_eq!(tricone::bool_::from_object(&interpreter, object).unwrap(), true);
    let number = tricone::int_::create_int(&mut interpreter, 1).unwrap();
    let object = number.obj(&interpreter.store).unwrap();
    assert_eq!(
        tricone::bool_::from_object(&interpreter, object).unwrap_err().kind,
        tricone::ErrorKind::TypeError
    );
}

fn count_of(interpreter: &Interpreter, index: usize) -> usize {
    interpreter.store.cells[index].as_ref().unwrap().refs
}

#[test]
fn a_scope_of_the_registry_counts_its_holders() {
    let mut interpreter = Interpreter::new();
    let counts: Vec<usize> = (0..6).map(|i| count_of(&interpreter, i)).collect();
    assert_eq!(counts, vec![1, 1, 1, 3, 5, 4]);
    for ty in interpreter.get_module(ModuleIndex(0)).types.iter() {
        assert_eq!(count_of(&interpreter, ty.scope.vars.index()), 1 + ty.methods.len());
    }

    let base = interpreter.store.cells.len();
    let index = sample("counted").register(&mut interpreter);
    let module = interpreter.get_module(index);
    assert_eq!(module.globals.vars.index(), base);
    assert_eq!(count_of(&interpreter, base), 2);
    let greeter = &module.types[0];
    assert_eq!(count_of(&interpreter, greeter.scope.vars.index()), 3);
    let plain = &module.types[1];
    assert_eq!(count_of(&interpreter, plain.scope.vars.index()), 1);
    let globals = interpreter.store.get(base).unwrap();
    let answer = globals.members.get("answer").unwrap().index();
    assert_eq!(count_of(&interpreter, answer), 1);
}

#[test]
fn a_method_named_twice_is_counted_once() {
    let mut interpreter = Interpreter::new();
    let mut methods = NameTable::new();
    methods.insert("m".to_owned(), native_method(1, NativeProc::Emit("a".to_owned())));
    let mut def = TypeDef { methods };
    def.methods.entries.push(tricone::table::Entry {
        name: "m".to_owned(),
        value: native_method(1, NativeProc::Emit("b".to_owned())),
    });
    let mut module = Module::new(ModuleIndex(1), "twice", &mut interpreter.store);
    let index = module.create_type(&mut interpreter.store, "T", def);
    let ty = &module.types[index.1];
    assert_eq!(ty.methods.len(), 1);
    assert_eq!(count_of(&interpreter, ty.scope.vars.index()), 2);
}
