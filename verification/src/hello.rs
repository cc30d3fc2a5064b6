//! A demonstration program: a module with one type and two free functions,
//! and a function that calls them.
use vstd::prelude::*;
use crate::consts::{CREATE_METHOD_NAME, DROP_METHOD_NAME};
use crate::error::{ErrorKind, TriconeError};
use crate::function::NativeProc;
use crate::generic::native_method;
use crate::instruction::{code_view, Instruction, InstructionM};
use crate::interpreter::Interpreter;
use crate::model::{unit_result_view, Machine};
use crate::moduledef::{registers, BytecodeFunctionDef, FunctionDef, ModuleDef, TypeDef};
use crate::semantics::{m_drop_token, m_run_program};
use crate::object::{ModuleIndex, TypeIndex};
use crate::table::NameTable;

verus! {

/// The instructions of the free function `hello`, for a module at
/// `module`.
pub open spec fn hello_code(module: ModuleIndex) -> Seq<InstructionM> {
    seq![
        InstructionM::CreateObject { type_: TypeIndex(module, 0), num_args: 0 },
        InstructionM::CallMethod { name: "hello"@, num_args: 0, use_result: false },
        InstructionM::CreateString { value: "Hello world!"@ },
        InstructionM::CallMethod { name: "println"@, num_args: 0, use_result: false },
        InstructionM::Diag,
        InstructionM::LookupName { name: "do_add"@ },
        InstructionM::GetTopScope,
        InstructionM::Assign { name: "do_add_2"@ },
        InstructionM::LookupName { name: "do_add_2"@ },
        InstructionM::CallFunctionObject { num_args: 0, use_result: false },
        InstructionM::Diag,
        InstructionM::DebugPrintObject,
    ]
}

/// The instructions of the free function `do_add`.
pub open spec fn do_add_code() -> Seq<InstructionM> {
    seq![
        InstructionM::CreateInt { value: 20 },
        InstructionM::CreateInt { value: 22 },
        InstructionM::CallMethod { name: "add"@, num_args: 1, use_result: true },
        InstructionM::CallMethod { name: "tostring"@, num_args: 0, use_result: true },
        InstructionM::CallMethod { name: "println"@, num_args: 0, use_result: false },
        InstructionM::Diag,
    ]
}

/// The instructions of the entry point.
pub open spec fn entry_code() -> Seq<InstructionM> {
    seq![
        InstructionM::GetModuleGlobals { name: "hello"@ },
        InstructionM::GetMember { name: "hello"@ },
        InstructionM::CallFunctionObject { num_args: 0, use_result: false },
        InstructionM::GetModuleGlobals { name: "hello"@ },
        InstructionM::GetMember { name: "do_add"@ },
        InstructionM::CallFunctionObject { num_args: 0, use_result: false },
    ]
}

/// The instructions of the free function `hello`, for a module at
/// `module`: makes a `Hello` object and calls its method `hello`, prints a
/// greeting, binds the function `do_add` to a second name in its own scope
/// and calls it under that name.
pub fn hello_program(module: ModuleIndex) -> (program: Vec<Instruction>)
    ensures
        code_view(program@) == hello_code(module),
{
    let mut program: Vec<Instruction> = Vec::new();
    program.push(Instruction::CreateObject { type_: TypeIndex(module, 0), num_args: 0 });
    program.push(
        Instruction::CallMethod { name: String::from_str("hello"), num_args: 0, use_result: false },
    );
    program.push(Instruction::CreateString { value: String::from_str("Hello world!") });
    program.push(
        Instruction::CallMethod {
            name: String::from_str("println"),
            num_args: 0,
            use_result: false,
        },
    );
    program.push(Instruction::Diag);
    program.push(Instruction::LookupName { name: String::from_str("do_add") });
    program.push(Instruction::GetTopScope);
    program.push(Instruction::Assign { name: String::from_str("do_add_2") });
    program.push(Instruction::LookupName { name: String::from_str("do_add_2") });
    program.push(Instruction::CallFunctionObject { num_args: 0, use_result: false });
    program.push(Instruction::Diag);
    program.push(Instruction::DebugPrintObject);
    assert(code_view(program@) =~= hello_code(module));
    program
}

/// The instructions of the free function `do_add`: adds 20 and 22 and
/// prints the text of the sum.
pub fn do_add_program() -> (program: Vec<Instruction>)
    ensures
        code_view(program@) == do_add_code(),
{
    let mut program: Vec<Instruction> = Vec::new();
    program.push(Instruction::CreateInt { value: 20 });
    program.push(Instruction::CreateInt { value: 22 });
    program.push(
        Instruction::CallMethod { name: String::from_str("add"), num_args: 1, use_result: true },
    );
    program.push(
        Instruction::CallMethod {
            name: String::from_str("tostring"),
            num_args: 0,
            use_result: true,
        },
    );
    program.push(
        Instruction::CallMethod {
            name: String::from_str("println"),
            num_args: 0,
            use_result: false,
        },
    );
    program.push(Instruction::Diag);
    assert(code_view(program@) =~= do_add_code());
    program
}

/// The instructions of the entry point: calls the free functions `hello`
/// and `do_add` of the module `hello`.
pub fn entry_program() -> (program: Vec<Instruction>)
    ensures
        code_view(program@) == entry_code(),
{
    let mut program: Vec<Instruction> = Vec::new();
    program.push(Instruction::GetModuleGlobals { name: String::from_str("hello") });
    program.push(Instruction::GetMember { name: String::from_str("hello") });
    program.push(Instruction::CallFunctionObject { num_args: 0, use_result: false });
    program.push(Instruction::GetModuleGlobals { name: String::from_str("hello") });
    program.push(Instruction::GetMember { name: String::from_str("do_add") });
    program.push(Instruction::CallFunctionObject { num_args: 0, use_result: false });
    assert(code_view(program@) =~= entry_code());
    program
}

/// Whether `def` describes a native method that writes `line`.
pub open spec fn emits(def: FunctionDef, line: Seq<char>) -> bool {
    match def {
        FunctionDef::Native(native) => native.arity == 1 && match *native.code {
            NativeProc::Emit(text) => text@ == line,
            _ => false,
        },
        _ => false,
    }
}

/// Whether `def` describes a function without arguments that runs `code`.
pub open spec fn runs(def: FunctionDef, code: Seq<InstructionM>) -> bool {
    match def {
        FunctionDef::Bytecode(bytecode) => bytecode.arity == 0 && code_view(
            bytecode.instructions@,
        ) == code,
        _ => false,
    }
}

/// Whether `def` is the description of the module `hello`, for
/// registration at `module`.
pub open spec fn is_hello_def(def: ModuleDef, module: ModuleIndex) -> bool {
    let methods = def.types.entries@[0].value.methods.entries@;
    let functions = def.free_functions.entries@;
    &&& def.name@ == "hello"@
    &&& def.types.entries@.len() == 1
    &&& def.types.entries@[0].name@ == "Hello"@
    &&& methods.len() == 3
    &&& methods[0].name@ == "hello"@
    &&& emits(methods[0].value, "hello from method!!"@)
    &&& methods[1].name@ == CREATE_METHOD_NAME@
    &&& emits(methods[1].value, "hello from CREATE method!!"@)
    &&& methods[2].name@ == DROP_METHOD_NAME@
    &&& emits(methods[2].value, "hello from DROP method!!"@)
    &&& functions.len() == 2
    &&& functions[0].name@ == "hello"@
    &&& runs(functions[0].value, hello_code(module))
    &&& functions[1].name@ == "do_add"@
    &&& runs(functions[1].value, do_add_code())
}

/// The description of the module `hello`, for registration at `module`:
/// the type `Hello`, whose hooks and whose method `hello` each write a
/// line, and the free functions `hello` and `do_add`.
pub fn register_hello(module: ModuleIndex) -> (def: ModuleDef)
    ensures
        is_hello_def(def, module),
        def.name@ == "hello"@,
        def.types.entries@.len() == 1,
        def.types.distinct(),
        def.free_functions.distinct(),
        def.types.entries@[0].value.methods.distinct(),
        def.types.entries@[0].name@ == "Hello"@,
        def.types.entries@[0].value.methods@.dom() == Set::<Seq<char>>::empty().insert(
            "hello"@,
        ).insert(CREATE_METHOD_NAME@).insert(DROP_METHOD_NAME@),
        def.free_functions@.dom() == Set::<Seq<char>>::empty().insert("hello"@).insert("do_add"@),
        def.free_functions@["hello"@].spec_arity() == 0,
        def.free_functions@["do_add"@].spec_arity() == 0,
{
    proof {
        reveal_strlit("hello");
        reveal_strlit("create");
        reveal_strlit("drop");
        reveal_strlit("do_add");
        assert("hello"@[0] != "create"@[0]);
        assert("hello"@[0] != "drop"@[0]);
        assert("create"@[0] != "drop"@[0]);
        assert("hello"@[0] != "do_add"@[0]);
    }
    let mut methods: NameTable<FunctionDef> = NameTable::new();
    methods.insert(
        String::from_str("hello"),
        native_method(1, NativeProc::Emit(String::from_str("hello from method!!"))),
    );
    methods.insert(
        String::from_str(CREATE_METHOD_NAME),
        native_method(1, NativeProc::Emit(String::from_str("hello from CREATE method!!"))),
    );
    methods.insert(
        String::from_str(DROP_METHOD_NAME),
        native_method(1, NativeProc::Emit(String::from_str("hello from DROP method!!"))),
    );
    let mut types: NameTable<TypeDef> = NameTable::new();
    types.insert(String::from_str("Hello"), TypeDef { methods });
    let mut free_functions: NameTable<FunctionDef> = NameTable::new();
    free_functions.insert(
        String::from_str("hello"),
        FunctionDef::Bytecode(
            BytecodeFunctionDef { arity: 0, instructions: hello_program(module) },
        ),
    );
    free_functions.insert(
        String::from_str("do_add"),
        FunctionDef::Bytecode(BytecodeFunctionDef { arity: 0, instructions: do_add_program() }),
    );
    let def = ModuleDef { name: String::from_str("hello"), types, free_functions };
    proof {
        assert(def.types.entries@[0].value.methods@.dom() =~= Set::<Seq<char>>::empty().insert(
            "hello"@,
        ).insert(CREATE_METHOD_NAME@).insert(DROP_METHOD_NAME@));
        assert(def.free_functions@.dom() =~= Set::<Seq<char>>::empty().insert("hello"@).insert(
            "do_add"@,
        ));
    }
    def
}

/// What `do_hello` does after the registration: runs `program` and gives
/// up what it yields.
pub open spec fn m_run_and_drop(s: Machine, program: Vec<Instruction>) -> (
    Machine,
    Result<(), ErrorKind>,
) {
    let ran = m_run_program(s, program);
    match ran.1 {
        Ok(Some(value)) => m_drop_token(ran.0, value),
        Ok(None) => (ran.0, Ok(())),
        Err(e) => (ran.0, Err(e)),
    }
}

/// Whether `post` and `outcome` are what `do_hello` leaves of `pre`:
/// `registered` is `pre` after the registration of `def`, the description
/// of the module `hello`, and `post` is `registered` after a run of
/// `program`, the entry point.
pub open spec fn hello_ran(
    pre: Interpreter,
    def: ModuleDef,
    registered: Interpreter,
    program: Vec<Instruction>,
    post: Machine,
    outcome: Result<(), ErrorKind>,
) -> bool {
    let index = ModuleIndex(pre.modules@.len() as usize);
    &&& is_hello_def(def, index)
    &&& registers(pre, def, registered, index)
    &&& code_view(program@) == entry_code()
    &&& (post, outcome) == m_run_and_drop(registered@, program)
}

/// Registers the module `hello` and runs the entry point.  What the
/// program prints is appended to the interpreter's output.  The result and
/// the state are those of a run of the entry point after the registration
/// of the module.
pub fn do_hello(interpreter: &mut Interpreter) -> (r: Result<(), TriconeError>)
    ensures
        exists|def: ModuleDef, registered: Interpreter, program: Vec<Instruction>|
            hello_ran(
                *old(interpreter),
                def,
                registered,
                program,
                final(interpreter)@,
                unit_result_view(r),
            ),
        final(interpreter).modules@.len() == old(interpreter).modules@.len() + 1,
        final(interpreter).modules@.subrange(0, old(interpreter).modules@.len() as int)
            == old(interpreter).modules@,
        final(interpreter).modules@.last().name@ == "hello"@,
        final(interpreter).budget <= old(interpreter).budget,
        final(interpreter).depth == old(interpreter).depth,
        final(interpreter).thread.frame_stack@.len() == old(interpreter).thread.frame_stack@.len(),
        old(interpreter).output@.len() <= final(interpreter).output@.len(),
        forall|i: int|
            0 <= i < old(interpreter).output@.len() ==> (#[trigger] final(interpreter).output@[i])
                == old(interpreter).output@[i],
{
    let module = ModuleIndex(interpreter.module_count());
    let def = register_hello(module);
    let ghost described = def;
    def.register(interpreter);
    let ghost registered = *interpreter;
    let program = entry_program();
    let ghost entry = program;
    let outcome = match interpreter.run_program(program) {
        Ok(Some(obj)) => interpreter.drop_token(obj),
        Ok(None) => Ok(()),
        Err(e) => Err(e),
    };
    proof {
        assert(interpreter.modules == registered.modules);
        assert(hello_ran(
            *old(interpreter),
            described,
            registered,
            entry,
            interpreter@,
            unit_result_view(outcome),
        ));
    }
    outcome
}

} // verus!
