//! Declarative descriptions of modules: named types with their methods, and
//! named free functions.
use vstd::prelude::*;
use crate::function::{
    function_object_from_function,
    is_function_object,
    Body,
    Code,
    Function,
    NativeProc,
    Scope,
};
use crate::instruction::Instruction;
use crate::interpreter::Interpreter;
use crate::object::{ModuleIndex, ObjectStore, ObjectToken};
use crate::table::{entries_map, lemma_entries_map_back, Entry, NameTable};
use crate::types::{methods_match, scope_counted, Type};

verus! {

/// The methods of a type.
pub struct TypeDef {
    pub methods: NameTable<FunctionDef>,
}

/// A function given as instructions.
pub struct BytecodeFunctionDef {
    pub arity: usize,
    pub instructions: Vec<Instruction>,
}

/// A function given as a native procedure.
pub struct NativeFunctionDef {
    pub arity: usize,
    pub code: Box<NativeProc>,
}

/// The description of a function.
pub enum FunctionDef {
    Bytecode(BytecodeFunctionDef),
    Native(NativeFunctionDef),
}

/// The description of a module.
pub struct ModuleDef {
    pub name: String,
    pub types: NameTable<TypeDef>,
    pub free_functions: NameTable<FunctionDef>,
}

impl FunctionDef {
    /// The number of arguments that the described function takes.
    pub open spec fn spec_arity(self) -> usize {
        match self {
            FunctionDef::Bytecode(def) => def.arity,
            FunctionDef::Native(def) => def.arity,
        }
    }

    /// The body of the described function.
    pub open spec fn spec_body(self) -> Body {
        match self {
            FunctionDef::Bytecode(def) => Body::Bytecode(def.instructions),
            FunctionDef::Native(def) => Body::Native(*def.code),
        }
    }

    /// Whether `func` is the described function, closed over `scope`.
    pub open spec fn describes(self, func: Function, scope: Scope) -> bool {
        &&& func.arity == self.spec_arity()
        &&& *func.code.body == self.spec_body()
        &&& func.closure == scope
    }

    /// The number of arguments that the described function takes.
    pub fn arity(&self) -> (arity: usize)
        ensures
            arity == self.spec_arity(),
    {
        match self {
            FunctionDef::Bytecode(def) => def.arity,
            FunctionDef::Native(def) => def.arity,
        }
    }

    /// The described function, closed over `scope`.
    pub fn into_function(self, scope: Scope) -> (func: Function)
        ensures
            self.describes(func, scope),
    {
        match self {
            FunctionDef::Bytecode(def) => Function::from_code(
                Code::create(def.instructions),
                def.arity,
                scope,
            ),
            FunctionDef::Native(def) => Function::from_boxed_fn(def.code, def.arity, scope),
        }
    }
}

impl TypeDef {
    /// A type without methods.
    pub fn new() -> (def: TypeDef)
        ensures
            def.methods@ == Map::<Seq<char>, FunctionDef>::empty(),
            def.methods.entries@.len() == 0,
            def.methods.distinct(),
    {
        TypeDef { methods: NameTable::new() }
    }
}

/// Whether `ty` is the type that `entry` describes, at the position `at` of
/// the module `module`.  Where the description holds a method name twice,
/// the first of the two is the method; the type holds each name once.
pub open spec fn type_registered(ty: Type, entry: Entry<TypeDef>, module: ModuleIndex,
    at: int) -> bool {
    &&& ty.name@ == entry.name@
    &&& ty.index.0 == module
    &&& ty.index.1 == at
    &&& ty.methods.distinct()
    &&& methods_match(ty.methods@, entry.value.methods@, ty.scope)
}

/// Whether the scope object of `globals` binds exactly the names of `defs`,
/// each to a function object of its own, made after the scope, that holds
/// the described function closed over `globals`.
pub open spec fn functions_bound(
    store: ObjectStore,
    globals: Scope,
    defs: Map<Seq<char>, FunctionDef>,
) -> bool {
    let members = store.object(globals.vars@).members@;
    &&& store.is_scope(globals.vars@)
    &&& forall|name: Seq<char>| #[trigger] members.dom().contains(name) == defs.dom().contains(name)
    &&& forall|name: Seq<char>| #[trigger]
        defs.dom().contains(name) ==> {
            let token = members[name];
            &&& globals.vars@ < token@
            &&& store.live(token@)
            &&& store.count(token@) == 1
            &&& is_function_object(store.object(token@))
            &&& defs[name].describes(store.object(token@).data->Function_0, globals)
        }
}

/// Whether `post` is `pre` after the registration of `def` at `index`: one
/// more module, which holds what `def` describes in objects of its own,
/// behind the modules and objects of `pre`, which are as they were.  The
/// scope of each type counts one handle for the type and one for each of
/// its methods; the globals scope counts one for the module and one for
/// each function that it binds; each function object counts one, the
/// binding's.
pub open spec fn registers(
    pre: Interpreter,
    def: ModuleDef,
    post: Interpreter,
    index: ModuleIndex,
) -> bool {
    let base = pre.store.cells@.len() as int;
    let module = post.modules@.last();
    &&& index.0 == pre.modules@.len()
    &&& post.modules@.len() == pre.modules@.len() + 1
    &&& post.modules@.subrange(0, pre.modules@.len() as int) == pre.modules@
    &&& post.thread.operation_stack@ == pre.thread.operation_stack@
    &&& post.thread.frame_stack@ == pre.thread.frame_stack@
    &&& post.output@ == pre.output@
    &&& post.budget == pre.budget
    &&& post.depth == pre.depth
    &&& base < post.store.cells@.len()
    &&& post.store.cells@.subrange(0, base) == pre.store.cells@
    &&& pre.store.tables_distinct() ==> post.store.tables_distinct()
    &&& module.name@ == def.name@
    &&& module.index == index
    &&& module.globals.vars@ == base
    &&& module.types@.len() == def.types.entries@.len()
    &&& forall|j: int|
        0 <= j < module.types@.len() ==> {
            &&& type_registered(
                #[trigger] module.types@[j],
                def.types.entries@[j],
                index,
                j,
            )
            &&& base < module.types@[j].scope.vars@ < post.store.cells@.len()
            &&& def.types.entries@[j].value.methods.entries@.len() + 1 < usize::MAX
                ==> scope_counted(post.store, module.types@[j])
        }
    &&& functions_bound(post.store, module.globals, def.free_functions@)
    &&& def.free_functions.entries@.len() + 1 < usize::MAX ==> post.store.count(base) == 1
        + post.store.object(base).members.entries@.len()
}

impl ModuleDef {
    /// Registers the described module: appends a module of this name with
    /// the described types, in their order, and binds each described free
    /// function, closed over the module's globals, in those globals.
    /// Returns the position of the module.
    pub fn register(self, interpreter: &mut Interpreter) -> (index: ModuleIndex)
        ensures
            registers(*old(interpreter), self, *final(interpreter), index),
    {
        let ghost base = old(interpreter).store.cells@.len() as int;
                let ModuleDef { name, types, free_functions } = self;
        let index = interpreter.create_module(name.as_str());
        let ghost count = index.0 as int;
        let ghost all_types = types.entries@;
        let mut pending = types.entries;
        assert(interpreter.store.cells@[base]
            == interpreter.store.cells@.subrange(0, base + 1)[base]);
        while pending.len() > 0
            invariant
                count == index.0,
                count == old(interpreter).modules@.len(),
                base == old(interpreter).store.cells@.len(),
                interpreter.modules@.len() == count + 1,
                interpreter.modules@.subrange(0, count) == old(interpreter).modules@,
                interpreter.thread == old(interpreter).thread,
                interpreter.output == old(interpreter).output,
                interpreter.budget == old(interpreter).budget,
                interpreter.depth == old(interpreter).depth,
                base < interpreter.store.cells@.len(),
                interpreter.store.cells@.subrange(0, base) == old(interpreter).store.cells@,
                interpreter.store.is_scope(base),
                interpreter.store.object(base).members.entries@.len() == 0,
                old(interpreter).store.tables_distinct() ==> interpreter.store.tables_distinct(),
                interpreter.modules@[count].name@ == name@,
                interpreter.modules@[count].index == index,
                interpreter.modules@[count].globals.vars@ == base,
                interpreter.modules@[count].types@.len() + pending@.len() == all_types.len(),
                pending@ == all_types.subrange(
                    interpreter.modules@[count].types@.len() as int,
                    all_types.len() as int,
                ),
                forall|j: int|
                    0 <= j < interpreter.modules@[count].types@.len() ==> {
                        &&& type_registered(
                            #[trigger] interpreter.modules@[count].types@[j],
                            all_types[j],
                            index,
                j,
                        )
                        &&& base < interpreter.modules@[count].types@[j].scope.vars@
                            < interpreter.store.cells@.len()
                        &&& all_types[j].value.methods.entries@.len() + 1 < usize::MAX
                            ==> scope_counted(
                            interpreter.store,
                            interpreter.modules@[count].types@[j],
                        )
                    },
                interpreter.store.count(base) == 1,
            decreases pending@.len(),
        {
            let ghost before = *interpreter;
            let ghost made = interpreter.modules@[count].types@.len() as int;
            let entry = pending.remove(0);
            let Entry { name: label, value } = entry;
            interpreter.modules[index.0].create_type(&mut interpreter.store, label.as_str(), value);
            proof {
                let module = interpreter.modules@[count];
                assert(entry == all_types[made]);
                assert(pending@ =~= all_types.subrange(made + 1, all_types.len() as int));
                assert(interpreter.modules@.subrange(0, count) =~= old(interpreter).modules@);
                assert(interpreter.store.cells@.subrange(0, base)
                    =~= before.store.cells@.subrange(0, base));
                assert(interpreter.store.cells@[base] == interpreter.store.cells@.subrange(
                    0,
                    before.store.cells@.len() as int,
                )[base]);
                assert forall|j: int| 0 <= j < module.types@.len() implies {
                    &&& type_registered(
                        #[trigger] module.types@[j],
                        all_types[j],
                        index,
                j,
                    )
                    &&& base < module.types@[j].scope.vars@ < interpreter.store.cells@.len()
                    &&& all_types[j].value.methods.entries@.len() + 1 < usize::MAX
                        ==> scope_counted(interpreter.store, module.types@[j])
                } by {
                    if j < made {
                        assert(module.types@[j] == module.types@.subrange(0, made)[j]);
                        let at = module.types@[j].scope.vars@;
                        assert(interpreter.store.cells@[at] == interpreter.store.cells@.subrange(
                            0,
                            before.store.cells@.len() as int,
                        )[at]);
                    }
                }
            }
        }
        let ghost all_functions = free_functions.entries@;
        let ghost typed = *interpreter;
        let ghost mut done: int = 0;
        let mut pending = free_functions.entries;
        let target = interpreter.modules[index.0].globals.vars.index();
        proof {
            assert(entries_map(all_functions.subrange(0, 0)) =~= Map::<
                Seq<char>,
                FunctionDef,
            >::empty());
            assert(interpreter.store.object(base).members@ =~= Map::<
                Seq<char>,
                ObjectToken,
            >::empty());
        }
        while pending.len() > 0
            invariant
                target == base,
                count == index.0,
                base == old(interpreter).store.cells@.len(),
                interpreter.modules == typed.modules,
                interpreter.thread == old(interpreter).thread,
                interpreter.output == old(interpreter).output,
                interpreter.budget == old(interpreter).budget,
                interpreter.depth == old(interpreter).depth,
                typed.modules@.len() == count + 1,
                typed.modules@[count].globals.vars@ == base,
                typed.store.cells@.len() <= interpreter.store.cells@.len(),
                old(interpreter).store.tables_distinct() ==> interpreter.store.tables_distinct(),
                base < interpreter.store.cells@.len(),
                interpreter.store.cells@.subrange(0, base) == old(interpreter).store.cells@,
                0 <= done <= all_functions.len(),
                pending@ == all_functions.subrange(done, all_functions.len() as int),
                interpreter.store.object(base).members.entries@.len() <= done,
                all_functions.len() + 1 < usize::MAX ==> interpreter.store.count(base) == 1
                    + interpreter.store.object(base).members.entries@.len(),
                forall|i: int|
                    base < i < typed.store.cells@.len() ==> #[trigger] interpreter.store.cells@[i]
                        == typed.store.cells@[i],
                functions_bound(
                    interpreter.store,
                    typed.modules@[count].globals,
                    entries_map(all_functions.subrange(0, done)),
                ),
            decreases pending@.len(),
        {
            let ghost before = *interpreter;
            let entry = pending.remove(0);
            let Entry { name: label, value } = entry;
            let bound = match interpreter.store.get(target) {
                Some(object) => object.members.contains(label.as_str()),
                None => true,
            };
            proof {
                assert(entry == all_functions[done]);
                assert(pending@ =~= all_functions.subrange(done + 1, all_functions.len() as int));
                lemma_entries_map_back(all_functions, done);
            }
            if !bound {
                let globals = interpreter.modules[index.0].globals.dup(&mut interpreter.store);
                let ghost counted = interpreter.store;
                let func = value.into_function(globals);
                let token = function_object_from_function(func, &mut interpreter.store);
                let ghost grown = interpreter.store;
                let _ = interpreter.store.put_member(target, label, token);
                proof {
                    let scope = typed.modules@[count].globals;
                    let defs = entries_map(all_functions.subrange(0, done + 1));
                    let members = interpreter.store.object(base).members@;
                    assert(grown.cells@[base] == grown.cells@.subrange(
                        0,
                        before.store.cells@.len() as int,
                    )[base]);
                    assert forall|j: int| 0 <= j < base implies interpreter.store.cells@[j]
                        == before.store.cells@[j] by {
                        assert(grown.cells@[j] == grown.cells@.subrange(
                            0,
                            before.store.cells@.len() as int,
                        )[j]);
                    }
                    assert(interpreter.store.cells@.subrange(0, base)
                        =~= before.store.cells@.subrange(0, base));
                    assert forall|i: int| base < i < before.store.cells@.len() implies (
                    #[trigger] interpreter.store.cells@[i]) == before.store.cells@[i] by {
                        assert(grown.cells@[i] == grown.cells@.subrange(
                            0,
                            before.store.cells@.len() as int,
                        )[i]);
                    }
                    assert forall|other: Seq<char>| #[trigger]
                        defs.dom().contains(other) implies {
                        let bound_to = members[other];
                        &&& scope.vars@ < bound_to@
                        &&& interpreter.store.live(bound_to@)
                        &&& interpreter.store.count(bound_to@) == 1
                        &&& is_function_object(interpreter.store.object(bound_to@))
                        &&& defs[other].describes(
                            interpreter.store.object(bound_to@).data->Function_0,
                            scope,
                        )
                    } by {
                        if other != label@ {
                            let earlier = before.store.object(base).members@[other];
                            assert(grown.cells@[earlier@] == grown.cells@.subrange(
                                0,
                                before.store.cells@.len() as int,
                            )[earlier@]);
                        }
                    }
                }
            }
            proof {
                done = done + 1;
            }
        }
        proof {
            assert(all_functions.subrange(0, all_functions.len() as int) =~= all_functions);
        }
        index
    }
}

} // verus!
