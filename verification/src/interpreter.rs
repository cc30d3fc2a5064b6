//! The interpreter: the module table, the object store, the operand and
//! frame stacks, and the stack machine that runs instructions on them.
use vstd::prelude::*;
use crate::consts::core_module_id;
use crate::error::{ErrorKind, TriconeError};
use crate::function::{register_func_type, Function, NativeKind};
use crate::generic::native_methods;
use crate::int_::{int_methods, register_int_type};
use crate::model::{
    function_view,
    lemma_frames_drop_last,
    lemma_frames_push,
    lemma_lines_push,
    lemma_tokens_push,
    lemma_tokens_subrange,
    tokens_view,
    Machine,
};
use crate::moduledef::{FunctionDef, TypeDef};
use crate::names::{first_position, lemma_position_unique};
use crate::object::{ModuleIndex, Object, ObjectStore, ObjectToken, TypeIndex};
use crate::scope::Frame;
use crate::scope::Thread;
use crate::semantics::{
    m_core_type,
    m_enter,
    m_has_type,
    m_leave,
    m_method,
    m_type_from,
    m_type_named,
    m_type_of,
};
use crate::string::{register_string_type, string_methods};
use crate::types::{Module, Type};
use crate::types::methods_match;

verus! {

/// The step budget of a new interpreter: as many steps as the machine can
/// count, so that only `set_budget` makes a run end early.
pub const DEFAULT_BUDGET: usize = usize::MAX;

/// The number of calls and destructions that may be under way at once,
/// one inside the other.
pub const MAX_DEPTH: usize = 1000;

/// The whole state of the runtime.
///
/// Every call of a function and every destruction of an object takes one
/// step from `budget`; at zero they fail with `BudgetExhausted`, so that
/// every run of a program ends.  While a call or a destruction is under
/// way it counts in `depth`; at [`MAX_DEPTH`] a further one fails with
/// `DepthExceeded`, so that no run nests deeper than the machine can hold.
pub struct Interpreter {
    pub modules: Vec<Module>,
    pub thread: Thread,
    pub store: ObjectStore,
    pub output: Vec<String>,
    pub budget: usize,
    pub depth: usize,
}

/// The names of the core types, in order.
pub open spec fn core_type_names() -> Seq<Seq<char>> {
    seq!["Scope"@, "Unit"@, "Function"@, "Int"@, "String"@]
}

/// Whether `module` is the core module: its five types, each under its own
/// identity and with the methods of its kind.  The scope of the module's
/// globals is the first object of the store, and the scopes of the types
/// follow it in their order.
pub open spec fn is_core_module(module: Module) -> bool {
    let types = module.types@;
    &&& module.name@ == "core"@
    &&& module.index == core_module_id()
    &&& module.type_names() == core_type_names()
    &&& types.len() == 5
    &&& forall|i: int|
        0 <= i < 5 ==> (#[trigger] types[i]).index == TypeIndex(core_module_id(), i as usize)
            && types[i].scope.vars@ == i + 1 && types[i].methods.distinct()
    &&& module.globals.vars@ == 0
    &&& types[0].methods@ == Map::<Seq<char>, Function>::empty()
    &&& types[1].methods@ == Map::<Seq<char>, Function>::empty()
    &&& methods_match(
        types[2].methods@,
        native_methods(NativeKind::Function, Map::<Seq<char>, FunctionDef>::empty()),
        types[2].scope,
    )
    &&& methods_match(
        types[3].methods@,
        native_methods(NativeKind::Int, int_methods()),
        types[3].scope,
    )
    &&& methods_match(
        types[4].methods@,
        native_methods(NativeKind::Text, string_methods()),
        types[4].scope,
    )
}

/// The names of a sequence of modules, in order.
pub open spec fn module_names(modules: Seq<Module>) -> Seq<Seq<char>> {
    Seq::new(modules.len(), |i: int| modules[i].name@)
}

/// Whether `post` can follow `pre` in a run: the budget has not grown, the
/// registry is the same, as many frames are active, the store has only
/// grown and still holds no member name twice in an object, and the output
/// has only been added to.
pub open spec fn steps_to(pre: Interpreter, post: Interpreter) -> bool {
    &&& post.budget <= pre.budget
    &&& post.depth == pre.depth
    &&& post.modules == pre.modules
    &&& post.thread.frame_stack@.len() == pre.thread.frame_stack@.len()
    &&& pre.store.grows_to(&post.store)
    &&& pre.store.tables_distinct() ==> post.store.tables_distinct()
    &&& pre.output@.len() <= post.output@.len()
    &&& forall|i: int|
        0 <= i < pre.output@.len() ==> (#[trigger] post.output@[i]) == pre.output@[i]
}

/// Whether `post` is `pre` but for the store.
pub open spec fn same_but_store(pre: Interpreter, post: Interpreter) -> bool {
    &&& post.budget == pre.budget
    &&& post.depth == pre.depth
    &&& post.modules == pre.modules
    &&& post.thread.operation_stack@ == pre.thread.operation_stack@
    &&& post.thread.frame_stack@ == pre.thread.frame_stack@
    &&& post.output@ == pre.output@
}

/// Whether `post` holds what `pre` holds.
pub open spec fn unchanged(pre: Interpreter, post: Interpreter) -> bool {
    &&& same_but_store(pre, post)
    &&& post.store.cells@ == pre.store.cells@
}

/// The error of the given kind, as the result of a step that yields a
/// handle or nothing.
pub open spec fn fails_with(kind: ErrorKind) -> Result<Option<ObjectToken>, TriconeError> {
    Err(TriconeError { kind })
}

/// The first of two results that is an error.
pub fn first_error(first: Result<(), TriconeError>, second: Result<(), TriconeError>) -> (r:
    Result<(), TriconeError>)
    ensures
        r == if first is Err {
            first
        } else {
            second
        },
{
    match first {
        Err(e) => Err(e),
        Ok(()) => second,
    }
}

impl Interpreter {
    /// Whether the registry holds a type with this identity.
    pub open spec fn has_type(&self, idx: TypeIndex) -> bool {
        idx.0.0 < self.modules@.len() && idx.1 < self.modules@[idx.0.0 as int].types@.len()
    }

    /// The type with this identity.
    pub open spec fn type_at(&self, idx: TypeIndex) -> Type
        recommends
            self.has_type(idx),
    {
        self.modules@[idx.0.0 as int].types@[idx.1 as int]
    }

    /// The method `name` of the type `idx`.
    pub open spec fn method_of(&self, idx: TypeIndex, name: Seq<char>) -> Option<Function> {
        if self.has_type(idx) && self.type_at(idx).methods@.dom().contains(name) {
            Some(self.type_at(idx).methods@[name])
        } else {
            None
        }
    }

    /// The names of the modules, in order.
    pub open spec fn module_names(&self) -> Seq<Seq<char>> {
        module_names(self.modules@)
    }

    /// An interpreter without modules, for the bootstrap of the core
    /// module.
    pub(crate) fn empty() -> (interpreter: Interpreter)
        ensures
            interpreter.modules@.len() == 0,
            interpreter.thread.operation_stack@.len() == 0,
            interpreter.thread.frame_stack@.len() == 0,
            interpreter.store.cells@.len() == 0,
            interpreter.output@.len() == 0,
            interpreter.budget == DEFAULT_BUDGET,
            interpreter.depth == 0,
    {
        Interpreter {
            modules: Vec::new(),
            thread: Thread::new(),
            store: ObjectStore::new(),
            output: Vec::new(),
            budget: DEFAULT_BUDGET,
            depth: 0,
        }
    }

    /// An interpreter with the core module: the types `Scope`, `Unit`,
    /// `Function`, `Int` and `String`, in this order.  The scope of the
    /// module's globals counts one handle, the module's; the scope of each
    /// type counts one for the type and one for each of its methods.
    pub fn new() -> (interpreter: Interpreter)
        ensures
            interpreter.is_bootstrapped(),
            interpreter.modules@.len() == 1,
            interpreter.store.cells@.len() == 6,
            interpreter.store.tables_distinct(),
            forall|i: int| 0 <= i < 6 ==> interpreter.store.is_scope(i),
            interpreter.store.count(0) == 1,
            forall|i: int|
                0 <= i < 5 ==> crate::types::scope_counted(
                    interpreter.store,
                    #[trigger] interpreter.modules@[0].types@[i],
                ),
            interpreter.thread.operation_stack@.len() == 0,
            interpreter.thread.frame_stack@.len() == 0,
            interpreter.output@.len() == 0,
            interpreter.budget == DEFAULT_BUDGET,
            interpreter.depth == 0,
    {
        let mut interpreter = Interpreter::empty();
        let mut core = Module::new(core_module_id(), "core", &mut interpreter.store);
        core.create_type(&mut interpreter.store, "Scope", TypeDef::new());
        core.create_type(&mut interpreter.store, "Unit", TypeDef::new());
        let ghost two = core.types@;
        register_func_type(&mut interpreter, &mut core);
        let ghost three = core.types@;
        register_int_type(&mut interpreter, &mut core);
        let ghost four = core.types@;
        register_string_type(&mut interpreter, &mut core);
        proof {
            let five = core.types@;
            assert(four == five.subrange(0, 4));
            assert(three == four.subrange(0, 3));
            assert(two == three.subrange(0, 2));
            assert(five[3] == four[3]);
            assert(four[2] == three[2]);
            assert(five[2] == four[2]);
            assert(three[1] == two[1]);
            assert(four[1] == three[1]);
            assert(five[1] == four[1]);
            assert(three[0] == two[0]);
            assert(four[0] == three[0]);
            assert(five[0] == four[0]);
            assert(core.type_names() =~= core_type_names());
            assert(five[0].methods@ =~= Map::<Seq<char>, Function>::empty());
            assert(five[1].methods@ =~= Map::<Seq<char>, Function>::empty());
            assert(is_core_module(core));
        }
        interpreter.modules.push(core);
        interpreter
    }

    /// Whether the interpreter holds the core module as `new` makes it.
    pub open spec fn is_bootstrapped(&self) -> bool {
        &&& self.modules@.len() >= 1
        &&& is_core_module(self.modules@[0])
    }

    /// The steps that are left.
    pub fn budget(&self) -> (budget: usize)
        ensures
            budget == self.budget,
    {
        self.budget
    }

    /// Sets the number of steps that are left.
    pub fn set_budget(&mut self, budget: usize)
        ensures
            final(self).budget == budget,
            final(self).depth == old(self).depth,
            final(self).modules == old(self).modules,
            final(self).thread == old(self).thread,
            final(self).store == old(self).store,
            final(self).output == old(self).output,
    {
        self.budget = budget;
    }

    /// Enters a call or a destruction: takes one step from the budget and
    /// counts one level more.  Fails, and changes nothing, with
    /// `BudgetExhausted` where no step is left and with `DepthExceeded`
    /// where [`MAX_DEPTH`] levels are under way.
    pub fn enter(&mut self) -> (r: Result<(), TriconeError>)
        ensures
            (final(self)@, crate::model::unit_result_view(r)) == m_enter(old(self)@),
            r is Err ==> unchanged(*old(self), *final(self)),
            r is Ok ==> final(self).budget == old(self).budget - 1
                && final(self).depth == old(self).depth + 1 && final(self).depth <= MAX_DEPTH
                && final(self).modules == old(self).modules
                && final(self).thread == old(self).thread
                && final(self).store == old(self).store && final(self).output == old(self).output,
            old(self).budget == 0 ==> r == Err::<(), TriconeError>(
                TriconeError { kind: ErrorKind::BudgetExhausted },
            ),
            old(self).budget > 0 && old(self).depth >= MAX_DEPTH ==> r == Err::<(), TriconeError>(
                TriconeError { kind: ErrorKind::DepthExceeded },
            ),
            old(self).budget > 0 && old(self).depth < MAX_DEPTH ==> r is Ok,
    {
        if self.budget == 0 {
            Err(TriconeError::new(ErrorKind::BudgetExhausted))
        } else if self.depth >= MAX_DEPTH {
            Err(TriconeError::new(ErrorKind::DepthExceeded))
        } else {
            self.budget = self.budget - 1;
            self.depth = self.depth + 1;
            Ok(())
        }
    }

    /// Leaves a call or a destruction: counts one level less.
    pub fn leave(&mut self)
        ensures
            final(self)@ == m_leave(old(self)@),
            final(self).depth == if old(self).depth > 0 {
                (old(self).depth - 1) as usize
            } else {
                0usize
            },
            final(self).budget == old(self).budget,
            final(self).modules == old(self).modules,
            final(self).thread == old(self).thread,
            final(self).store == old(self).store,
            final(self).output == old(self).output,
    {
        if self.depth > 0 {
            self.depth = self.depth - 1;
        }
    }

    /// The lines that the program has written, oldest first.
    pub fn output(&self) -> (lines: &Vec<String>)
        ensures
            *lines == self.output,
    {
        &self.output
    }

    /// The number of operands on the stack.
    pub fn stack_depth(&self) -> (depth: usize)
        ensures
            depth == self.thread.operation_stack@.len(),
    {
        self.thread.operation_stack.len()
    }

    /// Pushes an operand.
    pub fn push_operand(&mut self, token: ObjectToken)
        ensures
            final(self)@ == (Machine { stack: old(self)@.stack.push(token@), ..old(self)@ }),
            final(self).thread.operation_stack@ == old(self).thread.operation_stack@.push(token),
            final(self).thread.frame_stack == old(self).thread.frame_stack,
            final(self).modules == old(self).modules,
            final(self).store == old(self).store,
            final(self).output == old(self).output,
            final(self).budget == old(self).budget,
            final(self).depth == old(self).depth,
    {
        reveal(crate::model::cells_view);
        reveal(crate::model::tokens_view);
        reveal(crate::model::frames_view);
        reveal(crate::model::lines_view);
        proof {
            lemma_tokens_push(self.thread.operation_stack@, token);
        }
        self.thread.operation_stack.push(token);
    }

    /// Pops an operand.
    pub fn pop_operand(&mut self) -> (token: Option<ObjectToken>)
        ensures
            old(self)@.stack.len() == old(self).thread.operation_stack@.len(),
            old(self)@.stack.len() == 0 ==> token is None && final(self)@ == old(self)@,
            old(self)@.stack.len() > 0 ==> token is Some && token->0@ == old(self)@.stack.last()
                && final(self)@ == (Machine {
                stack: old(self)@.stack.drop_last(),
                ..old(self)@
            }),
            old(self).thread.operation_stack@.len() == 0
                ==> token is None && unchanged(*old(self), *final(self)),
            old(self).thread.operation_stack@.len() > 0 ==> token == Some(
                old(self).thread.operation_stack@.last(),
            ) && final(self).thread.operation_stack@
                == old(self).thread.operation_stack@.drop_last(),
            final(self).thread.frame_stack == old(self).thread.frame_stack,
            final(self).modules == old(self).modules,
            final(self).store == old(self).store,
            final(self).output == old(self).output,
            final(self).budget == old(self).budget,
            final(self).depth == old(self).depth,
    {
        reveal(crate::model::cells_view);
        reveal(crate::model::tokens_view);
        reveal(crate::model::frames_view);
        reveal(crate::model::lines_view);
        proof {
            let stack = self.thread.operation_stack@;
            if stack.len() > 0 {
                lemma_tokens_subrange(stack, 0, stack.len() - 1);
                assert(stack.drop_last() =~= stack.subrange(0, stack.len() - 1));
                assert(tokens_view(stack).drop_last() =~= tokens_view(stack).subrange(
                    0,
                    stack.len() - 1,
                ));
            }
        }
        self.thread.operation_stack.pop()
    }

    /// Pushes a frame.
    pub fn push_frame(&mut self, frame: Frame)
        ensures
            final(self).thread.frame_stack@ == old(self).thread.frame_stack@.push(frame),
            final(self).thread.operation_stack == old(self).thread.operation_stack,
            final(self).modules == old(self).modules,
            final(self).store == old(self).store,
            final(self).output == old(self).output,
            final(self).budget == old(self).budget,
            final(self).depth == old(self).depth,
            final(self)@ == (Machine {
                frames: old(self)@.frames.push(frame.top_scope.vars@),
                ..old(self)@
            }),
    {
        reveal(crate::model::cells_view);
        reveal(crate::model::tokens_view);
        reveal(crate::model::frames_view);
        reveal(crate::model::lines_view);
        proof {
            lemma_frames_push(self.thread.frame_stack@, frame);
        }
        self.thread.frame_stack.push(frame);
    }

    /// Pops the active frame.
    pub fn pop_frame(&mut self) -> (frame: Option<Frame>)
        ensures
            old(self)@.frames.len() == old(self).thread.frame_stack@.len(),
            old(self)@.frames.len() == 0 ==> frame is None && final(self)@ == old(self)@
                && final(self).thread.frame_stack@ == old(self).thread.frame_stack@,
            old(self)@.frames.len() > 0 ==> frame == Some(old(self).thread.frame_stack@.last())
                && frame->0.top_scope.vars@ == old(self)@.frames.last()
                    && final(self)@ == (Machine {
                frames: old(self)@.frames.drop_last(),
                ..old(self)@
            }) && final(self).thread.frame_stack@ == old(self).thread.frame_stack@.drop_last(),
            final(self).thread.operation_stack == old(self).thread.operation_stack,
            final(self).modules == old(self).modules,
            final(self).store == old(self).store,
            final(self).output == old(self).output,
            final(self).budget == old(self).budget,
            final(self).depth == old(self).depth,
    {
        reveal(crate::model::cells_view);
        reveal(crate::model::tokens_view);
        reveal(crate::model::frames_view);
        reveal(crate::model::lines_view);
        proof {
            if self.thread.frame_stack@.len() > 0 {
                lemma_frames_drop_last(self.thread.frame_stack@);
            }
        }
        self.thread.frame_stack.pop()
    }

    /// Appends a line to the output.
    pub fn emit(&mut self, line: String)
        ensures
            final(self).output@ == old(self).output@.push(line),
            final(self).thread == old(self).thread,
            final(self).modules == old(self).modules,
            final(self).store == old(self).store,
            final(self).budget == old(self).budget,
            final(self).depth == old(self).depth,
            final(self)@ == (Machine { output: old(self)@.output.push(line@), ..old(self)@ }),
    {
        reveal(crate::model::cells_view);
        reveal(crate::model::lines_view);
        proof {
            lemma_lines_push(self.output@, line);
        }
        self.output.push(line);
    }

    /// The number of modules.
    pub fn module_count(&self) -> (n: usize)
        ensures
            n == self.modules@.len(),
    {
        self.modules.len()
    }

    /// Appends a module without types and returns its position.
    pub fn create_module(&mut self, name: &str) -> (index: ModuleIndex)
        ensures
            index.0 == old(self).modules@.len(),
            final(self).modules@.len() == old(self).modules@.len() + 1,
            final(self).modules@.subrange(0, old(self).modules@.len() as int) == old(self).modules@,
            final(self).modules@.last().name@ == name@,
            final(self).modules@.last().index == index,
            final(self).modules@.last().types@.len() == 0,
            final(self).modules@.last().globals.vars@ == old(self).store.cells@.len(),
            crate::types::adds_scope(old(self).store, final(self).store),
            final(self).store.count(old(self).store.cells@.len() as int) == 1,
            final(self).thread == old(self).thread,
            final(self).output == old(self).output,
            final(self).budget == old(self).budget,
            final(self).depth == old(self).depth,
    {
        let index = ModuleIndex(self.modules.len());
        let module = Module::new(index, name, &mut self.store);
        self.modules.push(module);
        assert(self.modules@.subrange(0, old(self).modules@.len() as int) =~= old(self).modules@);
        index
    }

    /// The position of the first module with this name.
    pub fn lookup_module_index(&self, name: &str) -> (at: Option<ModuleIndex>)
        ensures
            match at {
                Some(index) => first_position(self.module_names(), name@) == Some(index.0 as int)
                    && index.0 < self.modules@.len(),
                None => first_position(self.module_names(), name@) is None,
            },
    {
        let mut i: usize = 0;
        while i < self.modules.len()
            invariant
                i <= self.modules@.len(),
                forall|j: int| 0 <= j < i ==> self.module_names()[j] != name@,
            decreases self.modules@.len() - i,
        {
            if name.eq(self.modules[i].name.as_str()) {
                proof {
                    lemma_position_unique(self.module_names(), name@, 0, Some(i as int));
                }
                return Some(ModuleIndex(i));
            }
            i = i + 1;
        }
        proof {
            lemma_position_unique(self.module_names(), name@, 0, None);
        }
        None
    }

    /// The module at `idx`.
    pub fn get_module(&self, idx: ModuleIndex) -> (module: &Module)
        requires
            idx.0 < self.modules@.len(),
        ensures
            *module == self.modules@[idx.0 as int],
    {
        &self.modules[idx.0]
    }

    /// The module at `idx`, to change it.
    pub fn get_module_mut(&mut self, idx: ModuleIndex) -> (module: &mut Module)
        requires
            idx.0 < old(self).modules@.len(),
        ensures
            *module == old(self).modules@[idx.0 as int],
            final(self).modules@ == old(self).modules@.update(idx.0 as int, *final(module)),
            final(self).thread == old(self).thread,
            final(self).store == old(self).store,
            final(self).output == old(self).output,
            final(self).budget == old(self).budget,
            final(self).depth == old(self).depth,
    {
        &mut self.modules[idx.0]
    }

    /// The identity of the first type named `name` in the module at
    /// `modidx`; `None` where there is no such module or type.
    pub fn lookup_type(&self, modidx: ModuleIndex, name: &str) -> (found: Option<TypeIndex>)
        ensures
            modidx == core_module_id() ==> found == m_core_type(self@.modules, name@),
            found == if modidx.0 < self.modules@.len() {
                match first_position(self.modules@[modidx.0 as int].type_names(), name@) {
                    Some(i) => Some(TypeIndex(modidx, i as usize)),
                    None => None,
                }
            } else {
                None
            },
            found is Some ==> self.has_type(found->0),
    {
        reveal(crate::model::cells_view);
        if modidx.0 < self.modules.len() {
            match self.modules[modidx.0].lookup_type_index(name) {
                Some(i) => Some(TypeIndex(modidx, i)),
                None => None,
            }
        } else {
            None
        }
    }

    /// The identity of the first type named `name` in the registry: the
    /// modules are searched in their order, the core module first.
    pub fn find_type(&self, name: &str) -> (found: Option<TypeIndex>)
        ensures
            found == m_type_named(self.modules@, name@),
            found is Some ==> self.has_type(found->0),
    {
        let mut i: usize = 0;
        while i < self.modules.len()
            invariant
                i <= self.modules@.len(),
                m_type_named(self.modules@, name@) == m_type_from(self.modules@, name@, i as int),
            decreases self.modules@.len() - i,
        {
            match self.modules[i].lookup_type_index(name) {
                Some(at) => {
                    return Some(TypeIndex(ModuleIndex(i), at));
                },
                None => {},
            }
            i = i + 1;
        }
        None
    }

    /// A new handle to the globals scope of the module at `idx`.
    pub fn globals_of(&mut self, idx: ModuleIndex) -> (globals: Option<crate::function::Scope>)
        ensures
            same_but_store(*old(self), *final(self)),
            globals == if idx.0 < old(self).modules@.len() {
                Some(old(self).modules@[idx.0 as int].globals)
            } else {
                None
            },
            final(self).store.cells@ == match globals {
                Some(scope) => old(self).store.retained(scope.vars@),
                None => old(self).store.cells@,
            },
    {
        if idx.0 < self.modules.len() {
            let module = &self.modules[idx.0];
            Some(module.globals.dup(&mut self.store))
        } else {
            None
        }
    }

    /// Whether the registry holds a type with this identity.
    pub fn is_type(&self, idx: TypeIndex) -> (known: bool)
        ensures
            known == self.has_type(idx),
            known == m_has_type(self@.modules, idx),
    {
        reveal(crate::model::cells_view);
        idx.0.0 < self.modules.len() && idx.1 < self.modules[idx.0.0].types.len()
    }

    /// The type with this identity.
    pub fn get_type(&self, idx: TypeIndex) -> (ty: &Type)
        requires
            self.has_type(idx),
        ensures
            *ty == self.type_at(idx),
    {
        &self.modules[idx.0.0].types[idx.1]
    }

    /// Appends a type to the module at `modidx` and returns the identity
    /// under which the module now holds it.
    pub fn register_type(&mut self, modidx: ModuleIndex, ty: Type) -> (index: TypeIndex)
        requires
            modidx.0 < old(self).modules@.len(),
        ensures
            index.0 == modidx,
            index.1 == old(self).modules@[modidx.0 as int].types@.len(),
            final(self).modules@.len() == old(self).modules@.len(),
            forall|i: int|
                0 <= i < old(self).modules@.len() && i != modidx.0 ==> final(self).modules@[i]
                    == old(self).modules@[i],
            final(self).modules@[modidx.0 as int].types@
                == old(self).modules@[modidx.0 as int].types@.push(ty),
            final(self).modules@[modidx.0 as int].name == old(self).modules@[modidx.0 as int].name,
            final(self).modules@[modidx.0 as int].index
                == old(self).modules@[modidx.0 as int].index,
            final(self).modules@[modidx.0 as int].globals
                == old(self).modules@[modidx.0 as int].globals,
            final(self).thread == old(self).thread,
            final(self).store == old(self).store,
            final(self).output == old(self).output,
            final(self).budget == old(self).budget,
            final(self).depth == old(self).depth,
    {
        let module = &mut self.modules[modidx.0];
        module.types.push(ty);
        TypeIndex(modidx, module.types.len() - 1)
    }

    /// A duplicate of the method `name` of the type `idx`.
    pub fn get_method_of_type(&mut self, idx: TypeIndex, name: &str) -> (method: Option<Function>)
        ensures
            match method {
                Some(func) => m_method(old(self)@.modules, idx, name@) == Some(function_view(func))
                    && final(self)@ == (Machine {
                    cells: crate::model::m_retain(old(self)@.cells, func.closure.vars@),
                    ..old(self)@
                }),
                None => m_method(old(self)@.modules, idx, name@) is None
                    && final(self)@ == old(self)@,
            },
            method == old(self).method_of(idx, name@),
            same_but_store(*old(self), *final(self)),
            final(self).store.cells@ == match method {
                Some(func) => old(self).store.retained(func.closure.vars@),
                None => old(self).store.cells@,
            },
    {
        reveal(crate::model::cells_view);
        if idx.0.0 < self.modules.len() {
            if idx.1 < self.modules[idx.0.0].types.len() {
                let ty = &self.modules[idx.0.0].types[idx.1];
                return ty.get_method(name, &mut self.store);
            }
        }
        None
    }

    /// A duplicate of the method `name` of the type of `obj`.
    pub fn get_method(&mut self, obj: &Object, name: &str) -> (method: Option<Function>)
        ensures
            method == old(self).method_of(obj.type_, name@),
            same_but_store(*old(self), *final(self)),
            final(self).store.cells@ == match method {
                Some(func) => old(self).store.retained(func.closure.vars@),
                None => old(self).store.cells@,
            },
    {
        self.get_method_of_type(obj.type_, name)
    }

    /// The type of the object behind `token`, while it lives.
    pub fn type_of(&self, token: &ObjectToken) -> (ty: Option<TypeIndex>)
        ensures
            ty == m_type_of(self@, token@),
            ty == if self.store.live(token@) {
                Some(self.store.object(token@).type_)
            } else {
                None
            },
    {
        reveal(crate::model::cells_view);
        match token.obj(&self.store) {
            Some(object) => Some(object.type_),
            None => None,
        }
    }

    /// Takes the top `num_args` operands off the stack, in stack order.
    pub fn get_args_from_stack(&mut self, num_args: usize) -> (args: Vec<ObjectToken>)
        requires
            num_args <= old(self).thread.operation_stack@.len(),
        ensures
            tokens_view(args@) == old(self)@.stack.subrange(
                old(self)@.stack.len() - num_args,
                old(self)@.stack.len() as int,
            ),
            final(self)@ == (Machine {
                stack: old(self)@.stack.subrange(0, old(self)@.stack.len() - num_args),
                ..old(self)@
            }),
            args@ == old(self).thread.operation_stack@.subrange(
                old(self).thread.operation_stack@.len() - num_args,
                old(self).thread.operation_stack@.len() as int,
            ),
            final(self).thread.operation_stack@ == old(self).thread.operation_stack@.subrange(
                0,
                old(self).thread.operation_stack@.len() - num_args,
            ),
            final(self).thread.frame_stack == old(self).thread.frame_stack,
            final(self).modules == old(self).modules,
            final(self).store == old(self).store,
            final(self).output == old(self).output,
            final(self).budget == old(self).budget,
            final(self).depth == old(self).depth,
    {
        reveal(crate::model::cells_view);
        reveal(crate::model::tokens_view);
        reveal(crate::model::frames_view);
        reveal(crate::model::lines_view);
        let at = self.thread.operation_stack.len() - num_args;
        proof {
            let stack = self.thread.operation_stack@;
            lemma_tokens_subrange(stack, 0, at as int);
            lemma_tokens_subrange(stack, at as int, stack.len() as int);
        }
        self.thread.operation_stack.split_off(at)
    }
}

impl Default for Interpreter {
    /// The interpreter that [`Interpreter::new`] makes.
    fn default() -> (interpreter: Interpreter)
        ensures
            interpreter.is_bootstrapped(),
            interpreter.modules@.len() == 1,
            interpreter.store.cells@.len() == 6,
            interpreter.thread.operation_stack@.len() == 0,
            interpreter.thread.frame_stack@.len() == 0,
            interpreter.output@.len() == 0,
            interpreter.budget == DEFAULT_BUDGET,
            interpreter.depth == 0,
    {
        Interpreter::new()
    }
}

} // verus!
