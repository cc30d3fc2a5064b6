//! The registry: types with their method tables, and the modules that own
//! them.
use vstd::prelude::*;
use crate::function::{Code, Function, NativeProc, Scope};
use crate::instruction::Instruction;
use crate::model::{lemma_tokens_push, tokens_view};
use crate::moduledef::{FunctionDef, TypeDef};
use crate::names::{first_position, lemma_position_unique, names_distinct};
use crate::object::{ModuleIndex, ObjectStore, ObjectToken, Payload, TypeIndex};
use crate::table::{entries_map, entry_names, lemma_entries_map_front, Entry, NameTable};

verus! {

/// A runtime type: a name, a method table and the scope that the type's
/// methods close over.
pub struct Type {
    pub name: String,
    pub methods: NameTable<Function>,
    pub scope: Scope,
    pub index: TypeIndex,
}

/// A module: an ordered, append-only list of types and a scope for the
/// module's global bindings.
pub struct Module {
    pub name: String,
    pub index: ModuleIndex,
    pub types: Vec<Type>,
    pub globals: Scope,
}

/// The names of a sequence of types, in order.
pub open spec fn type_names(types: Seq<Type>) -> Seq<Seq<char>> {
    Seq::new(types.len(), |i: int| types[i].name@)
}

/// Whether a method table holds exactly the functions that `def` describes,
/// each closed over `scope`.
pub open spec fn methods_match(
    methods: Map<Seq<char>, Function>,
    def: Map<Seq<char>, FunctionDef>,
    scope: Scope,
) -> bool {
    &&& forall|name: Seq<char>| #[trigger] methods.dom().contains(name) == def.dom().contains(name)
    &&& forall|name: Seq<char>| #[trigger]
        def.dom().contains(name) ==> def[name].describes(methods[name], scope)
}

/// Whether the store `after` is the store `before` with one more object: a
/// scope without bindings, in the cell that follows those of `before`.
pub open spec fn adds_scope(before: ObjectStore, after: ObjectStore) -> bool {
    let fresh = before.cells@.len() as int;
    &&& after.cells@.len() == fresh + 1
    &&& after.cells@.subrange(0, fresh) == before.cells@
    &&& after.is_scope(fresh)
    &&& after.count(fresh) >= 1
    &&& after.object(fresh).members.entries@.len() == 0
    &&& after.object(fresh).data == Payload::Empty
    &&& before.tables_distinct() ==> after.tables_distinct()
}

/// Whether the scope of `ty` counts one handle for the type and one for
/// the closure of each method that the type holds.
pub open spec fn scope_counted(store: ObjectStore, ty: Type) -> bool {
    store.count(ty.scope.vars@) == 1 + ty.methods.entries@.len()
}

impl Type {
    /// A type without methods, with a new scope of its own.
    pub fn new(name: &str, index: TypeIndex, store: &mut ObjectStore) -> (ty: Type)
        ensures
            ty.name@ == name@,
            ty.index == index,
            ty.methods@ == Map::<Seq<char>, Function>::empty(),
            ty.methods.entries@.len() == 0,
            ty.methods.distinct(),
            ty.scope.vars@ == old(store).cells@.len(),
            adds_scope(*old(store), *final(store)),
            final(store).count(ty.scope.vars@) == 1,
    {
        Type { name: name.to_owned(), methods: NameTable::new(), scope: Scope::new(store), index }
    }

    /// The scope that the type's methods close over.
    pub fn scope(&self) -> (scope: &Scope)
        ensures
            *scope == self.scope,
    {
        &self.scope
    }

    /// A duplicate of the method `name`, if the type has one.
    pub fn get_method(&self, name: &str, store: &mut ObjectStore) -> (method: Option<Function>)
        ensures
            method == if self.methods@.dom().contains(name@) {
                Some(self.methods@[name@])
            } else {
                None
            },
            final(store).cells@ == match method {
                Some(func) => old(store).retained(func.closure.vars@),
                None => old(store).cells@,
            },
            final(store)@ == match method {
                Some(func) => crate::model::m_retain(old(store)@, func.closure.vars@),
                None => old(store)@,
            },
    {
        match self.methods.get(name) {
            Some(func) => Some(func.dup(store)),
            None => None,
        }
    }

    /// Enters `func` as the method `name` and hands back the function that
    /// the name stood for before.
    pub fn register_method(&mut self, name: &str, func: Function) -> (displaced: Option<Function>)
        ensures
            final(self).methods@ == old(self).methods@.insert(name@, func),
            displaced == if old(self).methods@.dom().contains(name@) {
                Some(old(self).methods@[name@])
            } else {
                None
            },
            final(self).name == old(self).name,
            final(self).scope == old(self).scope,
            final(self).index == old(self).index,
            old(self).methods.distinct() ==> final(self).methods.distinct(),
    {
        self.methods.insert(name.to_owned(), func)
    }

    /// Enters a native procedure as the method `name`, closed over the
    /// type's scope.  A method takes its receiver as its first argument.
    pub fn register_native_method(
        &mut self,
        name: &str,
        arity: usize,
        code: NativeProc,
        store: &mut ObjectStore,
    ) -> (displaced: Option<Function>)
        requires
            arity >= 1,
        ensures
            final(self).methods@.dom() == old(self).methods@.dom().insert(name@),
            final(self).methods@[name@].arity == arity,
            *final(self).methods@[name@].code.body == crate::function::Body::Native(code),
            final(self).methods@[name@].closure == old(self).scope,
            forall|other: Seq<char>|
                other != name@ && old(self).methods@.dom().contains(other)
                    ==> final(self).methods@[other] == old(self).methods@[other],
            displaced == if old(self).methods@.dom().contains(name@) {
                Some(old(self).methods@[name@])
            } else {
                None
            },
            final(self).name == old(self).name,
            final(self).scope == old(self).scope,
            final(self).index == old(self).index,
            old(self).methods.distinct() ==> final(self).methods.distinct(),
            final(store).cells@ == old(store).retained(old(self).scope.vars@),
    {
        let scope = self.scope.dup(store);
        self.register_method(name, Function::new(code, arity, scope))
    }

    /// Enters a sequence of instructions as the method `name`, closed over
    /// the type's scope.  A method takes its receiver as its first argument.
    pub fn register_bytecode_method(
        &mut self,
        name: &str,
        arity: usize,
        instructions: Vec<Instruction>,
        store: &mut ObjectStore,
    ) -> (displaced: Option<Function>)
        requires
            arity >= 1,
        ensures
            final(self).methods@.dom() == old(self).methods@.dom().insert(name@),
            final(self).methods@[name@].arity == arity,
            *final(self).methods@[name@].code.body == crate::function::Body::Bytecode(
                instructions,
            ),
            final(self).methods@[name@].closure == old(self).scope,
            forall|other: Seq<char>|
                other != name@ && old(self).methods@.dom().contains(other)
                    ==> final(self).methods@[other] == old(self).methods@[other],
            displaced == if old(self).methods@.dom().contains(name@) {
                Some(old(self).methods@[name@])
            } else {
                None
            },
            final(self).name == old(self).name,
            final(self).scope == old(self).scope,
            final(self).index == old(self).index,
            old(self).methods.distinct() ==> final(self).methods.distinct(),
            final(store).cells@ == old(store).retained(old(self).scope.vars@),
    {
        let code = Code::create(instructions);
        let scope = self.scope.dup(store);
        self.register_method(name, Function::from_code(code, arity, scope))
    }
}

/// The closures of a sequence of methods, in order.
pub open spec fn closures_of(entries: Seq<Entry<Function>>) -> Seq<int> {
    Seq::new(entries.len(), |k: int| entries[k].value.closure.vars@)
}

/// The handles that a type holds: its scope, then the closures of its
/// methods in the order of the method table.
pub open spec fn type_handles(ty: Type) -> Seq<int> {
    seq![ty.scope.vars@] + closures_of(ty.methods.entries@)
}

/// The handles that the first `n` of `types` hold, type by type.
pub open spec fn types_handles(types: Seq<Type>, n: int) -> Seq<int>
    decreases n,
{
    if n <= 0 {
        Seq::empty()
    } else {
        types_handles(types, n - 1) + type_handles(types[n - 1])
    }
}

/// The handles that the types of the first `n` of `modules` hold, module
/// by module.
pub open spec fn registry_types(modules: Seq<Module>, n: int) -> Seq<int>
    decreases n,
{
    if n <= 0 {
        Seq::empty()
    } else {
        registry_types(modules, n - 1) + types_handles(
            modules[n - 1].types@,
            modules[n - 1].types@.len() as int,
        )
    }
}

/// The globals scopes of the first `n` of `modules`, in order.
pub open spec fn registry_globals(modules: Seq<Module>, n: int) -> Seq<int>
    decreases n,
{
    if n <= 0 {
        Seq::empty()
    } else {
        registry_globals(modules, n - 1).push(modules[n - 1].globals.vars@)
    }
}

/// Every handle that a registry holds: those of the types first, in the
/// order in which the types were registered, then the globals scopes of
/// the modules.
pub open spec fn registry_handles(modules: Seq<Module>) -> Seq<int> {
    registry_types(modules, modules.len() as int) + registry_globals(
        modules,
        modules.len() as int,
    )
}

impl Type {
    /// Appends to `out` the handles that the type holds, for the teardown
    /// of the interpreter, which takes them over from the registry.
    pub(crate) fn hand_over(&self, out: &mut Vec<ObjectToken>)
        ensures
            tokens_view(final(out)@) == tokens_view(old(out)@) + type_handles(*self),
    {
        let ghost before = tokens_view(out@);
        let scope = ObjectToken::at(self.scope.vars.index());
        proof {
            lemma_tokens_push(out@, scope);
        }
        out.push(scope);
        let mut k: usize = 0;
        while k < self.methods.entries.len()
            invariant
                k <= self.methods.entries@.len(),
                tokens_view(out@) == before + (seq![self.scope.vars@] + closures_of(
                    self.methods.entries@,
                ).subrange(0, k as int)),
            decreases self.methods.entries@.len() - k,
        {
            let closure = ObjectToken::at(self.methods.entries[k].value.closure.vars.index());
            proof {
                lemma_tokens_push(out@, closure);
                let closures = closures_of(self.methods.entries@);
                assert((before + (seq![self.scope.vars@] + closures.subrange(0, k as int))).push(
                    closure@,
                ) =~= before + (seq![self.scope.vars@] + closures.subrange(0, k + 1)));
            }
            out.push(closure);
            k = k + 1;
        }
        proof {
            let closures = closures_of(self.methods.entries@);
            assert(closures.subrange(0, closures.len() as int) =~= closures);
        }
    }
}

impl Module {
    /// Appends to `out` the handles that the types of the module hold, for
    /// the teardown of the interpreter.
    pub(crate) fn hand_over_types(&self, out: &mut Vec<ObjectToken>)
        ensures
            tokens_view(final(out)@) == tokens_view(old(out)@) + types_handles(
                self.types@,
                self.types@.len() as int,
            ),
    {
        let ghost before = tokens_view(out@);
        let mut j: usize = 0;
        while j < self.types.len()
            invariant
                j <= self.types@.len(),
                tokens_view(out@) == before + types_handles(self.types@, j as int),
            decreases self.types@.len() - j,
        {
            let ghost so_far = tokens_view(out@);
            self.types[j].hand_over(out);
            proof {
                assert(so_far + type_handles(self.types@[j as int]) =~= before + types_handles(
                    self.types@,
                    j + 1,
                ));
            }
            j = j + 1;
        }
    }

    /// The names of the module's types, in order.
    pub open spec fn type_names(&self) -> Seq<Seq<char>> {
        type_names(self.types@)
    }

    /// A module without types, with a new globals scope.
    pub fn new(index: ModuleIndex, name: &str, store: &mut ObjectStore) -> (module: Module)
        ensures
            module.name@ == name@,
            module.index == index,
            module.types@.len() == 0,
            module.globals.vars@ == old(store).cells@.len(),
            adds_scope(*old(store), *final(store)),
            final(store).count(module.globals.vars@) == 1,
    {
        Module { name: name.to_owned(), index, types: Vec::new(), globals: Scope::new(store) }
    }

    /// The position of the first type with this name.
    pub fn lookup_type_index(&self, name: &str) -> (at: Option<usize>)
        ensures
            match at {
                Some(i) => first_position(self.type_names(), name@) == Some(i as int) && i
                    < self.types@.len(),
                None => first_position(self.type_names(), name@) is None,
            },
    {
        let mut i: usize = 0;
        while i < self.types.len()
            invariant
                i <= self.types@.len(),
                forall|j: int| 0 <= j < i ==> self.type_names()[j] != name@,
            decreases self.types@.len() - i,
        {
            if name.eq(self.types[i].name.as_str()) {
                proof {
                    lemma_position_unique(self.type_names(), name@, 0, Some(i as int));
                }
                return Some(i);
            }
            i = i + 1;
        }
        proof {
            lemma_position_unique(self.type_names(), name@, 0, None);
        }
        None
    }

    /// The first type with this name, to change it.
    pub fn lookup_type_mut(&mut self, name: &str) -> (ty: Option<&mut Type>)
        ensures
            match first_position(old(self).type_names(), name@) {
                Some(i) => ty is Some && *ty->0 == old(self).types@[i] && final(self).types@
                    == old(self).types@.update(i, *final(ty->0)),
                None => ty is None && final(self).types@ == old(self).types@,
            },
            final(self).name == old(self).name,
            final(self).index == old(self).index,
            final(self).globals == old(self).globals,
    {
        match self.lookup_type_index(name) {
            Some(i) => Some(&mut self.types[i]),
            None => None,
        }
    }

    /// Appends a type with the methods that `def` describes, each closed
    /// over the new type's scope, and returns the identity of the type.
    /// The scope then counts one handle for the type and one for each
    /// method; where `def` holds a name twice, the first of the two is the
    /// method and the handle of the other is given up.
    pub fn create_type(&mut self, store: &mut ObjectStore, name: &str, def: TypeDef) -> (index:
        TypeIndex)
        ensures
            index.0 == old(self).index,
        index.1 == old(self).types@.len(),
            final(self).types@.len() == old(self).types@.len() + 1,
            final(self).types@.subrange(0, old(self).types@.len() as int) == old(self).types@,
            final(self).types@.last().name@ == name@,
            final(self).types@.last().index == index,
            final(self).types@.last().scope.vars@ == old(store).cells@.len(),
            final(self).types@.last().methods.distinct(),
            methods_match(
                final(self).types@.last().methods@,
                def.methods@,
                final(self).types@.last().scope,
            ),
            final(self).name == old(self).name,
            final(self).index == old(self).index,
            final(self).globals == old(self).globals,
            adds_scope(*old(store), *final(store)),
            def.methods.entries@.len() + 1 < usize::MAX ==> scope_counted(
                *final(store),
                final(self).types@.last(),
            ),
            final(self).types@.last().methods.entries@.len() <= def.methods.entries@.len(),
            def.methods.distinct() ==> final(self).types@.last().methods.entries@.len()
                == def.methods.entries@.len(),
    {
        let index = TypeIndex(self.index, self.types.len());
        let mut ty = Type::new(name, index, store);
        let ghost all = def.methods.entries@;
        let ghost fresh = old(store).cells@.len() as int;
        let ghost empty_scope = store.object(fresh);
        let mut rest = def.methods;
        assert(entries_map(all.subrange(all.len() as int, all.len() as int)) =~= Map::<
            Seq<char>,
            FunctionDef,
        >::empty());
        loop
            invariant
                rest.entries@ == all.subrange(0, rest.entries@.len() as int),
                rest.entries@.len() <= all.len(),
                ty.name@ == name@,
                ty.index == index,
                ty.methods.distinct(),
                old(store).tables_distinct() ==> store.tables_distinct(),
                ty.scope.vars@ == fresh,
                methods_match(
                    ty.methods@,
                    entries_map(all.subrange(rest.entries@.len() as int, all.len() as int)),
                    ty.scope,
                ),
                store.cells@.len() == fresh + 1,
                store.cells@.subrange(0, fresh) == old(store).cells@,
                store.live(fresh),
                store.count(fresh) >= 1,
                store.object(fresh) == empty_scope,
                ty.methods.entries@.len() + rest.entries@.len() <= all.len(),
                all.len() + 1 < usize::MAX ==> store.count(fresh) == 1 + ty.methods.entries@.len(),
                names_distinct(entry_names(all)) ==> ty.methods.entries@.len()
                    + rest.entries@.len() == all.len(),
            ensures
                rest.entries@.len() == 0,
            decreases rest.entries@.len(),
        {
            let ghost k = rest.entries@.len() as int;
            match rest.pop() {
                None => {
                    break ;
                },
                Some(entry) => {
                    let ghost held = ty.methods.entries@.len();
                    let ghost counted = store.count(fresh);
                    let scope = ty.scope.dup(store);
                    assert(store.count(fresh) == crate::object::count_up(counted));
                    let func = entry.value.into_function(scope);
                    let ghost before = ty.methods@;
                    let ghost names_before = ty.methods.names();
                    let ghost key = entry.name@;
                    proof {
                        crate::names::lemma_position_from(names_before, key, 0);
                        if names_distinct(entry_names(all)) {
                            let later = entry_names(all.subrange(k, all.len() as int));
                            crate::names::lemma_position_from(later, key, 0);
                            if first_position(later, key) is Some {
                                let j = first_position(later, key)->0;
                                assert(later[j] == entry_names(all)[k + j]);
                                assert(key == entry_names(all)[k - 1]);
                            }
                            assert(!before.dom().contains(key));
                        }
                    }
                    let displaced = ty.methods.insert(entry.name, func);
                    match displaced {
                        Some(earlier) => {
                            assert(earlier.closure == ty.scope);
                            assert(ty.methods.entries@.len() == held);
                            store.release(earlier.closure.vars.index());
                        },
                        None => {
                            assert(ty.methods.entries@.len() == held + 1);
                        },
                    }
                    proof {
                        assert(entry == all[k - 1]);
                        lemma_entries_map_front(all, k);
                        assert(store.cells@.subrange(0, fresh) =~= old(store).cells@);
                    }
                },
            }
        }
        proof {
            assert(all.subrange(0, all.len() as int) =~= all);
        }
        self.types.push(ty);
        assert(self.types@.subrange(0, old(self).types@.len() as int) =~= old(self).types@);
        index
    }
}

} // verus!
