//! An embeddable dynamic-object runtime.
//!
//! Every value is a uniformly shaped heap object that lives in an
//! [`ObjectStore`] and is referred to through reference-counted
//! [`ObjectToken`] handles.  Methods are dispatched through per-type method
//! tables, and programs are sequences of [`Instruction`]s that the stack
//! machine of the [`Interpreter`] runs.
pub mod argvec;
pub mod bool_;
pub mod builtins;
pub mod calls;
pub mod consts;
pub mod counting;
pub mod destroy;
pub mod error;
pub mod exactness;
pub mod exec;
pub mod frames;
pub mod function;
pub mod generic;
pub mod hello;
pub mod host;
pub mod instruction;
pub mod int_;
pub mod interpreter;
pub mod laws;
pub mod model;
pub mod moduledef;
pub mod names;
pub mod natives;
pub mod object;
pub mod scope;
pub mod semantics;
pub mod string;
pub mod survivors;
pub mod table;
pub mod teardown;
pub mod text;
pub mod types;

pub use error::{ErrorKind, TriconeError};
pub use function::{Body, Code, Function, NativeKind, NativeProc, Scope};
pub use generic::TriconeDefault;
pub use host::{FirstValue, HostProcedure, HostValue, Hosted, Negation};
pub use instruction::Instruction;
pub use interpreter::Interpreter;
pub use moduledef::{BytecodeFunctionDef, FunctionDef, ModuleDef, NativeFunctionDef, TypeDef};
pub use object::{ModuleIndex, Object, ObjectStore, ObjectToken, Payload, SObject, TypeIndex};
pub use scope::{Frame, Thread};
pub use table::{Entry, NameTable};
pub use types::{Module, Type};
