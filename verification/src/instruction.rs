//! The instruction set of the stack machine.
use vstd::prelude::*;
use crate::object::TypeIndex;

verus! {

/// One instruction.  Operands travel on the interpreter's operand stack; an
/// instruction that yields a value leaves it pending, and it is pushed
/// before the next instruction runs.
#[derive(Debug, Clone)]
#[allow(inconsistent_fields)]
pub enum Instruction {
    /// Pops `num_args` constructor arguments, makes an object of the type
    /// and runs its `create` hook on it; yields the object.
    CreateObject { type_: TypeIndex, num_args: usize },
    /// Pops a scope handle, then a value handle, and binds `name` to the
    /// value in that scope.
    Assign { name: String },
    /// Yields a handle to the current scope of the active frame.
    GetTopScope,
    /// Yields a handle to the globals scope of the named module.
    GetModuleGlobals { name: String },
    /// Pops the top `num_args + 1` operands, the last of which is the
    /// receiver, and calls the receiver's method `name` on them.
    CallMethod { name: String, num_args: usize, use_result: bool },
    /// Pops an object and yields its member `name`.
    GetMember { name: String },
    /// Resolves `name` along the scope chain of the active frame.
    LookupName { name: String },
    /// Pops `num_args` arguments, then a function object, and calls it.
    CallFunctionObject { num_args: usize, use_result: bool },
    /// Yields a new string object.
    CreateString { value: String },
    /// Yields a new integer object.
    CreateInt { value: i64 },
    /// A point at which a host may inspect the machine.  Changes nothing
    /// and yields nothing.
    Diag,
    /// A look at the top operand, which stays where it is.  Changes
    /// nothing and yields nothing.
    DebugPrintObject,
}

/// The model of an instruction: the instruction with the texts in place
/// of the strings.
#[allow(inconsistent_fields)]
pub enum InstructionM {
    CreateObject { type_: TypeIndex, num_args: usize },
    Assign { name: Seq<char> },
    GetTopScope,
    GetModuleGlobals { name: Seq<char> },
    CallMethod { name: Seq<char>, num_args: usize, use_result: bool },
    GetMember { name: Seq<char> },
    LookupName { name: Seq<char> },
    CallFunctionObject { num_args: usize, use_result: bool },
    CreateString { value: Seq<char> },
    CreateInt { value: i64 },
    Diag,
    DebugPrintObject,
}

impl View for Instruction {
    type V = InstructionM;

    open spec fn view(&self) -> InstructionM {
        match *self {
            Instruction::CreateObject { type_, num_args } => InstructionM::CreateObject {
                type_,
                num_args,
            },
            Instruction::Assign { name } => InstructionM::Assign { name: name@ },
            Instruction::GetTopScope => InstructionM::GetTopScope,
            Instruction::GetModuleGlobals { name } => InstructionM::GetModuleGlobals {
                name: name@,
            },
            Instruction::CallMethod { name, num_args, use_result } => InstructionM::CallMethod {
                name: name@,
                num_args,
                use_result,
            },
            Instruction::GetMember { name } => InstructionM::GetMember { name: name@ },
            Instruction::LookupName { name } => InstructionM::LookupName { name: name@ },
            Instruction::CallFunctionObject {
                num_args,
                use_result,
            } => InstructionM::CallFunctionObject { num_args, use_result },
            Instruction::CreateString { value } => InstructionM::CreateString { value: value@ },
            Instruction::CreateInt { value } => InstructionM::CreateInt { value },
            Instruction::Diag => InstructionM::Diag,
            Instruction::DebugPrintObject => InstructionM::DebugPrintObject,
        }
    }
}

/// The models of a sequence of instructions, in order.
pub open spec fn code_view(program: Seq<Instruction>) -> Seq<InstructionM> {
    Seq::new(program.len(), |i: int| program[i]@)
}

} // verus!
