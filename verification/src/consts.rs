//! The identities and names that the runtime reserves.
use vstd::prelude::*;
use crate::object::{ModuleIndex, TypeIndex};

verus! {

/// The position of the module that holds the built-in types.
pub const CORE_MODULE: usize = 0;

/// The position of the scope type in the core module.
pub const SCOPE_TYPE: usize = 0;

/// The position of the unit type in the core module.
pub const UNIT_TYPE: usize = 1;

/// The position of the function type in the core module.
pub const FUNCTION_TYPE: usize = 2;

/// The method that runs when an object is made.
pub const CREATE_METHOD_NAME: &'static str = "create";

/// The method that runs when the last handle to an object is given up.
pub const DROP_METHOD_NAME: &'static str = "drop";

/// The member of a scope object that holds its parent scope.
pub const PARENT_MEMBER_NAME: &'static str = "!parent";

/// The module that holds the built-in types.
pub open spec fn spec_core_module_id() -> ModuleIndex {
    ModuleIndex(CORE_MODULE)
}

/// The type of scope objects.
pub open spec fn spec_scope_type_id() -> TypeIndex {
    TypeIndex(ModuleIndex(CORE_MODULE), SCOPE_TYPE)
}

/// The type of the stateless "no value" object.
pub open spec fn spec_unit_type_id() -> TypeIndex {
    TypeIndex(ModuleIndex(CORE_MODULE), UNIT_TYPE)
}

/// The type of function objects.
pub open spec fn spec_function_type_id() -> TypeIndex {
    TypeIndex(ModuleIndex(CORE_MODULE), FUNCTION_TYPE)
}

/// The module that holds the built-in types.
#[verifier::when_used_as_spec(spec_core_module_id)]
pub fn core_module_id() -> (id: ModuleIndex)
    ensures
        id == spec_core_module_id(),
{
    ModuleIndex(CORE_MODULE)
}

/// The type of scope objects.
#[verifier::when_used_as_spec(spec_scope_type_id)]
pub fn scope_type_id() -> (id: TypeIndex)
    ensures
        id == spec_scope_type_id(),
{
    TypeIndex(ModuleIndex(CORE_MODULE), SCOPE_TYPE)
}

/// The type of the stateless "no value" object.
#[verifier::when_used_as_spec(spec_unit_type_id)]
pub fn unit_type_id() -> (id: TypeIndex)
    ensures
        id == spec_unit_type_id(),
{
    TypeIndex(ModuleIndex(CORE_MODULE), UNIT_TYPE)
}

/// The type of function objects.
#[verifier::when_used_as_spec(spec_function_type_id)]
pub fn function_type_id() -> (id: TypeIndex)
    ensures
        id == spec_function_type_id(),
{
    TypeIndex(ModuleIndex(CORE_MODULE), FUNCTION_TYPE)
}

} // verus!
