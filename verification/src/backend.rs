//! What this crate takes on trust from `inkwell`, the LLVM binding.
//!
//! The backend's handles are opaque here: nothing is assumed of what is
//! behind one. What has a name is what contracts need to speak of: the
//! assembly and the functions that a module holds, the 64-bit integer type
//! of a context, and the constant of a type for given bits.
use inkwell::builder::Builder;
use inkwell::context::Context;
use inkwell::module::Module;
use inkwell::types::{FunctionType, IntType};
use inkwell::values::{AnyValueEnum, FunctionValue, IntValue};
use vstd::prelude::*;

verus! {

/// `inkwell::context::Context`: owns everything the backend creates.
#[verifier::external_type_specification]
#[verifier::external_body]
pub struct ExContext(Context);

/// `inkwell::builder::Builder`: appends instructions.
#[verifier::external_type_specification]
#[verifier::external_body]
pub struct ExBuilder<'ctx>(Builder<'ctx>);

/// `inkwell::module::Module`: one unit of generated code.
#[verifier::external_type_specification]
#[verifier::external_body]
pub struct ExModule<'ctx>(Module<'ctx>);

/// `inkwell::types::IntType`: an integer type of some width.
#[verifier::external_type_specification]
#[verifier::external_body]
pub struct ExIntType<'ctx>(IntType<'ctx>);

/// `inkwell::types::FunctionType`: the signature of a function.
#[verifier::external_type_specification]
#[verifier::external_body]
pub struct ExFunctionType<'ctx>(FunctionType<'ctx>);

/// `inkwell::values::IntValue`: a handle to an integer value.
#[verifier::external_type_specification]
#[verifier::external_body]
pub struct ExIntValue<'ctx>(IntValue<'ctx>);

/// `inkwell::values::FunctionValue`: a handle to a function in a module.
#[verifier::external_type_specification]
#[verifier::external_body]
pub struct ExFunctionValue<'ctx>(FunctionValue<'ctx>);

/// `inkwell::values::AnyValueEnum`: a handle to a value of any kind.
#[verifier::external_type_specification]
#[verifier::external_body]
pub struct ExAnyValueEnum<'ctx>(AnyValueEnum<'ctx>);

/// `Context::create` makes a fresh context. Nothing is claimed of it.
pub assume_specification[ Context::create ]() -> Context;

/// `Context::create_builder` makes a builder in the context. Nothing is
/// claimed of it.
pub assume_specification<'a>[ Context::create_builder ](context: &'a Context) -> Builder<'a>;

/// The functions that a module holds, by their handles. A module changes
/// only where it is handed over as `&mut`.
pub uninterp spec fn module_functions(module: Module<'_>) -> Set<FunctionValue<'_>>;

/// `Context::create_module` makes a new module in the context: one that
/// holds no function yet. Nothing is claimed of its name: LLVM reads `name`
/// up to the first NUL.
pub assume_specification<'a>[ Context::create_module ](context: &'a Context, name: &str) -> (module:
    Module<'a>)
    ensures
        module_functions(module) == Set::<FunctionValue<'a>>::empty(),
;

/// The 64-bit integer type of a context: what `Context::i64_type` gives.
pub uninterp spec fn i64_type_of(context: &Context) -> IntType<'_>;

/// `Context::i64_type` gives the 64-bit integer type of the context, the
/// same at every call.
pub assume_specification<'a>[ Context::i64_type ](context: &'a Context) -> (ty: IntType<'a>)
    ensures
        ty == i64_type_of(context),
;

/// The constant of the type `ty` that `IntType::const_int` gives for the
/// bits `value`.
pub uninterp spec fn const_int_of(ty: IntType<'_>, value: u64, sign_extend: bool) -> IntValue<'_>;

/// `IntType::const_int` gives the handle of the constant of the type with
/// the bits `value`. LLVM keeps one constant for a type and a value, so the
/// handle depends on the arguments alone.
pub assume_specification<'ctx>[ IntType::<'ctx>::const_int ](
    ty: IntType<'ctx>,
    value: u64,
    sign_extend: bool,
) -> (constant: IntValue<'ctx>)
    ensures
        constant == const_int_of(ty, value, sign_extend),
;

/// What a module holds, as the LLVM assembly that `Module::print_to_string`
/// renders it to. A module changes only where it is handed over as `&mut`.
pub uninterp spec fn module_assembly(module: Module<'_>) -> Seq<char>;

/// `Module::add_function` makes a new function of type `ty`, with external
/// linkage, adds it to the module and gives its handle: the module holds
/// the functions it held and this one, which it did not hold before. The
/// module is taken as `&mut` because the call changes what it holds. Nothing
/// is claimed of the name that the function gets, nor of the assembly
/// afterwards.
#[verifier::external_body]
pub(crate) fn add_function<'ctx>(
    module: &mut Module<'ctx>,
    name: &str,
    ty: FunctionType<'ctx>,
) -> (handle: FunctionValue<'ctx>)
    ensures
        !module_functions(*old(module)).contains(handle),
        module_functions(*final(module)) == module_functions(*old(module)).insert(handle),
{
    module.add_function(name, ty, None)
}

/// `Module::print_to_string` renders what the module holds as LLVM assembly;
/// the text is copied out of LLVM's string with `LLVMString::to_string`. The
/// module is not changed.
#[verifier::external_body]
pub(crate) fn module_text(module: &Module<'_>) -> (text: String)
    ensures
        text@ == module_assembly(*module),
{
    module.print_to_string().to_string()
}

} // verus!
