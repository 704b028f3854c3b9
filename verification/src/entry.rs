//! The checks that the macro entry points make on their input before generating code.
use vstd::prelude::*;

use crate::attribute::{all_named, DeriveModel};
use crate::error::{err_view, macro_error, ErrorSpan, ErrorView, MacroError};
use crate::helpers::filter_fields;
use crate::text::{str_eq, string_of};

verus! {

/// The diagnostic for `#[canyon::main]` on a function not named `main`.
pub open spec fn main_only_error() -> ErrorView {
    err_view(
        ErrorSpan::FunctionIdent,
        "the #[canyon::main] attribute can only be applied to `fn main()`"@,
    )
}

/// `#[canyon::main]` is only accepted on `fn main()`.
pub fn check_main_fn_name(fn_name: &str) -> (r: Result<(), MacroError>)
    ensures
        fn_name@ == "main"@ ==> r is Ok,
        fn_name@ != "main"@ ==> (r matches Err(e) && e@ == main_only_error()),
{
    if str_eq(fn_name, "main") {
        Ok(())
    } else {
        Err(
            macro_error(
                ErrorSpan::FunctionIdent,
                string_of("the #[canyon::main] attribute can only be applied to `fn main()`"),
            ),
        )
    }
}

/// The diagnostic for `ForeignKeyable` on a type that is not a struct.
pub open spec fn foreignkeyable_structs_error() -> ErrorView {
    err_view(ErrorSpan::TypeIdent, "ForeignKeyable only works with Structs"@)
}

/// The columns a `ForeignKeyable` type answers for: the names of its fields, in order.
/// Only structs are accepted.
pub fn foreignkeyable_columns<'a>(ast: &'a DeriveModel) -> (r: Result<Vec<&'a String>, MacroError>)
    requires
        ast.fields matches Some(f) ==> all_named(f@),
    ensures
        ast.fields is None ==> (r matches Err(e) && e@ == foreignkeyable_structs_error()),
        ast.fields matches Some(f) ==> (r matches Ok(v) && v@.len() == f@.len() && forall|i: int|
            0 <= i < v@.len() ==> (#[trigger] v@[i])@ == f@[i].ident->Some_0@),
{
    match &ast.fields {
        Some(fields) => Ok(filter_fields(fields)),
        None => Err(
            macro_error(ErrorSpan::TypeIdent, string_of("ForeignKeyable only works with Structs")),
        ),
    }
}

} // verus!
