//! The token types of `proc-macro2` and `syn` that the generators carry, and the one call
//! into `syn` that builds an identifier.
use vstd::prelude::*;

use crate::text::{is_ascii_alnum, is_ascii_upper};

verus! {

/// `proc_macro2::Ident`, an identifier token; carried without looking inside.
#[verifier::external_type_specification]
#[verifier::external_body]
pub struct ExIdent(proc_macro2::Ident);

/// `proc_macro2::TokenStream`, a sequence of tokens; carried without looking inside.
#[verifier::external_type_specification]
#[verifier::external_body]
pub struct ExTokenStream(proc_macro2::TokenStream);

/// `syn::Type`, a parsed Rust type; carried without looking inside.
#[verifier::external_type_specification]
#[verifier::external_body]
pub struct ExType(syn::Type);

/// Whether `syn` accepts the text as a Rust identifier. Keywords such as `Self` are
/// rejected, and so is anything that is not a single identifier token.
pub uninterp spec fn ident_parse_accepts(text: Seq<char>) -> bool;

/// The text of an identifier, as `proc_macro2::Ident::to_string` gives it.
pub uninterp spec fn ident_text(i: proc_macro2::Ident) -> Seq<char>;

/// `text` is made only of ASCII letters, digits and underscores.
pub open spec fn is_ident_chars(text: Seq<char>) -> bool {
    forall|i: int| 0 <= i < text.len() ==> is_ascii_alnum(#[trigger] text[i]) || text[i] == '_'
}

/// `text` is an ASCII type name: an uppercase ASCII letter followed by ASCII letters and
/// digits.
pub open spec fn is_ascii_type_name(text: Seq<char>) -> bool {
    &&& text.len() > 0
    &&& is_ascii_upper(text[0])
    &&& forall|i: int| 0 <= i < text.len() ==> is_ascii_alnum(#[trigger] text[i])
}

/// Parses `text` as an identifier with `syn::parse_str::<proc_macro2::Ident>`.
///
/// The contract states when `syn` accepts the text, through the name
/// `ident_parse_accepts`, and two facts of `syn`'s identifier parser: an ASCII type name
/// other than the keyword `Self` is a single identifier token that is no keyword, so it
/// is accepted; and for a text of ASCII letters, digits and underscores, the identifier
/// returned has exactly that text. What `syn` makes of other texts (whitespace, comments,
/// non-ASCII letters) is left to the name.
#[verifier::external_body]
pub(crate) fn parse_ident(text: &str) -> (r: Option<proc_macro2::Ident>)
    ensures
        r is Some <==> ident_parse_accepts(text@),
        is_ascii_type_name(text@) && text@ != "Self"@ ==> r is Some,
        is_ident_chars(text@) && r is Some ==> ident_text(r->Some_0) == text@,
{
    syn::parse_str::<proc_macro2::Ident>(text).ok()
}

} // verus!
