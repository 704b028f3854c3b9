//! Diagnostics produced by the generators.
use vstd::prelude::*;

verus! {

/// The source element a diagnostic points at.
///
/// The generators work on plain descriptions of the macro input; the macro shell turns
/// each variant back into the span of the matching syntax node.
#[derive(Debug, Clone, Copy, PartialEq, Eq, Structural)]
pub enum ErrorSpan {
    /// The macro invocation itself.
    CallSite,
    /// The path of the attribute being read.
    AttributePath,
    /// The attribute's name identifier.
    AttributeIdent,
    /// The key of the argument at this position of the argument list.
    ArgumentKey(usize),
    /// The value of the argument at this position of the argument list.
    ArgumentValue(usize),
    /// The attribute's whole meta item.
    AttributeMeta,
    /// The name of the struct field at this position.
    FieldName(usize),
    /// The struct field at this position, as a whole.
    Field(usize),
    /// The declared type of the field being read.
    TargetType,
    /// The name of the type the macro is attached to.
    TypeIdent,
    /// The name of the function the macro is attached to.
    FunctionIdent,
}

/// A compile-time diagnostic: where it points and what it says.
#[derive(Debug)]
pub struct MacroError {
    pub span: ErrorSpan,
    pub message: String,
}

/// The abstract content of a diagnostic.
pub struct ErrorView {
    pub span: ErrorSpan,
    pub message: Seq<char>,
}

/// The diagnostic with this span and message text.
pub open spec fn err_view(span: ErrorSpan, message: Seq<char>) -> ErrorView {
    ErrorView { span, message }
}

impl View for MacroError {
    type V = ErrorView;

    open spec fn view(&self) -> ErrorView {
        ErrorView { span: self.span, message: self.message@ }
    }
}

/// Builds a diagnostic.
pub fn macro_error(span: ErrorSpan, message: String) -> (r: MacroError)
    ensures
        r@ == err_view(span, message@),
{
    MacroError { span, message }
}

} // verus!
