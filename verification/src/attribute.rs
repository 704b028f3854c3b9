//! Plain descriptions of the attributes and arguments that the macros read.
//!
//! The macro shell parses the compiler's tokens with `syn` and fills these values in; the
//! generators decide everything from them.
use vstd::prelude::*;

use crate::text::str_eq;
use crate::types::TypeModel;

verus! {

/// The value written after `=` in a `key = value` argument.
#[derive(Debug)]
pub enum ArgValue {
    /// A string literal, with its unescaped content.
    Str(String),
    /// Any other literal: a number, a boolean, a character...
    OtherLiteral,
    /// An expression that is not a literal, such as a bare identifier.
    NotLiteral,
}

/// One `key = value` argument.
#[derive(Debug)]
pub struct NameValueArg {
    /// The key, when the path before `=` is a single identifier.
    pub key: Option<String>,
    pub value: ArgValue,
}

/// One item of a comma-separated list of meta items, as in the arguments of
/// `#[canyon_entity(table_name = "...", schema = "...")]`.
#[derive(Debug)]
pub enum MetaArg {
    /// A `key = value` item.
    NameValue(NameValueArg),
    /// A bare path or a parenthesized list.
    Other,
}

/// One `name = Ident` pair of an identifier-valued argument list, as in
/// `#[canyon_crud(maps_to = League)]`.
#[derive(Debug)]
pub struct IdentPair {
    pub name: String,
    pub value: String,
}

/// The three shapes of an attribute's meta item: `#[a]`, `#[a(...)]`, `#[a = ...]`.
#[derive(Debug, Clone, Copy, PartialEq, Eq, Structural)]
pub enum MetaStyle {
    Path,
    List,
    NameValue,
}

/// An attribute path such as `canyon_entity` or `canyon_macros::canyon_entity`.
#[derive(Debug)]
pub struct PathModel {
    /// The identifier of each segment, in order.
    pub segments: Vec<String>,
    /// The path has no leading `::` and no generic arguments.
    pub is_plain: bool,
}

/// One outer attribute `#[...]`.
#[derive(Debug)]
pub struct AttributeModel {
    pub path: PathModel,
    pub style: MetaStyle,
    /// The attribute's arguments read as a comma-separated list of `key = value` items,
    /// or the parser's message when they do not read so (always for `#[a]` and `#[a = v]`).
    pub args: Result<Vec<NameValueArg>, String>,
    /// The arguments read as a comma-separated list of `name = Ident` pairs, or the
    /// parser's message when they do not read so.
    pub ident_pairs: Result<Vec<IdentPair>, String>,
}

/// One field of a struct: its name (`None` in a tuple struct), its type and its
/// attributes.
#[derive(Debug)]
pub struct FieldModel {
    pub ident: Option<String>,
    pub ty: TypeModel,
    pub attrs: Vec<AttributeModel>,
}

/// The input of a derive macro: the type's name, its attributes and, for a struct, its
/// fields (`None` for an enum or a union).
#[derive(Debug)]
pub struct DeriveModel {
    pub ident: String,
    pub attrs: Vec<AttributeModel>,
    pub fields: Option<Vec<FieldModel>>,
}

/// Every field has a name.
pub open spec fn all_named(fields: Seq<FieldModel>) -> bool {
    forall|i: int| 0 <= i < fields.len() ==> (#[trigger] fields[i]).ident is Some
}

/// The attributes of a field carry the attribute `name` as the first segment of a path.
pub open spec fn has_target_attribute(f: FieldModel, name: Seq<char>) -> bool {
    exists|j: int| 0 <= j < f.attrs@.len() && first_segment((#[trigger] f.attrs@[j]).path) == Some(name)
}

/// Whether some attribute of the field has `target_attribute` as the first segment of its
/// path.
pub fn field_has_target_attribute(field: &FieldModel, target_attribute: &str) -> (r: bool)
    ensures
        r == has_target_attribute(*field, target_attribute@),
{
    let mut j: usize = 0;
    while j < field.attrs.len()
        invariant
            j <= field.attrs@.len(),
            forall|k: int| 0 <= k < j ==> first_segment((#[trigger] field.attrs@[k]).path) != Some(target_attribute@),
        decreases field.attrs@.len() - j,
    {
        if first_segment_is(&field.attrs[j].path, target_attribute) {
            return true;
        }
        j = j + 1;
    }
    false
}

/// The identifier of a path that is one plain segment (`syn::Path::get_ident`).
pub open spec fn path_ident(p: PathModel) -> Option<Seq<char>> {
    if p.is_plain && p.segments@.len() == 1 {
        Some(p.segments@[0]@)
    } else {
        None
    }
}

/// The path is exactly the identifier `name` (`syn::Path::is_ident`).
pub open spec fn path_is_ident(p: PathModel, name: Seq<char>) -> bool {
    path_ident(p) == Some(name)
}

/// The identifier of the path's first segment, if it has one.
pub open spec fn first_segment(p: PathModel) -> Option<Seq<char>> {
    if p.segments@.len() > 0 {
        Some(p.segments@[0]@)
    } else {
        None
    }
}

/// The identifier of the path's last segment, if it has one.
pub open spec fn last_segment(p: PathModel) -> Option<Seq<char>> {
    if p.segments@.len() > 0 {
        Some(p.segments@.last()@)
    } else {
        None
    }
}

/// The identifier of a path that is one plain segment.
pub fn get_ident(p: &PathModel) -> (r: Option<&String>)
    ensures
        r matches Some(s) ==> path_ident(*p) == Some(s@),
        r is None ==> path_ident(*p) is None,
{
    if p.is_plain && p.segments.len() == 1 {
        Some(&p.segments[0])
    } else {
        None
    }
}

/// Whether the path is exactly the identifier `name`.
pub fn is_ident(p: &PathModel, name: &str) -> (r: bool)
    ensures
        r == path_is_ident(*p, name@),
{
    match get_ident(p) {
        Some(ident) => str_eq(ident.as_str(), name),
        None => false,
    }
}

/// Whether the path's first segment is `name`.
pub fn first_segment_is(p: &PathModel, name: &str) -> (r: bool)
    ensures
        r == (first_segment(*p) == Some(name@)),
{
    if p.segments.len() == 0 {
        false
    } else {
        str_eq(p.segments[0].as_str(), name)
    }
}

/// Whether the path's last segment is `name`.
pub fn last_segment_is(p: &PathModel, name: &str) -> (r: bool)
    ensures
        r == (last_segment(*p) == Some(name@)),
{
    let n = p.segments.len();
    if n == 0 {
        false
    } else {
        str_eq(p.segments[n - 1].as_str(), name)
    }
}

} // verus!
