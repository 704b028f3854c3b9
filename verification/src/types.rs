//! Plain descriptions of the Rust types of entity fields, and how SQL Server rows are read
//! into them.
use vstd::prelude::*;

use crate::error::{err_view, macro_error, ErrorSpan, ErrorView, MacroError};
use crate::text::{str_eq, string_of};

verus! {

/// A Rust type as written on a struct field.
#[derive(Debug)]
pub struct TypeModel {
    /// The type's tokens as text, as `proc_macro2` prints them (`Option < String >`).
    pub text: String,
    /// The segments of the type's path, when the type is a path type such as
    /// `std::option::Option<T>`; `None` for references, tuples, arrays and the like.
    pub path: Option<Vec<PathSegmentModel>>,
}

/// One segment of a type path: `Option<T>` is the identifier `Option` with one
/// angle-bracketed argument.
#[derive(Debug)]
pub struct PathSegmentModel {
    pub ident: String,
    pub arguments: SegmentArgs,
}

/// The arguments of a path segment.
#[derive(Debug)]
pub enum SegmentArgs {
    NoArguments,
    AngleBracketed(Vec<GenericArgModel>),
    Parenthesized,
}

/// One generic argument between angle brackets.
#[derive(Debug)]
pub enum GenericArgModel {
    /// A type argument.
    Type(TypeModel),
    /// A lifetime, const or associated-item argument.
    Other,
}

/// The identifier of the last segment of the type's path, when it is a path type with a
/// segment.
pub open spec fn last_segment_ident(t: TypeModel) -> Option<Seq<char>> {
    match t.path {
        Some(segs) => if segs@.len() > 0 {
            Some(segs@.last().ident@)
        } else {
            None
        },
        None => None,
    }
}

/// The diagnostic for an `Option` type without exactly one type argument.
pub open spec fn option_arity_error() -> ErrorView {
    err_view(ErrorSpan::TargetType, "Option fields must declare exactly one inner type"@)
}

/// What `Option` detection gives for a type: `Ok(None)` when the last segment of its path
/// is not `Option`, `Ok(Some(inner))` for `Option<inner>`, the diagnostic for an `Option`
/// whose arguments are not exactly one type.
pub open spec fn spec_option_inner(t: TypeModel) -> Result<Option<TypeModel>, ErrorView> {
    if last_segment_ident(t) != Some("Option"@) {
        Ok(None)
    } else {
        match t.path->0@.last().arguments {
            SegmentArgs::AngleBracketed(args) => if args@.len() == 1 && args@[0] is Type {
                Ok(Some(args@[0]->Type_0))
            } else {
                Err(option_arity_error())
            },
            _ => Err(option_arity_error()),
        }
    }
}

/// The type SQL Server values are read as.
#[derive(Debug)]
pub enum DeserializingType<'a> {
    /// `&str`, for `String` fields, converted to an owned value afterwards.
    BorrowedStr,
    /// The field's own type, or the inner type of its `Option`.
    AsDeclared(&'a TypeModel),
}

impl<'a> DeserializingType<'a> {
    /// The tokens of the type as text.
    pub open spec fn spec_text(&self) -> Seq<char> {
        match self {
            DeserializingType::BorrowedStr => "& str"@,
            DeserializingType::AsDeclared(t) => t.text@,
        }
    }

    /// The tokens of the type as text: `& str`, or the declared type's text.
    pub fn to_string(&self) -> (r: String)
        ensures
            r@ == self.spec_text(),
    {
        match self {
            DeserializingType::BorrowedStr => string_of("& str"),
            DeserializingType::AsDeclared(t) => string_of(t.text.as_str()),
        }
    }
}

/// How a field of type `t` is read from a SQL Server row: the type read (`& str` when the
/// type, or the inner type of its `Option`, is a path ending in `String`), whether the
/// field is an `Option`, and whether the value read is converted to an owned `String`.
pub open spec fn spec_sqlserver_deserialization(t: TypeModel) -> Result<
    (Seq<char>, bool, bool),
    ErrorView,
> {
    match spec_option_inner(t) {
        Err(e) => Err(e),
        Ok(inner) => {
            let (ty, optional) = match inner {
                Some(i) => (i, true),
                None => (t, false),
            };
            let owned = last_segment_ident(ty) == Some("String"@);
            Ok(
                (
                    if owned {
                        "& str"@
                    } else {
                        ty.text@
                    },
                    optional,
                    owned,
                ),
            )
        },
    }
}

/// The inner type of an `Option` field type, `None` for any other type.
pub fn option_inner_type(target_type: &TypeModel) -> (r: Result<Option<&TypeModel>, MacroError>)
    ensures
        match r {
            Ok(Some(i)) => spec_option_inner(*target_type) == Ok::<Option<TypeModel>, ErrorView>(
                Some(*i),
            ),
            Ok(None) => spec_option_inner(*target_type) == Ok::<Option<TypeModel>, ErrorView>(
                None,
            ),
            Err(e) => spec_option_inner(*target_type) == Err::<Option<TypeModel>, ErrorView>(e@),
        },
{
    if !type_path_ends_with(target_type, "Option") {
        return Ok(None);
    }
    let segments = match &target_type.path {
        Some(segments) => segments,
        None => return Ok(None),
    };
    let last = &segments[segments.len() - 1];
    match &last.arguments {
        SegmentArgs::AngleBracketed(args) => {
            if args.len() == 1 {
                match &args[0] {
                    GenericArgModel::Type(inner) => return Ok(Some(inner)),
                    GenericArgModel::Other => {},
                }
            }
        },
        _ => {},
    }
    Err(
        macro_error(
            ErrorSpan::TargetType,
            string_of("Option fields must declare exactly one inner type"),
        ),
    )
}

/// Whether the type is a path whose last segment is `expected`.
pub fn type_path_ends_with(target_type: &TypeModel, expected: &str) -> (r: bool)
    ensures
        r == (last_segment_ident(*target_type) == Some(expected@)),
{
    match &target_type.path {
        Some(segments) => {
            let n = segments.len();
            if n == 0 {
                false
            } else {
                str_eq(segments[n - 1].ident.as_str(), expected)
            }
        },
        None => false,
    }
}

/// How a field of type `target_type` is read from a SQL Server row: the type read, whether
/// the field is optional, and whether the value read is converted into an owned value.
pub fn sqlserver_deserialization_type(target_type: &TypeModel) -> (r: Result<
    (DeserializingType, bool, bool),
    MacroError,
>)
    ensures
        match r {
            Ok((d, optional, owned)) => spec_sqlserver_deserialization(*target_type) == Ok::<
                (Seq<char>, bool, bool),
                ErrorView,
            >((d.spec_text(), optional, owned)),
            Err(e) => spec_sqlserver_deserialization(*target_type) == Err::<
                (Seq<char>, bool, bool),
                ErrorView,
            >(e@),
        },
{
    let optional_inner = option_inner_type(target_type)?;
    let (inner_type, is_optional) = match optional_inner {
        Some(inner) => (inner, true),
        None => (target_type, false),
    };
    let convert_to_owned = type_path_ends_with(inner_type, "String");
    let deserializing_type = if convert_to_owned {
        DeserializingType::BorrowedStr
    } else {
        DeserializingType::AsDeclared(inner_type)
    };
    Ok((deserializing_type, is_optional, convert_to_owned))
}

/// How the value read from a SQL Server row becomes the field's value.
#[derive(Debug, Clone, Copy, PartialEq, Eq, Structural)]
pub enum OwnedConversion {
    /// The value is the field's value as read.
    Keep,
    /// `.map(ToOwned::to_owned)`, for an optional borrowed string.
    MapToOwned,
    /// `.to_owned()`, for a borrowed string.
    ToOwned,
}

/// How one field is read from a SQL Server row.
#[derive(Debug)]
pub struct TiberiusFieldReading<'a> {
    /// The type the column is read as.
    pub deserializing_type: DeserializingType<'a>,
    /// A missing value is refused as an unexpected null (the field is no `Option`).
    pub require_value: bool,
    pub conversion: OwnedConversion,
}

/// How a field of type `target_type` is read from a SQL Server row: a field that is no
/// `Option` refuses a null, and a borrowed string is turned into an owned one.
pub fn tiberius_field_reading(target_type: &TypeModel) -> (r: Result<TiberiusFieldReading, MacroError>)
    ensures
        match spec_sqlserver_deserialization(*target_type) {
            Ok((text, optional, owned)) => r matches Ok(p) && {
                &&& p.deserializing_type.spec_text() == text
                &&& p.require_value == !optional
                &&& p.conversion == (if !owned {
                    OwnedConversion::Keep
                } else if optional {
                    OwnedConversion::MapToOwned
                } else {
                    OwnedConversion::ToOwned
                })
            },
            Err(e) => r matches Err(re) && re@ == e,
        },
{
    let (deserializing_type, is_optional, convert_to_owned) = sqlserver_deserialization_type(
        target_type,
    )?;
    let conversion = if !convert_to_owned {
        OwnedConversion::Keep
    } else if is_optional {
        OwnedConversion::MapToOwned
    } else {
        OwnedConversion::ToOwned
    };
    Ok(TiberiusFieldReading { deserializing_type, require_value: !is_optional, conversion })
}

/// A field of type `Option<T>`, where `T` is no `Option` itself, is read from a SQL Server
/// row as a field of type `T` is, except that it is optional.
pub proof fn law_option_reads_as_inner(t: TypeModel, inner: TypeModel)
    requires
        spec_option_inner(t) == Ok::<Option<TypeModel>, ErrorView>(Some(inner)),
        spec_option_inner(inner) == Ok::<Option<TypeModel>, ErrorView>(None),
    ensures
        spec_sqlserver_deserialization(inner) matches Ok((text, optional, owned)) && !optional
            && spec_sqlserver_deserialization(t) == Ok::<(Seq<char>, bool, bool), ErrorView>(
            (text, true, owned),
        ),
{
}

} // verus!
