//! The annotations of entity fields: `#[primary_key]`, `#[primary_key(autoincremental =
//! "false")]` and `#[foreign_key(table = "...", column = "...")]`.
use vstd::prelude::*;

use crate::attribute::{get_ident, path_ident, ArgValue, AttributeModel, NameValueArg};
use crate::error::{err_view, macro_error, ErrorSpan, ErrorView, MacroError};
use crate::text::{bool_text, push_bool, push_str, str_eq, string_of};

verus! {

/// The available annotations for a field that belongs to any struct annotated with
/// `#[canyon_entity]`.
#[derive(Debug, Clone)]
pub enum EntityFieldAnnotation {
    PrimaryKey(bool),
    ForeignKey(String, String),
}

/// The abstract content of an annotation.
pub enum AnnotationView {
    PrimaryKey(bool),
    ForeignKey(Seq<char>, Seq<char>),
}

impl View for EntityFieldAnnotation {
    type V = AnnotationView;

    open spec fn view(&self) -> AnnotationView {
        match self {
            EntityFieldAnnotation::PrimaryKey(b) => AnnotationView::PrimaryKey(*b),
            EntityFieldAnnotation::ForeignKey(t, c) => AnnotationView::ForeignKey(t@, c@),
        }
    }
}

/// The text of an annotation as `get_as_string` writes it.
pub open spec fn annotation_text(a: AnnotationView) -> Seq<char> {
    match a {
        AnnotationView::PrimaryKey(b) => "Annotation: PrimaryKey, Autoincremental: "@ + bool_text(
            b,
        ),
        AnnotationView::ForeignKey(t, c) => "Annotation: ForeignKey, Table: "@ + t
            + ", Column: "@ + c,
    }
}

/// The view of an optional string.
pub open spec fn opt_view(o: Option<String>) -> Option<Seq<char>> {
    match o {
        Some(s) => Some(s@),
        None => None,
    }
}

/// The key of argument `i`, or the diagnostic for a key that is not a single identifier.
pub open spec fn spec_arg_key(arg: NameValueArg, i: usize) -> Result<Seq<char>, ErrorView> {
    match arg.key {
        Some(k) => Ok(k@),
        None => Err(err_view(ErrorSpan::ArgumentKey(i), "Expected argument ident"@)),
    }
}

/// The string value of argument `i`, or the diagnostic for a value that is no string
/// literal.
pub open spec fn spec_string_value(arg: NameValueArg, i: usize) -> Result<Seq<char>, ErrorView> {
    match arg.value {
        ArgValue::Str(s) => Ok(s@),
        ArgValue::OtherLiteral => Err(
            err_view(ErrorSpan::ArgumentValue(i), "Expected string literal"@),
        ),
        ArgValue::NotLiteral => Err(
            err_view(ErrorSpan::ArgumentValue(i), "Expected literal expression"@),
        ),
    }
}

/// The message for a string that is neither `true` nor `false`.
pub open spec fn not_bool_message(value: Seq<char>) -> Seq<char> {
    "Expected boolean string literal, found `"@ + value + "`"@
}

/// The boolean value of argument `i`: a string literal holding exactly `true` or `false`.
pub open spec fn spec_bool_value(arg: NameValueArg, i: usize) -> Result<bool, ErrorView> {
    match spec_string_value(arg, i) {
        Err(e) => Err(e),
        Ok(v) => if v == "true"@ {
            Ok(true)
        } else if v == "false"@ {
            Ok(false)
        } else {
            Err(err_view(ErrorSpan::ArgumentValue(i), not_bool_message(v)))
        },
    }
}

/// The message for an argument key the annotation does not know.
pub open spec fn unknown_argument_message(key: Seq<char>) -> Seq<char> {
    "Unknown annotation argument `"@ + key + "`"@
}

/// Reading argument `i` of a primary key annotation.
pub open spec fn primary_key_step(arg: NameValueArg, i: usize) -> Result<Option<bool>, ErrorView> {
    match spec_arg_key(arg, i) {
        Err(e) => Err(e),
        Ok(k) => if k == "autoincremental"@ {
            match spec_bool_value(arg, i) {
                Ok(b) => Ok(Some(b)),
                Err(e) => Err(e),
            }
        } else {
            Err(err_view(ErrorSpan::ArgumentKey(i), unknown_argument_message(k)))
        },
    }
}

/// The `autoincremental` value after reading the first `n` arguments in order, or the
/// diagnostic of the first argument that is wrong.
pub open spec fn primary_key_scan(args: Seq<NameValueArg>, n: nat) -> Result<
    Option<bool>,
    ErrorView,
>
    decreases n,
{
    if n == 0 {
        Ok(None)
    } else {
        match primary_key_scan(args, (n - 1) as nat) {
            Err(e) => Err(e),
            Ok(_) => primary_key_step(args[n - 1], (n - 1) as usize),
        }
    }
}

/// Reading argument `i` of a foreign key annotation: whether it sets the table (`true`) or
/// the column (`false`), and to what.
pub open spec fn foreign_key_step(arg: NameValueArg, i: usize) -> Result<
    (bool, Seq<char>),
    ErrorView,
> {
    match spec_arg_key(arg, i) {
        Err(e) => Err(e),
        Ok(k) => if k == "table"@ || k == "column"@ {
            match spec_string_value(arg, i) {
                Ok(v) => Ok((k == "table"@, v)),
                Err(e) => Err(e),
            }
        } else {
            Err(err_view(ErrorSpan::ArgumentKey(i), unknown_argument_message(k)))
        },
    }
}

/// The table and column values after reading the first `n` arguments of a foreign key
/// annotation in order, or the diagnostic of the first argument that is wrong.
pub open spec fn foreign_key_scan(args: Seq<NameValueArg>, n: nat) -> Result<
    (Option<Seq<char>>, Option<Seq<char>>),
    ErrorView,
>
    decreases n,
{
    if n == 0 {
        Ok((None, None))
    } else {
        match foreign_key_scan(args, (n - 1) as nat) {
            Err(e) => Err(e),
            Ok(acc) => match foreign_key_step(args[n - 1], (n - 1) as usize) {
                Err(e) => Err(e),
                Ok((is_table, v)) => if is_table {
                    Ok((Some(v), acc.1))
                } else {
                    Ok((acc.0, Some(v)))
                },
            },
        }
    }
}

/// Once an argument is wrong, the primary key reading stays at that argument's diagnostic.
proof fn lemma_primary_key_scan_err(args: Seq<NameValueArg>, k: nat, m: nat)
    requires
        k <= m,
        primary_key_scan(args, k) is Err,
    ensures
        primary_key_scan(args, m) == primary_key_scan(args, k),
    decreases m,
{
    if m > k {
        lemma_primary_key_scan_err(args, k, (m - 1) as nat);
    }
}

/// Once an argument is wrong, the foreign key reading stays at that argument's diagnostic.
proof fn lemma_foreign_key_scan_err(args: Seq<NameValueArg>, k: nat, m: nat)
    requires
        k <= m,
        foreign_key_scan(args, k) is Err,
    ensures
        foreign_key_scan(args, m) == foreign_key_scan(args, k),
    decreases m,
{
    if m > k {
        lemma_foreign_key_scan_err(args, k, (m - 1) as nat);
    }
}

/// What `#[primary_key...]` means: with no argument list, an autoincremental key; with a
/// list, the value of its last `autoincremental` argument, which must be present.
pub open spec fn spec_primary_key(args: Result<Vec<NameValueArg>, String>) -> Result<
    AnnotationView,
    ErrorView,
> {
    match args {
        Err(_) => Ok(AnnotationView::PrimaryKey(true)),
        Ok(v) => match primary_key_scan(v@, v@.len()) {
            Err(e) => Err(e),
            Ok(None) => Err(
                err_view(
                    ErrorSpan::AttributeIdent,
                    "Missing `autoincremental` argument on the Primary Key annotation"@,
                ),
            ),
            Ok(Some(b)) => Ok(AnnotationView::PrimaryKey(b)),
        },
    }
}

/// What `#[foreign_key(...)]` means: the last `table` and `column` values of its argument
/// list, both of which must be present.
pub open spec fn spec_foreign_key(args: Result<Vec<NameValueArg>, String>) -> Result<
    AnnotationView,
    ErrorView,
> {
    match args {
        Err(msg) => Err(
            err_view(ErrorSpan::AttributeIdent, "Error generating the Foreign Key: "@ + msg@),
        ),
        Ok(v) => match foreign_key_scan(v@, v@.len()) {
            Err(e) => Err(e),
            Ok((None, _)) => Err(
                err_view(
                    ErrorSpan::AttributeIdent,
                    "Missing `table` argument on the Foreign Key annotation"@,
                ),
            ),
            Ok((Some(_), None)) => Err(
                err_view(
                    ErrorSpan::AttributeIdent,
                    "Missing `column` argument on the Foreign Key annotation"@,
                ),
            ),
            Ok((Some(t), Some(c))) => Ok(AnnotationView::ForeignKey(t, c)),
        },
    }
}

/// What a field attribute means as an annotation.
pub open spec fn spec_annotation(attribute: AttributeModel) -> Result<AnnotationView, ErrorView> {
    match path_ident(attribute.path) {
        None => Err(err_view(ErrorSpan::AttributePath, "Expected attribute ident"@)),
        Some(name) => if name == "primary_key"@ {
            spec_primary_key(attribute.args)
        } else if name == "foreign_key"@ {
            spec_foreign_key(attribute.args)
        } else {
            Err(err_view(ErrorSpan::AttributeIdent, "Unknown attribute `"@ + name + "`"@))
        },
    }
}

/// The view of a parse outcome.
pub open spec fn outcome_view(r: Result<EntityFieldAnnotation, MacroError>) -> Result<
    AnnotationView,
    ErrorView,
> {
    match r {
        Ok(a) => Ok(a@),
        Err(e) => Err(e@),
    }
}

impl EntityFieldAnnotation {
    /// Returns the data of the annotation in an understandable format for operations that
    /// require character matching.
    pub fn get_as_string(&self) -> (r: String)
        ensures
            r@ == annotation_text(self@),
    {
        match self {
            EntityFieldAnnotation::PrimaryKey(autoincremental) => {
                let mut s = string_of("Annotation: PrimaryKey, Autoincremental: ");
                push_bool(&mut s, *autoincremental);
                s
            },
            EntityFieldAnnotation::ForeignKey(table, column) => {
                let mut s = string_of("Annotation: ForeignKey, Table: ");
                push_str(&mut s, table.as_str());
                push_str(&mut s, ", Column: ");
                push_str(&mut s, column.as_str());
                s
            },
        }
    }

    fn parse_primary_key(args: &Result<Vec<NameValueArg>, String>) -> (r: Result<
        EntityFieldAnnotation,
        MacroError,
    >)
        ensures
            outcome_view(r) == spec_primary_key(*args),
    {
        let list = match args {
            Err(_) => return Ok(EntityFieldAnnotation::PrimaryKey(true)),
            Ok(v) => v,
        };
        let mut autoincremental: Option<bool> = None;
        let mut i: usize = 0;
        while i < list.len()
            invariant
                *args == Ok::<Vec<NameValueArg>, String>(*list),
                i <= list@.len(),
                primary_key_scan(list@, i as nat) == Ok::<Option<bool>, ErrorView>(
                    autoincremental,
                ),
            decreases list@.len() - i,
        {
            match read_primary_key_arg(&list[i], i) {
                Ok(b) => {
                    autoincremental = Some(b);
                },
                Err(e) => {
                    proof {
                        lemma_primary_key_scan_err(list@, (i + 1) as nat, list@.len());
                    }
                    return Err(e);
                },
            }
            i = i + 1;
        }
        match autoincremental {
            Some(b) => Ok(EntityFieldAnnotation::PrimaryKey(b)),
            None => Err(
                macro_error(
                    ErrorSpan::AttributeIdent,
                    string_of("Missing `autoincremental` argument on the Primary Key annotation"),
                ),
            ),
        }
    }

    fn parse_foreign_key(args: &Result<Vec<NameValueArg>, String>) -> (r: Result<
        EntityFieldAnnotation,
        MacroError,
    >)
        ensures
            outcome_view(r) == spec_foreign_key(*args),
    {
        let list = match args {
            Err(error) => {
                let mut message = string_of("Error generating the Foreign Key: ");
                push_str(&mut message, error.as_str());
                return Err(macro_error(ErrorSpan::AttributeIdent, message));
            },
            Ok(v) => v,
        };
        let mut table: Option<String> = None;
        let mut column: Option<String> = None;
        let mut i: usize = 0;
        while i < list.len()
            invariant
                *args == Ok::<Vec<NameValueArg>, String>(*list),
                i <= list@.len(),
                foreign_key_scan(list@, i as nat) == Ok::<
                    (Option<Seq<char>>, Option<Seq<char>>),
                    ErrorView,
                >((opt_view(table), opt_view(column))),
            decreases list@.len() - i,
        {
            match read_foreign_key_arg(&list[i], i) {
                Ok((is_table, v)) => {
                    if is_table {
                        table = Some(v);
                    } else {
                        column = Some(v);
                    }
                },
                Err(e) => {
                    proof {
                        lemma_foreign_key_scan_err(list@, (i + 1) as nat, list@.len());
                    }
                    return Err(e);
                },
            }
            i = i + 1;
        }
        match (table, column) {
            (None, _) => Err(
                macro_error(
                    ErrorSpan::AttributeIdent,
                    string_of("Missing `table` argument on the Foreign Key annotation"),
                ),
            ),
            (Some(_), None) => Err(
                macro_error(
                    ErrorSpan::AttributeIdent,
                    string_of("Missing `column` argument on the Foreign Key annotation"),
                ),
            ),
            (Some(t), Some(c)) => Ok(EntityFieldAnnotation::ForeignKey(t, c)),
        }
    }

    /// Reads a field attribute as an annotation.
    pub fn try_from(attribute: &AttributeModel) -> (r: Result<EntityFieldAnnotation, MacroError>)
        ensures
            outcome_view(r) == spec_annotation(*attribute),
    {
        let ident = match get_ident(&attribute.path) {
            Some(ident) => ident,
            None => return Err(
                macro_error(ErrorSpan::AttributePath, string_of("Expected attribute ident")),
            ),
        };
        if str_eq(ident.as_str(), "primary_key") {
            Self::parse_primary_key(&attribute.args)
        } else if str_eq(ident.as_str(), "foreign_key") {
            Self::parse_foreign_key(&attribute.args)
        } else {
            let mut message = string_of("Unknown attribute `");
            push_str(&mut message, ident.as_str());
            push_str(&mut message, "`");
            Err(macro_error(ErrorSpan::AttributeIdent, message))
        }
    }
}

/// Reads argument `i` of a primary key annotation.
fn read_primary_key_arg(arg: &NameValueArg, i: usize) -> (r: Result<bool, MacroError>)
    ensures
        match r {
            Ok(b) => primary_key_step(*arg, i) == Ok::<Option<bool>, ErrorView>(Some(b)),
            Err(e) => primary_key_step(*arg, i) == Err::<Option<bool>, ErrorView>(e@),
        },
{
    let key = arg_key(arg, i)?;
    if str_eq(key.as_str(), "autoincremental") {
        parse_bool_value(arg, i)
    } else {
        Err(unknown_argument(i, key.as_str()))
    }
}

/// Reads argument `i` of a foreign key annotation.
fn read_foreign_key_arg(arg: &NameValueArg, i: usize) -> (r: Result<(bool, String), MacroError>)
    ensures
        match r {
            Ok((t, v)) => foreign_key_step(*arg, i) == Ok::<(bool, Seq<char>), ErrorView>((t, v@)),
            Err(e) => foreign_key_step(*arg, i) == Err::<(bool, Seq<char>), ErrorView>(e@),
        },
{
    let key = arg_key(arg, i)?;
    if str_eq(key.as_str(), "table") {
        let v = parse_string_value(arg, i)?;
        Ok((true, v))
    } else if str_eq(key.as_str(), "column") {
        let v = parse_string_value(arg, i)?;
        Ok((false, v))
    } else {
        Err(unknown_argument(i, key.as_str()))
    }
}

/// The key of argument `i`.
pub fn arg_key(arg: &NameValueArg, i: usize) -> (r: Result<String, MacroError>)
    ensures
        match r {
            Ok(k) => spec_arg_key(*arg, i) == Ok::<Seq<char>, ErrorView>(k@),
            Err(e) => spec_arg_key(*arg, i) == Err::<Seq<char>, ErrorView>(e@),
        },
{
    match &arg.key {
        Some(k) => Ok(string_of(k.as_str())),
        None => Err(macro_error(ErrorSpan::ArgumentKey(i), string_of("Expected argument ident"))),
    }
}

/// The string literal value of argument `i`.
pub fn parse_string_value(arg: &NameValueArg, i: usize) -> (r: Result<String, MacroError>)
    ensures
        match r {
            Ok(v) => spec_string_value(*arg, i) == Ok::<Seq<char>, ErrorView>(v@),
            Err(e) => spec_string_value(*arg, i) == Err::<Seq<char>, ErrorView>(e@),
        },
{
    match &arg.value {
        ArgValue::Str(s) => Ok(string_of(s.as_str())),
        ArgValue::OtherLiteral => Err(
            macro_error(ErrorSpan::ArgumentValue(i), string_of("Expected string literal")),
        ),
        ArgValue::NotLiteral => Err(
            macro_error(ErrorSpan::ArgumentValue(i), string_of("Expected literal expression")),
        ),
    }
}

/// The boolean value of argument `i`: a string literal holding `true` or `false`.
pub fn parse_bool_value(arg: &NameValueArg, i: usize) -> (r: Result<bool, MacroError>)
    ensures
        match r {
            Ok(b) => spec_bool_value(*arg, i) == Ok::<bool, ErrorView>(b),
            Err(e) => spec_bool_value(*arg, i) == Err::<bool, ErrorView>(e@),
        },
{
    let value = parse_string_value(arg, i)?;
    if str_eq(value.as_str(), "true") {
        Ok(true)
    } else if str_eq(value.as_str(), "false") {
        Ok(false)
    } else {
        let mut message = string_of("Expected boolean string literal, found `");
        push_str(&mut message, value.as_str());
        push_str(&mut message, "`");
        Err(macro_error(ErrorSpan::ArgumentValue(i), message))
    }
}

/// The diagnostic for argument `i`, whose key `key` the annotation does not know.
pub fn unknown_argument(i: usize, key: &str) -> (r: MacroError)
    ensures
        r@ == err_view(ErrorSpan::ArgumentKey(i), unknown_argument_message(key@)),
{
    let mut message = string_of("Unknown annotation argument `");
    push_str(&mut message, key);
    push_str(&mut message, "`");
    macro_error(ErrorSpan::ArgumentKey(i), message)
}

/// A foreign key annotation with one `table` and one `column` argument, both string
/// literals, reads the same in either order: the foreign key to that table and column.
pub proof fn law_foreign_key_argument_order(v: Vec<NameValueArg>, w: Vec<NameValueArg>)
    requires
        v@.len() == 2,
        w@ == seq![v@[1], v@[0]],
        v@[0].key matches Some(k) && (k@ == "table"@ || k@ == "column"@),
        v@[1].key matches Some(k) && (k@ == "table"@ || k@ == "column"@),
        v@[0].key->Some_0@ != v@[1].key->Some_0@,
        v@[0].value is Str,
        v@[1].value is Str,
    ensures
        spec_foreign_key(Ok(v)) == spec_foreign_key(Ok(w)),
        spec_foreign_key(Ok(v)) == (if v@[0].key->Some_0@ == "table"@ {
            Ok::<AnnotationView, ErrorView>(
                AnnotationView::ForeignKey(v@[0].value->Str_0@, v@[1].value->Str_0@),
            )
        } else {
            Ok::<AnnotationView, ErrorView>(
                AnnotationView::ForeignKey(v@[1].value->Str_0@, v@[0].value->Str_0@),
            )
        }),
{
    let a = v@[0];
    let b = v@[1];
    assert(foreign_key_scan(v@, 0) == Ok::<(Option<Seq<char>>, Option<Seq<char>>), ErrorView>((None, None)));
    assert(foreign_key_scan(w@, 0) == Ok::<(Option<Seq<char>>, Option<Seq<char>>), ErrorView>((None, None)));
    assert(foreign_key_scan(v@, 1) is Ok);
    assert(foreign_key_scan(w@, 1) is Ok);
    if a.key->Some_0@ == "table"@ {
        assert(foreign_key_scan(v@, 2) == Ok::<(Option<Seq<char>>, Option<Seq<char>>), ErrorView>(
            (Some(a.value->Str_0@), Some(b.value->Str_0@)),
        ));
        assert(foreign_key_scan(w@, 2) == Ok::<(Option<Seq<char>>, Option<Seq<char>>), ErrorView>(
            (Some(a.value->Str_0@), Some(b.value->Str_0@)),
        ));
    } else {
        assert(foreign_key_scan(v@, 2) == Ok::<(Option<Seq<char>>, Option<Seq<char>>), ErrorView>(
            (Some(b.value->Str_0@), Some(a.value->Str_0@)),
        ));
        assert(foreign_key_scan(w@, 2) == Ok::<(Option<Seq<char>>, Option<Seq<char>>), ErrorView>(
            (Some(b.value->Str_0@), Some(a.value->Str_0@)),
        ));
    }
}

} // verus!
