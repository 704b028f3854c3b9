//! Shared pieces of the CRUD generators: the table an entity maps to, query placeholders,
//! and the field lists the generators walk.
use vstd::prelude::*;

use crate::attribute::{
    all_named, last_segment, last_segment_is, ArgValue, AttributeModel, FieldModel,
    MetaStyle, NameValueArg,
};
use crate::error::{err_view, macro_error, ErrorSpan, ErrorView, MacroError};
use crate::field_annotation::opt_view;
use crate::macro_tokens::MacroTokens;
use crate::naming::{default_database_table_name_from_entity_name, default_table_name};
use crate::text::{decimal, push_decimal, push_str, str_eq, string_of};

verus! {

/// The table a CRUD implementation queries: an optional schema and a table name.
#[derive(Debug)]
pub struct TableMetadata {
    pub schema: Option<String>,
    pub table_name: String,
}

/// How a table is written in SQL: `schema.table`, or `table` without a schema.
pub open spec fn table_sql(schema: Option<Seq<char>>, table_name: Seq<char>) -> Seq<char> {
    match schema {
        Some(s) => s + "."@ + table_name,
        None => table_name,
    }
}

impl Default for TableMetadata {
    fn default() -> (r: TableMetadata)
        ensures
            r.schema is None,
            r.table_name@ == Seq::<char>::empty(),
    {
        TableMetadata { schema: None, table_name: String::new() }
    }
}

impl TableMetadata {
    /// Sets the schema.
    pub fn schema(&mut self, schema: String)
        ensures
            final(self).schema == Some(schema),
            final(self).table_name == old(self).table_name,
    {
        self.schema = Some(schema);
    }

    /// Sets the table name.
    pub fn table_name(&mut self, table_name: String)
        ensures
            final(self).table_name == table_name,
            final(self).schema == old(self).schema,
    {
        self.table_name = table_name;
    }

    /// The table as SQL names it.
    pub fn sql(&self) -> (r: String)
        ensures
            r@ == table_sql(opt_view(self.schema), self.table_name@),
    {
        match &self.schema {
            Some(schema) => {
                let mut s = string_of(schema.as_str());
                push_str(&mut s, ".");
                push_str(&mut s, self.table_name.as_str());
                s
            },
            None => string_of(self.table_name.as_str()),
        }
    }
}

/// The placeholders `$1, $2, ..., $k`.
pub open spec fn placeholder_list(k: nat) -> Seq<char>
    decreases k,
{
    if k == 0 {
        Seq::empty()
    } else {
        let head = if k == 1 {
            Seq::empty()
        } else {
            placeholder_list((k - 1) as nat) + ", "@
        };
        head + "$"@ + decimal(k)
    }
}

/// The query placeholders for the numbers from 1 up to, but not including, `num_values`:
/// `$1, $2, ..., $(num_values - 1)`.
pub fn placeholders_generator(num_values: usize) -> (r: String)
    ensures
        r@ == placeholder_list(if num_values == 0 { 0 } else { (num_values - 1) as nat }),
{
    let mut placeholders = String::new();
    let mut n: usize = 1;
    while n < num_values
        invariant
            1 <= n,
            n <= num_values || n == 1,
            placeholders@ == placeholder_list((n - 1) as nat),
        decreases num_values - n,
    {
        if n > 1 {
            push_str(&mut placeholders, ", ");
        }
        push_str(&mut placeholders, "$");
        push_decimal(&mut placeholders, n);
        n = n + 1;
    }
    placeholders
}

/// The name of every field, in order.
pub fn filter_fields<'a>(fields: &'a Vec<FieldModel>) -> (r: Vec<&'a String>)
    requires
        all_named(fields@),
    ensures
        r@.len() == fields@.len(),
        forall|i: int| 0 <= i < r@.len() ==> (#[trigger] r@[i])@ == fields@[i].ident->Some_0@,
{
    let mut out: Vec<&'a String> = Vec::new();
    let mut i: usize = 0;
    while i < fields.len()
        invariant
            all_named(fields@),
            i <= fields@.len(),
            out@.len() == i,
            forall|k: int| 0 <= k < i ==> (#[trigger] out@[k])@ == fields@[k].ident->Some_0@,
        decreases fields@.len() - i,
    {
        let f: &'a FieldModel = &fields[i];
        out.push(f.ident.as_ref().unwrap());
        i = i + 1;
    }
    out
}

/// The type the CRUD operations return rows as.
#[derive(Debug)]
pub enum MappingTarget<'a> {
    /// The type named by `#[canyon_crud(maps_to = ...)]`.
    CrudOpsType(&'a String),
    /// The deriving type itself, with its generic arguments.
    RowMapperWithGenerics(&'a String),
}

/// The type named by `maps_to` when there is one, else the deriving type with its
/// generics.
pub fn compute_crud_ops_mapping_target_type_with_generics<'a>(
    row_mapper_ty: &'a String,
    crud_ops_ty: Option<&'a String>,
) -> (r: MappingTarget<'a>)
    ensures
        match crud_ops_ty {
            Some(t) => r == MappingTarget::CrudOpsType(t),
            None => r == MappingTarget::RowMapperWithGenerics(row_mapper_ty),
        },
{
    match crud_ops_ty {
        Some(t) => MappingTarget::CrudOpsType(t),
        None => MappingTarget::RowMapperWithGenerics(row_mapper_ty),
    }
}

/// The attribute is `#[canyon_entity(...)]` (its last path segment is `canyon_entity`).
pub open spec fn spec_is_canyon_entity_attr(attr: AttributeModel) -> bool {
    last_segment(attr.path) == Some("canyon_entity"@)
}

/// The diagnostic for a `#[canyon_entity = ...]` attribute.
pub open spec fn expects_list_error() -> ErrorView {
    err_view(ErrorSpan::AttributeMeta, "`canyon_entity` attribute expects a list of arguments"@)
}

/// The `key = value` arguments of a `#[canyon_entity]` attribute: none for a bare path,
/// the list for a parenthesized list that reads, else a diagnostic.
pub open spec fn spec_canyon_entity_args(attr: AttributeModel) -> Result<
    Seq<NameValueArg>,
    ErrorView,
> {
    match attr.style {
        MetaStyle::Path => Ok(Seq::empty()),
        MetaStyle::List => match attr.args {
            Ok(v) => Ok(v@),
            Err(message) => Err(err_view(ErrorSpan::AttributeMeta, message@)),
        },
        MetaStyle::NameValue => Err(expects_list_error()),
    }
}

/// What argument `i` sets: the schema (`true`) or the table name (`false`), and to what;
/// or the diagnostic about it. The key is checked first, then the value, then which key it is.
pub open spec fn canyon_entity_arg_step(nv: NameValueArg, i: usize) -> Result<
    (bool, Seq<char>),
    ErrorView,
> {
    match nv.key {
        None => Err(
            err_view(
                ErrorSpan::ArgumentKey(i),
                "Only simple identifiers are valid keys for `canyon_entity` attribute arguments"@,
            ),
        ),
        Some(k) => match nv.value {
            ArgValue::Str(v) => if k@ == "schema"@ {
                Ok((true, v@))
            } else if k@ == "table_name"@ {
                Ok((false, v@))
            } else {
                Err(
                    err_view(
                        ErrorSpan::ArgumentKey(i),
                        "Only `table_name` and `schema` are valid `canyon_entity` attribute arguments"@,
                    ),
                )
            },
            ArgValue::OtherLiteral => Err(
                err_view(
                    ErrorSpan::ArgumentValue(i),
                    "Only string literals are valid values for `canyon_entity` attribute arguments"@,
                ),
            ),
            ArgValue::NotLiteral => Err(
                err_view(
                    ErrorSpan::ArgumentValue(i),
                    "Only literal expressions are valid values for `canyon_entity` attribute arguments"@,
                ),
            ),
        },
    }
}

/// Schema, table name and diagnostic after reading the first `n` arguments from the values
/// `schema` and `table`: each argument that reads sets its value, and reading stops at the
/// first that does not, keeping what was set before it.
pub open spec fn canyon_entity_args_scan(
    args: Seq<NameValueArg>,
    n: nat,
    schema: Option<Seq<char>>,
    table: Option<Seq<char>>,
) -> (Option<Seq<char>>, Option<Seq<char>>, Option<ErrorView>)
    decreases n,
{
    if n == 0 {
        (schema, table, None)
    } else {
        let acc = canyon_entity_args_scan(args, (n - 1) as nat, schema, table);
        if acc.2 is Some {
            acc
        } else {
            match canyon_entity_arg_step(args[n - 1], (n - 1) as usize) {
                Ok((true, v)) => (Some(v), acc.1, None),
                Ok((false, v)) => (acc.0, Some(v), None),
                Err(e) => (acc.0, acc.1, Some(e)),
            }
        }
    }
}

/// Schema, table name and diagnostic after reading one `#[canyon_entity]` attribute from
/// the values `schema` and `table`.
pub open spec fn canyon_entity_attr_effect(
    attr: AttributeModel,
    schema: Option<Seq<char>>,
    table: Option<Seq<char>>,
) -> (Option<Seq<char>>, Option<Seq<char>>, Option<ErrorView>) {
    match spec_canyon_entity_args(attr) {
        Err(e) => (schema, table, Some(e)),
        Ok(args) => canyon_entity_args_scan(args, args.len(), schema, table),
    }
}

proof fn lemma_args_scan_stops(
    args: Seq<NameValueArg>,
    k: nat,
    m: nat,
    schema: Option<Seq<char>>,
    table: Option<Seq<char>>,
)
    requires
        k <= m,
        canyon_entity_args_scan(args, k, schema, table).2 is Some,
    ensures
        canyon_entity_args_scan(args, m, schema, table) == canyon_entity_args_scan(args, k, schema, table),
    decreases m,
{
    if m > k {
        lemma_args_scan_stops(args, k, (m - 1) as nat, schema, table);
    }
}

/// Whether the attribute is `#[canyon_entity(...)]`.
pub fn is_canyon_entity_attr(attr: &AttributeModel) -> (r: bool)
    ensures
        r == spec_is_canyon_entity_attr(*attr),
{
    last_segment_is(&attr.path, "canyon_entity")
}

/// The `key = value` arguments of a `#[canyon_entity]` attribute; `None` for a bare
/// `#[canyon_entity]`, which has none.
pub fn parse_canyon_entity_args(attr: &AttributeModel) -> (r: Result<
    Option<&Vec<NameValueArg>>,
    MacroError,
>)
    ensures
        match spec_canyon_entity_args(*attr) {
            Ok(args) => match r {
                Ok(Some(v)) => v@ == args,
                Ok(None) => args.len() == 0,
                Err(_) => false,
            },
            Err(e) => r matches Err(re) && re@ == e,
        },
{
    match attr.style {
        MetaStyle::Path => Ok(None),
        MetaStyle::List => match &attr.args {
            Ok(v) => Ok(Some(v)),
            Err(message) => Err(macro_error(ErrorSpan::AttributeMeta, message.clone())),
        },
        MetaStyle::NameValue => Err(
            macro_error(
                ErrorSpan::AttributeMeta,
                string_of("`canyon_entity` attribute expects a list of arguments"),
            ),
        ),
    }
}

/// The key of argument `i`, which must be a single identifier.
pub fn name_value_key(name_value: &NameValueArg, i: usize) -> (r: Result<&String, MacroError>)
    ensures
        match name_value.key {
            Some(k) => r == Ok::<&String, MacroError>(&k),
            None => r matches Err(e) && e@ == err_view(
                ErrorSpan::ArgumentKey(i),
                "Only simple identifiers are valid keys for `canyon_entity` attribute arguments"@,
            ),
        },
{
    match &name_value.key {
        Some(k) => Ok(k),
        None => Err(
            macro_error(
                ErrorSpan::ArgumentKey(i),
                string_of(
                    "Only simple identifiers are valid keys for `canyon_entity` attribute arguments",
                ),
            ),
        ),
    }
}

/// The content of the value of argument `i`, which must be a string literal.
pub fn string_literal_value(name_value: &NameValueArg, i: usize) -> (r: Result<String, MacroError>)
    ensures
        match name_value.value {
            ArgValue::Str(v) => r matches Ok(s) && s@ == v@,
            ArgValue::OtherLiteral => r matches Err(e) && e@ == err_view(
                ErrorSpan::ArgumentValue(i),
                "Only string literals are valid values for `canyon_entity` attribute arguments"@,
            ),
            ArgValue::NotLiteral => r matches Err(e) && e@ == err_view(
                ErrorSpan::ArgumentValue(i),
                "Only literal expressions are valid values for `canyon_entity` attribute arguments"@,
            ),
        },
{
    match &name_value.value {
        ArgValue::Str(v) => Ok(string_of(v.as_str())),
        ArgValue::OtherLiteral => Err(
            macro_error(
                ErrorSpan::ArgumentValue(i),
                string_of(
                    "Only string literals are valid values for `canyon_entity` attribute arguments",
                ),
            ),
        ),
        ArgValue::NotLiteral => Err(
            macro_error(
                ErrorSpan::ArgumentValue(i),
                string_of(
                    "Only literal expressions are valid values for `canyon_entity` attribute arguments",
                ),
            ),
        ),
    }
}

/// The diagnostic for argument `i` whose key is neither `table_name` nor `schema`.
pub fn unknown_canyon_entity_arg(i: usize) -> (r: MacroError)
    ensures
        r@ == err_view(
            ErrorSpan::ArgumentKey(i),
            "Only `table_name` and `schema` are valid `canyon_entity` attribute arguments"@,
        ),
{
    macro_error(
        ErrorSpan::ArgumentKey(i),
        string_of("Only `table_name` and `schema` are valid `canyon_entity` attribute arguments"),
    )
}

/// Reads one `#[canyon_entity(...)]` attribute into `schema` and `table_name`. Reading
/// stops at the first argument that does not read; the values set before it stay.
pub fn parse_canyon_entity_attr(
    attr: &AttributeModel,
    schema: &mut Option<String>,
    table_name: &mut Option<String>,
) -> (r: Result<(), MacroError>)
    ensures
        ({
            let effect = canyon_entity_attr_effect(*attr, opt_view(*old(schema)), opt_view(*old(table_name)));
            &&& opt_view(*final(schema)) == effect.0
            &&& opt_view(*final(table_name)) == effect.1
            &&& match effect.2 {
                None => r is Ok,
                Some(e) => r matches Err(re) && re@ == e,
            }
        }),
{
    let ghost s0 = opt_view(*schema);
    let ghost t0 = opt_view(*table_name);
    let args = match parse_canyon_entity_args(attr)? {
        Some(v) => v,
        None => return Ok(()),
    };
    let mut i: usize = 0;
    while i < args.len()
        invariant
            spec_canyon_entity_args(*attr) == Ok::<Seq<NameValueArg>, ErrorView>(args@),
            s0 == opt_view(*old(schema)),
            t0 == opt_view(*old(table_name)),
            i <= args@.len(),
            canyon_entity_args_scan(args@, i as nat, s0, t0) == (
                opt_view(*schema),
                opt_view(*table_name),
                None::<ErrorView>,
            ),
        decreases args@.len() - i,
    {
        let name_value = &args[i];
        let key = match name_value_key(name_value, i) {
            Ok(k) => k,
            Err(e) => {
                proof {
                    lemma_args_scan_stops(args@, (i + 1) as nat, args@.len(), s0, t0);
                }
                return Err(e);
            },
        };
        let value = match string_literal_value(name_value, i) {
            Ok(v) => v,
            Err(e) => {
                proof {
                    lemma_args_scan_stops(args@, (i + 1) as nat, args@.len(), s0, t0);
                }
                return Err(e);
            },
        };
        if str_eq(key.as_str(), "schema") {
            *schema = Some(value);
        } else if str_eq(key.as_str(), "table_name") {
            *table_name = Some(value);
        } else {
            proof {
                lemma_args_scan_stops(args@, (i + 1) as nat, args@.len(), s0, t0);
            }
            return Err(unknown_canyon_entity_arg(i));
        }
        i = i + 1;
    }
    Ok(())
}

/// Schema, table name and diagnostic after reading the `#[canyon_entity]` attributes among
/// the first `n` attributes, in order, stopping at the first diagnostic.
pub open spec fn canyon_entity_attrs_fold(attrs: Seq<AttributeModel>, n: nat) -> (
    Option<Seq<char>>,
    Option<Seq<char>>,
    Option<ErrorView>,
)
    decreases n,
{
    if n == 0 {
        (None, None, None)
    } else {
        let acc = canyon_entity_attrs_fold(attrs, (n - 1) as nat);
        if acc.2 is Some {
            acc
        } else if spec_is_canyon_entity_attr(attrs[n - 1]) {
            canyon_entity_attr_effect(attrs[n - 1], acc.0, acc.1)
        } else {
            acc
        }
    }
}

proof fn lemma_attrs_fold_stops(attrs: Seq<AttributeModel>, k: nat, m: nat)
    requires
        k <= m,
        canyon_entity_attrs_fold(attrs, k).2 is Some,
    ensures
        canyon_entity_attrs_fold(attrs, m) == canyon_entity_attrs_fold(attrs, k),
    decreases m,
{
    if m > k {
        lemma_attrs_fold_stops(attrs, k, (m - 1) as nat);
    }
}

/// The schema and table name of an entity: those given to `#[canyon_entity(...)]`; with
/// no table name given, the default table name of the `maps_to` type if there is one, else
/// of the deriving type.
pub open spec fn spec_table_schema(macro_data: &MacroTokens) -> Result<
    (Option<Seq<char>>, Seq<char>),
    ErrorView,
> {
    let f = canyon_entity_attrs_fold(macro_data.attrs@, macro_data.attrs@.len());
    match f.2 {
        Some(e) => Err(e),
        None => Ok(
            (
                f.0,
                match f.1 {
                    Some(t) => t,
                    None => default_table_name(
                        match macro_data.mapping_target() {
                            Some(t) => t,
                            None => macro_data.ty@,
                        },
                    ),
                },
            ),
        ),
    }
}

/// The schema and table that the CRUD operations of an entity query.
pub fn table_schema_parser(macro_data: &MacroTokens) -> (r: Result<TableMetadata, MacroError>)
    ensures
        match spec_table_schema(macro_data) {
            Ok((schema, table)) => r matches Ok(t) && opt_view(t.schema) == schema
                && t.table_name@ == table,
            Err(e) => r matches Err(re) && re@ == e,
        },
{
    let mut table_name: Option<String> = None;
    let mut schema: Option<String> = None;
    let attrs = macro_data.attrs;
    let mut j: usize = 0;
    while j < attrs.len()
        invariant
            attrs == macro_data.attrs,
            j <= attrs@.len(),
            canyon_entity_attrs_fold(attrs@, j as nat) == (
                opt_view(schema),
                opt_view(table_name),
                None::<ErrorView>,
            ),
        decreases attrs@.len() - j,
    {
        if is_canyon_entity_attr(&attrs[j]) {
            match parse_canyon_entity_attr(&attrs[j], &mut schema, &mut table_name) {
                Ok(()) => {},
                Err(e) => {
                    proof {
                        lemma_attrs_fold_stops(attrs@, (j + 1) as nat, attrs@.len());
                    }
                    return Err(e);
                },
            }
        }
        j = j + 1;
    }
    let mut table_meta = TableMetadata::default();
    if let Some(schema_) = schema {
        table_meta.schema(schema_);
    }
    match table_name {
        Some(t_name) => table_meta.table_name(t_name),
        None => {
            let target = match macro_data.retrieve_mapping_target_type() {
                Some(mapper_ty) => mapper_ty.as_str(),
                None => macro_data.ty.as_str(),
            };
            table_meta.table_name(default_database_table_name_from_entity_name(target));
        },
    }
    Ok(table_meta)
}

/// How many times `c` occurs in `s`.
pub open spec fn count_char(s: Seq<char>, c: char) -> nat
    decreases s.len(),
{
    if s.len() == 0 {
        0
    } else {
        count_char(s.drop_last(), c) + if s.last() == c {
            1nat
        } else {
            0nat
        }
    }
}

proof fn lemma_count_char_concat(a: Seq<char>, b: Seq<char>, c: char)
    ensures
        count_char(a + b, c) == count_char(a, c) + count_char(b, c),
    decreases b.len(),
{
    if b.len() > 0 {
        assert((a + b).drop_last() =~= a + b.drop_last());
        lemma_count_char_concat(a, b.drop_last(), c);
    } else {
    }
}

proof fn lemma_decimal_has_no_dollar(n: nat)
    ensures
        count_char(decimal(n), '$') == 0,
    decreases n,
{
    let d = (n % 10) as nat;
    if n >= 10 {
        lemma_decimal_has_no_dollar(n / 10);
        assert(decimal(n).drop_last() =~= decimal(n / 10));
    } else {
        assert(decimal(n).drop_last() =~= Seq::<char>::empty());
        assert(count_char(Seq::<char>::empty(), '$') == 0);
    }
}

/// The placeholder list for `k` values holds exactly `k` placeholders, one `$` each.
pub proof fn law_placeholder_count(k: nat)
    ensures
        count_char(placeholder_list(k), '$') == k,
    decreases k,
{
    reveal_strlit("$");
    reveal_strlit(", ");
    reveal_with_fuel(count_char, 3);
    if k > 0 {
        let head = if k == 1 {
            Seq::<char>::empty()
        } else {
            placeholder_list((k - 1) as nat) + ", "@
        };
        if k > 1 {
            law_placeholder_count((k - 1) as nat);
            lemma_count_char_concat(placeholder_list((k - 1) as nat), ", "@, '$');
        } else {
        }
        lemma_count_char_concat(head, "$"@, '$');
        lemma_count_char_concat(head + "$"@, decimal(k), '$');
        lemma_decimal_has_no_dollar(k);
    }
}

/// `#[canyon_entity(...)]` with one `schema` and one `table_name` argument, both string
/// literals, reads the same in either order: both values are set, over whatever was set
/// before.
pub proof fn law_canyon_entity_argument_order(
    v: Seq<NameValueArg>,
    schema: Option<Seq<char>>,
    table: Option<Seq<char>>,
)
    requires
        v.len() == 2,
        v[0].key matches Some(k) && (k@ == "schema"@ || k@ == "table_name"@),
        v[1].key matches Some(k) && (k@ == "schema"@ || k@ == "table_name"@),
        v[0].key->Some_0@ != v[1].key->Some_0@,
        v[0].value is Str,
        v[1].value is Str,
    ensures
        canyon_entity_args_scan(v, 2, schema, table) == canyon_entity_args_scan(
            seq![v[1], v[0]],
            2,
            schema,
            table,
        ),
        canyon_entity_args_scan(v, 2, schema, table) == (if v[0].key->Some_0@ == "schema"@ {
            (Some(v[0].value->Str_0@), Some(v[1].value->Str_0@), None::<ErrorView>)
        } else {
            (Some(v[1].value->Str_0@), Some(v[0].value->Str_0@), None::<ErrorView>)
        }),
{
    let w = seq![v[1], v[0]];
    assert(canyon_entity_args_scan(v, 0, schema, table) == (schema, table, None::<ErrorView>));
    assert(canyon_entity_args_scan(w, 0, schema, table) == (schema, table, None::<ErrorView>));
    assert(canyon_entity_args_scan(v, 1, schema, table).2 is None);
    assert(canyon_entity_args_scan(w, 1, schema, table).2 is None);
}

/// Argument `j` of `args` is `schema = "v"`.
pub open spec fn arg_sets_schema(args: Seq<NameValueArg>, j: int, v: Seq<char>) -> bool {
    &&& 0 <= j < args.len()
    &&& args[j].key is Some
    &&& args[j].key->Some_0@ == "schema"@
    &&& args[j].value is Str
    &&& args[j].value->Str_0@ == v
}

/// Argument `j` of attribute `a` is `schema = "v"` in a `#[canyon_entity(...)]` attribute
/// whose arguments read.
pub open spec fn schema_arg_at(attrs: Seq<AttributeModel>, a: int, j: int, v: Seq<char>) -> bool {
    &&& 0 <= a < attrs.len()
    &&& spec_is_canyon_entity_attr(attrs[a])
    &&& spec_canyon_entity_args(attrs[a]) is Ok
    &&& arg_sets_schema(spec_canyon_entity_args(attrs[a])->Ok_0, j, v)
}

/// Position (`a2`, `j2`) comes after position (`a`, `j`): a later attribute, or a later
/// argument of the same attribute.
pub open spec fn comes_after(a2: int, j2: int, a: int, j: int) -> bool {
    a2 > a || (a2 == a && j2 > j)
}

proof fn lemma_args_scan_schema(
    args: Seq<NameValueArg>,
    m: nat,
    s0: Option<Seq<char>>,
    t0: Option<Seq<char>>,
)
    requires
        m <= args.len(),
        canyon_entity_args_scan(args, m, s0, t0).2 is None,
    ensures
        (forall|j: int, v: Seq<char>| 0 <= j < m ==> !#[trigger] arg_sets_schema(args, j, v))
            ==> canyon_entity_args_scan(args, m, s0, t0).0 == s0,
        (exists|j: int, v: Seq<char>| 0 <= j < m && #[trigger] arg_sets_schema(args, j, v)) ==> {
            let r = canyon_entity_args_scan(args, m, s0, t0).0;
            &&& r is Some
            &&& exists|j: int|
                0 <= j < m && #[trigger] arg_sets_schema(args, j, r->Some_0) && forall|
                    j2: int,
                    v2: Seq<char>,
                | j < j2 < m ==> !#[trigger] arg_sets_schema(args, j2, v2)
        },
    decreases m,
{
    if m > 0 {
        let prev = canyon_entity_args_scan(args, (m - 1) as nat, s0, t0);
        if prev.2 is Some {
            assert(canyon_entity_args_scan(args, m, s0, t0) == prev);
        }
        lemma_args_scan_schema(args, (m - 1) as nat, s0, t0);
        let last = m - 1;
        let step = canyon_entity_arg_step(args[last], last as usize);
        assert(step is Ok);
        if step is Ok && step->Ok_0.0 {
            let v = step->Ok_0.1;
            assert(arg_sets_schema(args, last, v));
            assert(canyon_entity_args_scan(args, m, s0, t0).0 == Some(v));
            let r = canyon_entity_args_scan(args, m, s0, t0).0;
            assert(r->Some_0 == v);
            assert(forall|j2: int, v2: Seq<char>|
                last < j2 < m ==> !#[trigger] arg_sets_schema(args, j2, v2));
            assert(0 <= last < m && arg_sets_schema(args, last, r->Some_0) && forall|
                j2: int,
                v2: Seq<char>,
            | last < j2 < m ==> !#[trigger] arg_sets_schema(args, j2, v2));
        } else {
            assert(forall|v2: Seq<char>| !#[trigger] arg_sets_schema(args, last, v2));
            assert(canyon_entity_args_scan(args, m, s0, t0).0 == prev.0);
            if exists|j: int, v: Seq<char>| 0 <= j < m && #[trigger] arg_sets_schema(args, j, v) {
                let (jw, vw) = choose|j: int, v: Seq<char>|
                    0 <= j < m && #[trigger] arg_sets_schema(args, j, v);
                assert(jw < last);
                let r = prev.0;
                let j = choose|j: int|
                    0 <= j < m - 1 && #[trigger] arg_sets_schema(args, j, r->Some_0) && forall|
                        j2: int,
                        v2: Seq<char>,
                    | j < j2 < m - 1 ==> !#[trigger] arg_sets_schema(args, j2, v2);
                assert forall|j2: int, v2: Seq<char>| j < j2 < m implies !#[trigger] arg_sets_schema(
                    args,
                    j2,
                    v2,
                ) by {
                    if j2 == last {
                    }
                }
                assert(canyon_entity_args_scan(args, m, s0, t0).0 == r);
                assert(0 <= j < m && arg_sets_schema(args, j, r->Some_0));
            }
        }
    }
}

proof fn lemma_attrs_fold_schema(attrs: Seq<AttributeModel>, n: nat)
    requires
        n <= attrs.len(),
        canyon_entity_attrs_fold(attrs, n).2 is None,
    ensures
        (forall|a: int, j: int, v: Seq<char>| a < n ==> !#[trigger] schema_arg_at(attrs, a, j, v))
            ==> canyon_entity_attrs_fold(attrs, n).0 is None,
        (exists|a: int, j: int, v: Seq<char>| a < n && #[trigger] schema_arg_at(attrs, a, j, v))
            ==> {
            let r = canyon_entity_attrs_fold(attrs, n).0;
            &&& r is Some
            &&& exists|a: int, j: int|
                a < n && #[trigger] schema_arg_at(attrs, a, j, r->Some_0) && forall|
                    a2: int,
                    j2: int,
                    v2: Seq<char>,
                | a2 < n && #[trigger] schema_arg_at(attrs, a2, j2, v2) ==> !comes_after(a2, j2, a, j)
        },
    decreases n,
{
    if n > 0 {
        let prev = canyon_entity_attrs_fold(attrs, (n - 1) as nat);
        if prev.2 is Some {
            assert(canyon_entity_attrs_fold(attrs, n) == prev);
        }
        lemma_attrs_fold_schema(attrs, (n - 1) as nat);
        let last = n - 1;
        let attr = attrs[last];
        if !spec_is_canyon_entity_attr(attr) {
            assert(canyon_entity_attrs_fold(attrs, n) == prev);
            assert(forall|j: int, v: Seq<char>| !#[trigger] schema_arg_at(attrs, last, j, v));
            if exists|a: int, j: int, v: Seq<char>| a < n && #[trigger] schema_arg_at(attrs, a, j, v) {
                let (aw, jw, vw) = choose|a: int, j: int, v: Seq<char>|
                    a < n && #[trigger] schema_arg_at(attrs, a, j, v);
                assert(aw < last);
                let r = prev.0;
                let (a, j) = choose|a: int, j: int|
                    a < n - 1 && #[trigger] schema_arg_at(attrs, a, j, r->Some_0) && forall|
                        a2: int,
                        j2: int,
                        v2: Seq<char>,
                    | a2 < n - 1 && #[trigger] schema_arg_at(attrs, a2, j2, v2) ==> !comes_after(
                        a2,
                        j2,
                        a,
                        j,
                    );
                assert forall|a2: int, j2: int, v2: Seq<char>|
                    a2 < n && #[trigger] schema_arg_at(attrs, a2, j2, v2) implies !comes_after(
                    a2,
                    j2,
                    a,
                    j,
                ) by {
                    if a2 == last {
                    }
                }
            }
        } else {
            assert(canyon_entity_attrs_fold(attrs, n) == canyon_entity_attr_effect(
                attr,
                prev.0,
                prev.1,
            ));
            assert(spec_canyon_entity_args(attr) is Ok);
            let args = spec_canyon_entity_args(attr)->Ok_0;
            assert(canyon_entity_attrs_fold(attrs, n) == canyon_entity_args_scan(
                args,
                args.len(),
                prev.0,
                prev.1,
            ));
            lemma_args_scan_schema(args, args.len(), prev.0, prev.1);
            assert(forall|j: int, v: Seq<char>|
                #[trigger] schema_arg_at(attrs, last, j, v) == arg_sets_schema(args, j, v));
            let r = canyon_entity_attrs_fold(attrs, n).0;
            if exists|j: int, v: Seq<char>| 0 <= j < args.len() && #[trigger] arg_sets_schema(
                args,
                j,
                v,
            ) {
                let j = choose|j: int|
                    0 <= j < args.len() && #[trigger] arg_sets_schema(args, j, r->Some_0) && forall|
                        j2: int,
                        v2: Seq<char>,
                    | j < j2 < args.len() ==> !#[trigger] arg_sets_schema(args, j2, v2);
                assert(schema_arg_at(attrs, last, j, r->Some_0));
                assert forall|a2: int, j2: int, v2: Seq<char>|
                    a2 < n && #[trigger] schema_arg_at(attrs, a2, j2, v2) implies !comes_after(
                    a2,
                    j2,
                    last,
                    j,
                ) by {
                    if a2 == last {
                        assert(arg_sets_schema(args, j2, v2));
                    }
                }
            } else {
                assert(r == prev.0);
                assert(forall|j: int, v: Seq<char>| !#[trigger] schema_arg_at(attrs, last, j, v));
                if exists|a: int, j: int, v: Seq<char>| a < n && #[trigger] schema_arg_at(attrs, a, j, v) {
                    let (aw, jw, vw) = choose|a: int, j: int, v: Seq<char>|
                        a < n && #[trigger] schema_arg_at(attrs, a, j, v);
                    assert(aw < last);
                    let (a, j) = choose|a: int, j: int|
                        a < n - 1 && #[trigger] schema_arg_at(attrs, a, j, r->Some_0) && forall|
                            a2: int,
                            j2: int,
                            v2: Seq<char>,
                        | a2 < n - 1 && #[trigger] schema_arg_at(attrs, a2, j2, v2) ==> !comes_after(
                            a2,
                            j2,
                            a,
                            j,
                        );
                    assert forall|a2: int, j2: int, v2: Seq<char>|
                        a2 < n && #[trigger] schema_arg_at(attrs, a2, j2, v2) implies !comes_after(
                        a2,
                        j2,
                        a,
                        j,
                    ) by {
                        if a2 == last {
                        }
                    }
                }
            }
        }
    }
}

/// The schema an entity's queries use is the value of the last `schema` argument given to
/// its `#[canyon_entity(...)]` attributes, whether or not a `table_name` is given too; with
/// no `schema` argument there is no schema.
pub proof fn law_table_schema_last_schema(macro_data: &MacroTokens)
    requires
        spec_table_schema(macro_data) is Ok,
    ensures
        (forall|a: int, j: int, v: Seq<char>| !#[trigger] schema_arg_at(macro_data.attrs@, a, j, v))
            ==> spec_table_schema(macro_data)->Ok_0.0 is None,
        spec_table_schema(macro_data)->Ok_0.0 matches Some(s) ==> exists|a: int, j: int|
            #[trigger] schema_arg_at(macro_data.attrs@, a, j, s) && forall|
                a2: int,
                j2: int,
                v2: Seq<char>,
            | #[trigger] schema_arg_at(macro_data.attrs@, a2, j2, v2) ==> !comes_after(a2, j2, a, j),
        (exists|a: int, j: int, v: Seq<char>| #[trigger] schema_arg_at(macro_data.attrs@, a, j, v))
            ==> spec_table_schema(macro_data)->Ok_0.0 is Some,
{
    let attrs = macro_data.attrs@;
    lemma_attrs_fold_schema(attrs, attrs.len());
}

} // verus!
