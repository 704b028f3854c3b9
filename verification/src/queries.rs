//! The SQL statements and method names that the CRUD generators write into the code they
//! generate.
use vstd::prelude::*;

use crate::attribute::all_named;
use crate::field_annotation::{AnnotationView, EntityFieldAnnotation};
use crate::helpers::{placeholder_list, placeholders_generator};
use crate::macro_tokens::{fk_annotations_upto, fk_fields_readable, MacroTokens};
use crate::error::{err_view, ErrorSpan, MacroError};
use crate::naming::{database_table_name_to_struct_ident, invalid_table_message, is_valid_table_name, struct_name_of};
use crate::text::{is_ascii_alnum, push_str, string_of};
use crate::tokens::{ident_parse_accepts, ident_text};

verus! {

/// `SELECT * FROM <table>`.
pub open spec fn select_all_sql(table: Seq<char>) -> Seq<char> {
    "SELECT * FROM "@ + table
}

/// `SELECT COUNT (*) FROM <table>`.
pub open spec fn count_sql(table: Seq<char>) -> Seq<char> {
    "SELECT COUNT (*) FROM "@ + table
}

/// `SELECT * FROM <table> WHERE <pk> = $1`.
pub open spec fn find_by_pk_sql(table: Seq<char>, pk: Seq<char>) -> Seq<char> {
    "SELECT * FROM "@ + table + " WHERE "@ + pk + " = $1"@
}

/// `SELECT * FROM <table> WHERE "<column>" = $1`, the column quoted.
pub open spec fn find_by_column_sql(table: Seq<char>, column: Seq<char>) -> Seq<char> {
    "SELECT * FROM "@ + table + " WHERE \""@ + column + "\" = $1"@
}

/// The statement that reads every row of a table.
pub fn select_all_stmt(table_schema_data: &str) -> (r: String)
    ensures
        r@ == select_all_sql(table_schema_data@),
{
    let mut s = string_of("SELECT * FROM ");
    push_str(&mut s, table_schema_data);
    s
}

/// The statement that counts the rows of a table.
pub fn count_stmt(table_schema_data: &str) -> (r: String)
    ensures
        r@ == count_sql(table_schema_data@),
{
    let mut s = string_of("SELECT COUNT (*) FROM ");
    push_str(&mut s, table_schema_data);
    s
}

/// The statement that reads the row whose primary key is the first parameter.
pub fn find_by_pk_stmt(table_schema_data: &str, pk: &str) -> (r: String)
    ensures
        r@ == find_by_pk_sql(table_schema_data@, pk@),
{
    let mut s = string_of("SELECT * FROM ");
    push_str(&mut s, table_schema_data);
    push_str(&mut s, " WHERE ");
    push_str(&mut s, pk);
    push_str(&mut s, " = $1");
    s
}

/// The statement that reads the rows whose quoted `column` equals the first parameter.
pub fn find_by_column_stmt(table: &str, column: &str) -> (r: String)
    ensures
        r@ == find_by_column_sql(table@, column@),
{
    let mut s = string_of("SELECT * FROM ");
    push_str(&mut s, table);
    push_str(&mut s, " WHERE \"");
    push_str(&mut s, column);
    push_str(&mut s, "\" = $1");
    s
}

/// The name of the method that finds the parent row referenced by a foreign key to `table`:
/// `search_<table>`.
pub fn search_method_name(table: &str) -> (r: String)
    ensures
        r@ == "search_"@ + table@,
{
    let mut s = string_of("search_");
    push_str(&mut s, table);
    s
}

/// The name of the method that finds the child rows that reference a parent row through
/// a foreign key to `table`: `search_<table>_childrens`.
pub fn search_childrens_method_name(table: &str) -> (r: String)
    ensures
        r@ == "search_"@ + table@ + "_childrens"@,
{
    let mut s = string_of("search_");
    push_str(&mut s, table);
    push_str(&mut s, "_childrens");
    s
}

/// The name of the variant of a method that runs on a named datasource:
/// `<method>_datasource`.
pub fn datasource_method_name(method: &str) -> (r: String)
    ensures
        r@ == method@ + "_datasource"@,
{
    let mut s = string_of(method);
    push_str(&mut s, "_datasource");
    s
}

/// The items separated by `, `.
pub open spec fn comma_join(items: Seq<Seq<char>>) -> Seq<char>
    decreases items.len(),
{
    if items.len() == 0 {
        Seq::empty()
    } else if items.len() == 1 {
        items[0]
    } else {
        comma_join(items.drop_last()) + ", "@ + items.last()
    }
}

/// Joins the names with `, `.
pub fn join_columns(columns: &Vec<&String>) -> (r: String)
    ensures
        r@ == comma_join(columns@.map_values(|c: &String| c@)),
{
    let ghost names = columns@.map_values(|c: &String| c@);
    let mut s = String::new();
    let mut i: usize = 0;
    while i < columns.len()
        invariant
            names == columns@.map_values(|c: &String| c@),
            i <= columns@.len(),
            s@ == comma_join(names.subrange(0, i as int)),
        decreases columns@.len() - i,
    {
        if i > 0 {
            push_str(&mut s, ", ");
        }
        push_str(&mut s, columns[i].as_str());
        assert(names.subrange(0, i + 1).drop_last() =~= names.subrange(0, i as int));
        i = i + 1;
    }
    assert(names.subrange(0, columns@.len() as int) =~= names);
    s
}

/// `INSERT INTO <table> (<columns>) VALUES ($1, ..., $n)`, followed by
/// ` RETURNING <pk>` when there is a primary key.
pub open spec fn insert_sql(table: Seq<char>, columns: Seq<Seq<char>>, pk: Option<Seq<char>>) -> Seq<char> {
    "INSERT INTO "@ + table + " ("@ + comma_join(columns) + ") VALUES ("@ + placeholder_list(
        columns.len(),
    ) + ")"@ + match pk {
        Some(p) => " RETURNING "@ + p,
        None => Seq::empty(),
    }
}

/// The insert statement of an entity: every column but the primary key, one placeholder
/// per column, and the primary key returned when there is one.
pub fn generate_insert_sql_statement(macro_data: &MacroTokens, table_schema_data: &str) -> (r: String)
    requires
        all_named(macro_data.columns_skipping_pk()),
        macro_data.fields@.len() < usize::MAX,
    ensures
        r@ == insert_sql(
            table_schema_data@,
            macro_data.columns_skipping_pk().map_values(|f: crate::attribute::FieldModel| f.ident->Some_0@),
            macro_data.pk_name_of_ident(),
        ),
{
    let idents = macro_data.get_fields_idents_skipping_pk();
    let insert_columns = join_columns(&idents);
    assert(idents@.map_values(|c: &String| c@) =~= macro_data.columns_skipping_pk().map_values(
        |f: crate::attribute::FieldModel| f.ident->Some_0@,
    ));
    proof {
        macro_data.lemma_kept_columns_len(macro_data.fields@.len());
    }
    let placeholders = placeholders_generator(idents.len() + 1);
    let mut stmt = string_of("INSERT INTO ");
    push_str(&mut stmt, table_schema_data);
    push_str(&mut stmt, " (");
    push_str(&mut stmt, insert_columns.as_str());
    push_str(&mut stmt, ") VALUES (");
    push_str(&mut stmt, placeholders.as_str());
    push_str(&mut stmt, ")");
    if let Some(primary_key) = macro_data.get_primary_key_annotation() {
        push_str(&mut stmt, " RETURNING ");
        push_str(&mut stmt, primary_key.as_str());
    }
    stmt
}

/// The foreign keys among the first `n` (field, annotation) pairs, as (field, table,
/// column), in order.
pub open spec fn fk_entries(
    pairs: Seq<(Seq<char>, AnnotationView)>,
    n: nat,
) -> Seq<(Seq<char>, Seq<char>, Seq<char>)>
    decreases n,
{
    if n == 0 {
        Seq::empty()
    } else {
        let prev = fk_entries(pairs, (n - 1) as nat);
        match pairs[n - 1].1 {
            AnnotationView::ForeignKey(table, column) => prev.push((pairs[n - 1].0, table, column)),
            AnnotationView::PrimaryKey(_) => prev,
        }
    }
}

/// The foreign keys declared on the fields of an entity, as (field, table, column).
pub open spec fn entity_fks(macro_data: &MacroTokens) -> Seq<(Seq<char>, Seq<char>, Seq<char>)> {
    let pairs = fk_annotations_upto(macro_data.fields@, macro_data.fields@.len());
    fk_entries(pairs, pairs.len())
}

/// `syn` accepts the type name of the table as an identifier, so that the parent type can
/// be named.
pub open spec fn table_type_nameable(table: Seq<char>) -> bool {
    is_valid_table_name(table) && ident_parse_accepts(struct_name_of(table))
}

/// The lookup of the parent row of one foreign key field.
#[derive(Debug)]
pub struct ForeignKeySearch<'a> {
    /// The foreign key field, whose value is the parameter of the query.
    pub field: &'a String,
    /// The type of the referenced table, which the method returns.
    pub parent_type: proc_macro2::Ident,
    pub method_name: String,
    pub datasource_method_name: String,
    pub stmt: String,
}

/// The parent lookups of an entity, one per foreign key, in field order. The type name of
/// each referenced table must be an identifier; the first table for which it is not gives
/// the diagnostic.
pub fn foreign_key_searches<'a>(macro_data: &MacroTokens<'a>) -> (r: Result<
    Vec<ForeignKeySearch<'a>>,
    MacroError,
>)
    requires
        fk_fields_readable(macro_data.fields@),
    ensures
        r is Ok <==> forall|k: int|
            0 <= k < entity_fks(macro_data).len() ==> table_type_nameable(
                (#[trigger] entity_fks(macro_data)[k]).1,
            ),
        r matches Ok(v) ==> {
            &&& v@.len() == entity_fks(macro_data).len()
            &&& forall|k: int|
                0 <= k < v@.len() ==> {
                    let (field, table, column) = entity_fks(macro_data)[k];
                    &&& (#[trigger] v@[k]).field@ == field
                    &&& ident_text(v@[k].parent_type) == struct_name_of(table)
                    &&& v@[k].method_name@ == "search_"@ + table
                    &&& v@[k].datasource_method_name@ == "search_"@ + table + "_datasource"@
                    &&& v@[k].stmt@ == find_by_column_sql(table, column)
                }
        },
        r matches Err(e) ==> exists|k: int|
            0 <= k < entity_fks(macro_data).len() && !table_type_nameable(
                (#[trigger] entity_fks(macro_data)[k]).1,
            ) && (forall|j: int| 0 <= j < k ==> table_type_nameable(entity_fks(macro_data)[j].1))
                && e@ == err_view(ErrorSpan::CallSite, invalid_table_message(entity_fks(macro_data)[k].1)),
{
    let annotations = macro_data.get_fk_annotations();
    let ghost pairs = fk_annotations_upto(macro_data.fields@, macro_data.fields@.len());
    let mut out: Vec<ForeignKeySearch<'a>> = Vec::new();
    let mut i: usize = 0;
    while i < annotations.len()
        invariant
            pairs == fk_annotations_upto(macro_data.fields@, macro_data.fields@.len()),
            annotations@.len() == pairs.len(),
            forall|k: int|
                0 <= k < annotations@.len() ==> (#[trigger] annotations@[k]).0@ == pairs[k].0
                    && annotations@[k].1@ == pairs[k].1,
            i <= annotations@.len(),
            out@.len() == fk_entries(pairs, i as nat).len(),
            forall|k: int| 0 <= k < out@.len() ==> table_type_nameable(fk_entries(pairs, i as nat)[k].1),
            forall|k: int|
                0 <= k < out@.len() ==> {
                    let (field, table, column) = fk_entries(pairs, i as nat)[k];
                    &&& (#[trigger] out@[k]).field@ == field
                    &&& ident_text(out@[k].parent_type) == struct_name_of(table)
                    &&& out@[k].method_name@ == "search_"@ + table
                    &&& out@[k].datasource_method_name@ == "search_"@ + table + "_datasource"@
                    &&& out@[k].stmt@ == find_by_column_sql(table, column)
                },
        decreases annotations@.len() - i,
    {
        let (field, annotation) = &annotations[i];
        let ghost prev = fk_entries(pairs, i as nat);
        match annotation {
            EntityFieldAnnotation::ForeignKey(table, column) => {
                let ghost entry = (field@, table@, column@);
                let parent_type = match database_table_name_to_struct_ident(table.as_str()) {
                    Ok(ident) => ident,
                    Err(e) => {
                        proof {
                            lemma_fk_entries_prefix(pairs, (i + 1) as nat, pairs.len());
                            assert(entity_fks(macro_data)[prev.len() as int] == entry);
                        }
                        return Err(e);
                    },
                };
                let method_name = search_method_name(table.as_str());
                let datasource = datasource_method_name(method_name.as_str());
                let stmt = find_by_column_stmt(table.as_str(), column.as_str());
                out.push(
                    ForeignKeySearch {
                        field: *field,
                        parent_type,
                        method_name,
                        datasource_method_name: datasource,
                        stmt,
                    },
                );
            },
            EntityFieldAnnotation::PrimaryKey(_) => {},
        }
        i = i + 1;
    }
    Ok(out)
}

/// The entries of a shorter prefix are a prefix of the entries of a longer one.
proof fn lemma_fk_entries_prefix(pairs: Seq<(Seq<char>, AnnotationView)>, k: nat, m: nat)
    requires
        k <= m,
    ensures
        fk_entries(pairs, k).len() <= fk_entries(pairs, m).len(),
        forall|j: int| 0 <= j < fk_entries(pairs, k).len() ==> fk_entries(pairs, m)[j] == fk_entries(pairs, k)[j],
    decreases m,
{
    if m > k {
        lemma_fk_entries_prefix(pairs, k, (m - 1) as nat);
    }
}

/// The lookup of the child rows that reference a parent through one foreign key field.
#[derive(Debug)]
pub struct ReverseForeignKeySearch<'a> {
    /// The foreign key field of the child.
    pub field: &'a String,
    /// The referenced table and column, read from the parent value.
    pub table: String,
    pub column: String,
    pub method_name: String,
    pub datasource_method_name: String,
    pub stmt: String,
}

/// The child lookups of an entity, one per foreign key, in field order: each queries the
/// entity's own table on the quoted foreign key column.
pub fn reverse_foreign_key_searches<'a>(
    macro_data: &MacroTokens<'a>,
    table_schema_data: &str,
) -> (r: Vec<ReverseForeignKeySearch<'a>>)
    requires
        fk_fields_readable(macro_data.fields@),
    ensures
        r@.len() == entity_fks(macro_data).len(),
        forall|k: int|
            0 <= k < r@.len() ==> {
                let (field, table, column) = entity_fks(macro_data)[k];
                &&& (#[trigger] r@[k]).field@ == field
                &&& r@[k].table@ == table
                &&& r@[k].column@ == column
                &&& r@[k].method_name@ == "search_"@ + table + "_childrens"@
                &&& r@[k].datasource_method_name@ == "search_"@ + table + "_childrens"@ + "_datasource"@
                &&& r@[k].stmt@ == find_by_column_sql(table_schema_data@, field)
            },
{
    let annotations = macro_data.get_fk_annotations();
    let ghost pairs = fk_annotations_upto(macro_data.fields@, macro_data.fields@.len());
    let mut out: Vec<ReverseForeignKeySearch<'a>> = Vec::new();
    let mut i: usize = 0;
    while i < annotations.len()
        invariant
            pairs == fk_annotations_upto(macro_data.fields@, macro_data.fields@.len()),
            annotations@.len() == pairs.len(),
            forall|k: int|
                0 <= k < annotations@.len() ==> (#[trigger] annotations@[k]).0@ == pairs[k].0
                    && annotations@[k].1@ == pairs[k].1,
            i <= annotations@.len(),
            out@.len() == fk_entries(pairs, i as nat).len(),
            forall|k: int|
                0 <= k < out@.len() ==> {
                    let (field, table, column) = fk_entries(pairs, i as nat)[k];
                    &&& (#[trigger] out@[k]).field@ == field
                    &&& out@[k].table@ == table
                    &&& out@[k].column@ == column
                    &&& out@[k].method_name@ == "search_"@ + table + "_childrens"@
                    &&& out@[k].datasource_method_name@ == "search_"@ + table
                        + "_childrens"@ + "_datasource"@
                    &&& out@[k].stmt@ == find_by_column_sql(table_schema_data@, field)
                },
        decreases annotations@.len() - i,
    {
        let (field, annotation) = &annotations[i];
        match annotation {
            EntityFieldAnnotation::ForeignKey(table, column) => {
                let method_name = search_childrens_method_name(table.as_str());
                let datasource = datasource_method_name(method_name.as_str());
                let stmt = find_by_column_stmt(table_schema_data, field.as_str());
                out.push(
                    ReverseForeignKeySearch {
                        field: *field,
                        table: table.clone(),
                        column: column.clone(),
                        method_name,
                        datasource_method_name: datasource,
                        stmt,
                    },
                );
            },
            EntityFieldAnnotation::PrimaryKey(_) => {},
        }
        i = i + 1;
    }
    out
}

/// The text that `{:?}` writes for a string: the string between double quotes, with
/// quotes, backslashes and non-printable characters escaped.
pub uninterp spec fn debug_text(s: Seq<char>) -> Seq<char>;

/// The string written with `{:?}`, as `format!` does it.
///
/// The contract names the result `debug_text`, and states it exactly for the strings that
/// need no escape, those made of ASCII letters, digits and underscores: they are only put
/// between double quotes. The escapes of other characters are not stated.
#[verifier::external_body]
fn debug_str(s: &str) -> (r: String)
    ensures
        r@ == debug_text(s@),
        (forall|i: int| 0 <= i < s@.len() ==> is_ascii_alnum(#[trigger] s@[i]) || s@[i] == '_')
            ==> r@ == "\""@ + s@ + "\""@,
{
    format!("{:?}", s)
}

/// `DELETE FROM <table> WHERE "<pk>" = $1`, the primary key written as `{:?}` writes it.
pub open spec fn delete_sql(table: Seq<char>, pk: Seq<char>) -> Seq<char> {
    "DELETE FROM "@ + table + " WHERE "@ + debug_text(pk) + " = $1"@
}

/// The statement that deletes the row whose primary key is the first parameter.
pub fn delete_by_pk_stmt(table_schema_data: &str, primary_key: &str) -> (r: String)
    ensures
        r@ == delete_sql(table_schema_data@, primary_key@),
        (forall|i: int|
            0 <= i < primary_key@.len() ==> is_ascii_alnum(#[trigger] primary_key@[i])
                || primary_key@[i] == '_') ==> r@ == "DELETE FROM "@ + table_schema_data@
            + " WHERE "@ + ("\""@ + primary_key@ + "\""@) + " = $1"@,
{
    let quoted = debug_str(primary_key);
    let mut s = string_of("DELETE FROM ");
    push_str(&mut s, table_schema_data);
    push_str(&mut s, " WHERE ");
    push_str(&mut s, quoted.as_str());
    push_str(&mut s, " = $1");
    s
}

} // verus!
