//! What the CRUD derive macros read from the struct they are attached to.
use vstd::prelude::*;

use crate::attribute::{
    all_named, field_has_target_attribute, first_segment, has_target_attribute, is_ident, path_is_ident,
    AttributeModel, DeriveModel, FieldModel,
};
use crate::crud_attribute::{spec_crud_attribute, CanyonCrudAttribute, CrudView};
use crate::error::{err_view, macro_error, ErrorSpan, ErrorView, MacroError};
use crate::field_annotation::{opt_view, spec_annotation, AnnotationView, EntityFieldAnnotation};
use crate::primary_key::{PrimaryKeyAttribute, PrimaryKeyIndex};
use crate::naming::{default_database_table_name_from_entity_name, default_table_name};
use crate::text::{str_eq, string_of};
use crate::types::TypeModel;

verus! {

/// The field carries `#[primary_key]` (as the first segment of an attribute path).
pub open spec fn is_pk_field(f: FieldModel) -> bool {
    has_target_attribute(f, "primary_key"@)
}

/// Field `i` is the first field that carries `#[primary_key]`.
pub open spec fn is_first_pk(fields: Seq<FieldModel>, i: int) -> bool {
    &&& 0 <= i < fields.len()
    &&& is_pk_field(fields[i])
    &&& forall|k: int| 0 <= k < i ==> !is_pk_field(#[trigger] fields[k])
}

/// No field carries `#[primary_key]`.
pub open spec fn no_pk(fields: Seq<FieldModel>) -> bool {
    forall|k: int| 0 <= k < fields.len() ==> !is_pk_field(#[trigger] fields[k])
}

/// The first field that carries `#[primary_key]`, if any, has a name.
pub open spec fn first_pk_named(fields: Seq<FieldModel>) -> bool {
    forall|i: int| is_first_pk(fields, i) ==> (#[trigger] fields[i]).ident is Some
}

/// The `#[canyon_crud(...)]` attributes among the first `n`, read in order: the last one
/// counts, and the first that does not read is an error.
pub open spec fn crud_attrs_scan(attrs: Seq<AttributeModel>, n: nat) -> Result<
    Option<CrudView>,
    ErrorView,
>
    decreases n,
{
    if n == 0 {
        Ok(None)
    } else {
        match crud_attrs_scan(attrs, (n - 1) as nat) {
            Err(e) => Err(e),
            Ok(acc) => if path_is_ident(attrs[n - 1].path, "canyon_crud"@) {
                match spec_crud_attribute(attrs[n - 1].ident_pairs) {
                    Ok(c) => Ok(Some(c)),
                    Err(e) => Err(e),
                }
            } else {
                Ok(acc)
            },
        }
    }
}

proof fn lemma_crud_attrs_scan_err(attrs: Seq<AttributeModel>, k: nat, m: nat)
    requires
        k <= m,
        crud_attrs_scan(attrs, k) is Err,
    ensures
        crud_attrs_scan(attrs, m) == crud_attrs_scan(attrs, k),
    decreases m,
{
    if m > k {
        lemma_crud_attrs_scan_err(attrs, k, (m - 1) as nat);
    }
}

/// The view of an optional `#[canyon_crud]` reading.
pub open spec fn opt_crud_view(o: Option<CanyonCrudAttribute>) -> Option<CrudView> {
    match o {
        Some(c) => Some(c@),
        None => None,
    }
}

/// Whether a primary key field counts as autoincremental: its first attribute whose path is
/// exactly `primary_key` reads as `PrimaryKey(b)` and gives `b`; it counts as
/// autoincremental when no such attribute exists or when that attribute does not read.
pub open spec fn pk_autoincremental(attrs: Seq<AttributeModel>) -> bool
    decreases attrs.len(),
{
    if attrs.len() == 0 {
        true
    } else if path_is_ident(attrs[0].path, "primary_key"@) {
        match spec_annotation(attrs[0]) {
            Ok(AnnotationView::PrimaryKey(b)) => b,
            Ok(AnnotationView::ForeignKey(_, _)) => false,
            Err(_) => true,
        }
    } else {
        pk_autoincremental(attrs.drop_first())
    }
}

/// Finds the first field annotated with `#[primary_key]`, with its position.
pub fn find_primary_key_field_annotation<'a>(fields: &'a Vec<FieldModel>) -> (r: Option<
    (PrimaryKeyIndex, &'a FieldModel),
>)
    ensures
        match r {
            Some((idx, f)) => is_first_pk(fields@, idx.0 as int) && *f == fields@[idx.0 as int],
            None => no_pk(fields@),
        },
{
    let mut i: usize = 0;
    while i < fields.len()
        invariant
            i <= fields@.len(),
            forall|k: int| 0 <= k < i ==> !is_pk_field(#[trigger] fields@[k]),
        decreases fields@.len() - i,
    {
        if field_has_target_attribute(&fields[i], "primary_key") {
            return Some((PrimaryKeyIndex(i), &fields[i]));
        }
        i = i + 1;
    }
    None
}

/// Whether the primary key field `field` is autoincremental.
pub fn primary_key_is_autoincremental(field: &FieldModel) -> (r: bool)
    ensures
        r == pk_autoincremental(field.attrs@),
{
    let attrs = &field.attrs;
    let mut j: usize = 0;
    assert(attrs@.subrange(0, attrs@.len() as int) =~= attrs@);
    while j < attrs.len()
        invariant
            j <= attrs@.len(),
            attrs == &field.attrs,
            pk_autoincremental(attrs@) == pk_autoincremental(attrs@.subrange(j as int, attrs@.len() as int)),
        decreases attrs@.len() - j,
    {
        let ghost rest = attrs@.subrange(j as int, attrs@.len() as int);
        if is_ident(&attrs[j].path, "primary_key") {
            let parsed = EntityFieldAnnotation::try_from(&attrs[j]);
            let auto = match parsed {
                Ok(a) => match a {
                    EntityFieldAnnotation::PrimaryKey(b) => b,
                    EntityFieldAnnotation::ForeignKey(_, _) => false,
                },
                Err(_) => true,
            };
            return auto;
        }
        assert(rest.drop_first() =~= attrs@.subrange(j + 1, attrs@.len() as int));
        j = j + 1;
    }
    true
}

/// The attribute is a `#[foreign_key(...)]` annotation that reads: its first path segment
/// is `foreign_key` and it reads as an annotation.
pub open spec fn is_fk_attr(a: AttributeModel) -> bool {
    first_segment(a.path) == Some("foreign_key"@) && spec_annotation(a) is Ok
}

/// The foreign key annotations among the first `m` attributes of a field, each with the
/// field's name.
pub open spec fn field_fks(f: FieldModel, m: nat) -> Seq<(Seq<char>, AnnotationView)>
    decreases m,
{
    if m == 0 {
        Seq::empty()
    } else {
        let prev = field_fks(f, (m - 1) as nat);
        let a = f.attrs@[m - 1];
        if is_fk_attr(a) {
            prev.push((f.ident->Some_0@, spec_annotation(a)->Ok_0))
        } else {
            prev
        }
    }
}

/// The foreign key annotations of the first `n` fields, in order.
pub open spec fn fk_annotations_upto(fields: Seq<FieldModel>, n: nat) -> Seq<
    (Seq<char>, AnnotationView),
>
    decreases n,
{
    if n == 0 {
        Seq::empty()
    } else {
        fk_annotations_upto(fields, (n - 1) as nat) + field_fks(
            fields[n - 1],
            fields[n - 1].attrs@.len(),
        )
    }
}

/// Every attribute path has a segment, and a field that carries a foreign key annotation
/// that reads has a name.
pub open spec fn fk_fields_readable(fields: Seq<FieldModel>) -> bool {
    forall|i: int, j: int|
        0 <= i < fields.len() && 0 <= j < fields[i].attrs@.len() ==> {
            &&& (#[trigger] fields[i].attrs@[j]).path.segments@.len() > 0
            &&& is_fk_attr(fields[i].attrs@[j]) ==> fields[i].ident is Some
        }
}

/// Field `i` is the first field named `name`.
pub open spec fn is_first_named(fields: Seq<FieldModel>, name: Seq<char>, i: int) -> bool {
    &&& 0 <= i < fields.len()
    &&& fields[i].ident->Some_0@ == name
    &&& forall|k: int| 0 <= k < i ==> (#[trigger] fields[k]).ident->Some_0@ != name
}

/// The diagnostic given for a type that is not a struct.
pub open spec fn only_structs_error() -> ErrorView {
    err_view(ErrorSpan::CallSite, "CanyonCrud may only be implemented for structs"@)
}

/// The data of a struct that a CRUD derive macro reads, with its `#[canyon_crud]`
/// arguments and its primary key field looked up once.
#[derive(Debug)]
pub struct MacroTokens<'a> {
    pub ty: &'a String,
    pub attrs: &'a Vec<AttributeModel>,
    pub fields: &'a Vec<FieldModel>,
    pub canyon_crud_attribute: Option<CanyonCrudAttribute>,
    pub primary_key_attribute: Option<PrimaryKeyAttribute<'a>>,
}

/// The refusal of a type that is not a struct.
pub fn raise_canyon_crud_only_for_structs_err<'a>() -> (r: Result<MacroTokens<'a>, MacroError>)
    ensures
        r matches Err(e) && e@ == only_structs_error(),
{
    Err(
        macro_error(
            ErrorSpan::CallSite,
            string_of("CanyonCrud may only be implemented for structs"),
        ),
    )
}

impl<'a> MacroTokens<'a> {
    /// The primary key lookup agrees with the fields: it holds the first field annotated
    /// with `#[primary_key]`, or nothing when no field is.
    pub open spec fn wf(&self) -> bool {
        match self.primary_key_attribute {
            Some(p) => {
                let i = p.index.0 as int;
                &&& is_first_pk(self.fields@, i)
                &&& self.fields@[i].ident is Some
                &&& p.ident@ == self.fields@[i].ident->Some_0@
                &&& p.name@ == p.ident@
                &&& *p.ty == self.fields@[i].ty
            },
            None => no_pk(self.fields@),
        }
    }

    /// The name of the primary key column, if the struct has one.
    pub open spec fn pk_name(&self) -> Option<Seq<char>> {
        match self.primary_key_attribute {
            Some(p) => Some(p.name@),
            None => None,
        }
    }

    /// The identifier of the primary key field, if the struct has one.
    pub open spec fn pk_name_of_ident(&self) -> Option<Seq<char>> {
        match self.primary_key_attribute {
            Some(p) => Some(p.ident@),
            None => None,
        }
    }

    /// The type named by `#[canyon_crud(maps_to = ...)]`, if given.
    pub open spec fn mapping_target(&self) -> Option<Seq<char>> {
        match self.canyon_crud_attribute {
            Some(c) => opt_view(c.maps_to),
            None => None,
        }
    }

    /// Reads the derive input. A type that is not a struct is refused, and so is a
    /// `#[canyon_crud(...)]` attribute whose arguments do not read.
    pub fn new(ast: &'a DeriveModel) -> (r: Result<MacroTokens<'a>, MacroError>)
        requires
            ast.fields matches Some(f) ==> first_pk_named(f@),
        ensures
            ast.fields is None ==> (r matches Err(e) && e@ == only_structs_error()),
            ast.fields matches Some(f) ==> (match crud_attrs_scan(ast.attrs@, ast.attrs@.len()) {
                Err(e) => (r matches Err(re) && re@ == e),
                Ok(c) => (r matches Ok(m) && {
                    &&& m.ty == &ast.ident
                    &&& m.attrs == &ast.attrs
                    &&& m.fields == &f
                    &&& opt_crud_view(m.canyon_crud_attribute) == c
                    &&& m.wf()
                }),
            }),
    {
        let fields = match &ast.fields {
            Some(f) => f,
            None => return raise_canyon_crud_only_for_structs_err(),
        };
        let primary_key_attribute = match find_primary_key_field_annotation(fields) {
            Some(found) => Some(PrimaryKeyAttribute::from(found)),
            None => None,
        };
        let attrs = &ast.attrs;
        let mut canyon_crud_attribute: Option<CanyonCrudAttribute> = None;
        let mut j: usize = 0;
        while j < attrs.len()
            invariant
                j <= attrs@.len(),
                attrs == &ast.attrs,
                ast.fields == Some(*fields),
                crud_attrs_scan(attrs@, j as nat) == Ok::<Option<CrudView>, ErrorView>(
                    opt_crud_view(canyon_crud_attribute),
                ),
            decreases attrs@.len() - j,
        {
            if is_ident(&attrs[j].path, "canyon_crud") {
                match CanyonCrudAttribute::parse(&attrs[j].ident_pairs) {
                    Ok(c) => {
                        canyon_crud_attribute = Some(c);
                    },
                    Err(e) => {
                        proof {
                            lemma_crud_attrs_scan_err(attrs@, (j + 1) as nat, attrs@.len());
                        }
                        return Err(e);
                    },
                }
            }
            j = j + 1;
        }
        Ok(MacroTokens { ty: &ast.ident, attrs, fields, canyon_crud_attribute, primary_key_attribute })
    }

    /// The type named by `#[canyon_crud(maps_to = ...)]`, if given.
    pub fn retrieve_mapping_target_type(&self) -> (r: Option<&String>)
        ensures
            match r {
                Some(s) => self.mapping_target() == Some(s@),
                None => self.mapping_target() is None,
            },
    {
        match &self.canyon_crud_attribute {
            Some(c) => c.maps_to.as_ref(),
            None => None,
        }
    }

    /// Field `i` is the primary key field, which the insert and update column lists leave
    /// out.
    pub open spec fn skips(&self, i: int) -> bool {
        match self.primary_key_attribute {
            Some(p) => i == p.index.0 as int,
            None => false,
        }
    }

    /// The first `n` fields without the skipped primary key field.
    pub open spec fn kept_columns(&self, n: nat) -> Seq<FieldModel>
        decreases n,
    {
        if n == 0 {
            Seq::empty()
        } else {
            let prev = self.kept_columns((n - 1) as nat);
            if self.skips(n - 1) {
                prev
            } else {
                prev.push(self.fields@[n - 1])
            }
        }
    }

    /// Leaving a field out never lengthens the list.
    pub proof fn lemma_kept_columns_len(&self, n: nat)
        requires
            n <= self.fields@.len(),
        ensures
            self.kept_columns(n).len() <= n,
        decreases n,
    {
        if n > 0 {
            self.lemma_kept_columns_len((n - 1) as nat);
        }
    }

    /// The fields that become columns of an insert or an update: every field but the
    /// primary key field.
    pub open spec fn columns_skipping_pk(&self) -> Seq<FieldModel> {
        self.kept_columns(self.fields@.len())
    }

    /// Every field with its name and its type.
    pub fn fields(&self) -> (r: Vec<(String, &'a TypeModel)>)
        requires
            all_named(self.fields@),
        ensures
            r@.len() == self.fields@.len(),
            forall|i: int|
                0 <= i < r@.len() ==> (#[trigger] r@[i]).0@ == self.fields@[i].ident->Some_0@
                    && *r@[i].1 == self.fields@[i].ty,
    {
        let fields: &'a Vec<FieldModel> = self.fields;
        let mut out: Vec<(String, &'a TypeModel)> = Vec::new();
        let mut i: usize = 0;
        while i < fields.len()
            invariant
                fields == self.fields,
                all_named(fields@),
                i <= fields@.len(),
                out@.len() == i,
                forall|k: int|
                    0 <= k < i ==> (#[trigger] out@[k]).0@ == fields@[k].ident->Some_0@
                        && *out@[k].1 == fields@[k].ty,
            decreases fields@.len() - i,
        {
            let f: &'a FieldModel = &fields[i];
            let name = f.ident.as_ref().unwrap().clone();
            out.push((name, &f.ty));
            i = i + 1;
        }
        out
    }

    /// The name and the type of every field of the struct.
    pub fn fields_with_types(&self) -> (r: Vec<(&'a String, &'a TypeModel)>)
        requires
            all_named(self.fields@),
        ensures
            r@.len() == self.fields@.len(),
            forall|i: int|
                0 <= i < r@.len() ==> (#[trigger] r@[i]).0@ == self.fields@[i].ident->Some_0@
                    && *r@[i].1 == self.fields@[i].ty,
    {
        let fields: &'a Vec<FieldModel> = self.fields;
        let mut out: Vec<(&'a String, &'a TypeModel)> = Vec::new();
        let mut i: usize = 0;
        while i < fields.len()
            invariant
                fields == self.fields,
                all_named(fields@),
                i <= fields@.len(),
                out@.len() == i,
                forall|k: int|
                    0 <= k < i ==> (#[trigger] out@[k]).0@ == fields@[k].ident->Some_0@
                        && *out@[k].1 == fields@[k].ty,
            decreases fields@.len() - i,
        {
            let f: &'a FieldModel = &fields[i];
            out.push((f.ident.as_ref().unwrap(), &f.ty));
            i = i + 1;
        }
        out
    }

    /// The pair (table, column) of every field, the table being the default table name of
    /// the struct.
    pub fn get_struct_fields_as_table_column_pairs(&self) -> (r: Vec<(String, String)>)
        requires
            all_named(self.fields@),
        ensures
            r@.len() == self.fields@.len(),
            forall|i: int|
                0 <= i < r@.len() ==> (#[trigger] r@[i]).0@ == default_table_name(self.ty@)
                    && r@[i].1@ == self.fields@[i].ident->Some_0@,
    {
        let table_name = default_database_table_name_from_entity_name(self.ty.as_str());
        let fields: &'a Vec<FieldModel> = self.fields;
        let mut out: Vec<(String, String)> = Vec::new();
        let mut i: usize = 0;
        while i < fields.len()
            invariant
                fields == self.fields,
                all_named(fields@),
                table_name@ == default_table_name(self.ty@),
                i <= fields@.len(),
                out@.len() == i,
                forall|k: int|
                    0 <= k < i ==> (#[trigger] out@[k]).0@ == table_name@ && out@[k].1@
                        == fields@[k].ident->Some_0@,
            decreases fields@.len() - i,
        {
            let f: &'a FieldModel = &fields[i];
            let column = f.ident.as_ref().unwrap().clone();
            out.push((table_name.clone(), column));
            i = i + 1;
        }
        out
    }

    /// Whether field `i` is the primary key field.
    fn is_skipped_pk(&self, i: usize) -> (r: bool)
        ensures
            r == self.skips(i as int),
    {
        match &self.primary_key_attribute {
            Some(pk) => i == pk.index.0,
            None => false,
        }
    }

    /// The fields in order, without the field annotated with `#[primary_key]`, if present.
    pub fn get_columns_skipping_pk(&self) -> (r: Vec<&'a FieldModel>)
        ensures
            r@.len() == self.columns_skipping_pk().len(),
            forall|i: int| 0 <= i < r@.len() ==> *(#[trigger] r@[i]) == self.columns_skipping_pk()[i],
    {
        let fields: &'a Vec<FieldModel> = self.fields;
        let mut out: Vec<&'a FieldModel> = Vec::new();
        let mut i: usize = 0;
        while i < fields.len()
            invariant
                fields == self.fields,
                i <= fields@.len(),
                out@.len() == self.kept_columns(i as nat).len(),
                forall|k: int| 0 <= k < out@.len() ==> *(#[trigger] out@[k]) == self.kept_columns(i as nat)[k],
            decreases fields@.len() - i,
        {
            let f: &'a FieldModel = &fields[i];
            if !self.is_skipped_pk(i) {
                out.push(f);
            }
            i = i + 1;
        }
        out
    }

    /// The pair (table, column) of every field, without the field annotated with
    /// `#[primary_key]`, if present.
    pub fn get_struct_fields_as_table_column_pairs_skipping_pk(&self) -> (r: Vec<(String, String)>)
        requires
            all_named(self.columns_skipping_pk()),
        ensures
            r@.len() == self.columns_skipping_pk().len(),
            forall|i: int|
                0 <= i < r@.len() ==> (#[trigger] r@[i]).0@ == default_table_name(self.ty@)
                    && r@[i].1@ == self.columns_skipping_pk()[i].ident->Some_0@,
    {
        let table_name = default_database_table_name_from_entity_name(self.ty.as_str());
        let columns = self.get_columns_skipping_pk();
        let mut out: Vec<(String, String)> = Vec::new();
        let mut i: usize = 0;
        while i < columns.len()
            invariant
                columns@.len() == self.columns_skipping_pk().len(),
                forall|k: int| 0 <= k < columns@.len() ==> *(#[trigger] columns@[k]) == self.columns_skipping_pk()[k],
                all_named(self.columns_skipping_pk()),
                table_name@ == default_table_name(self.ty@),
                i <= columns@.len(),
                out@.len() == i,
                forall|k: int|
                    0 <= k < i ==> (#[trigger] out@[k]).0@ == table_name@ && out@[k].1@
                        == self.columns_skipping_pk()[k].ident->Some_0@,
            decreases columns@.len() - i,
        {
            let f = columns[i];
            let column = f.ident.as_ref().unwrap().clone();
            out.push((table_name.clone(), column));
            i = i + 1;
        }
        out
    }

    /// The names of all the fields, without the field annotated with `#[primary_key]`,
    /// if present.
    pub fn get_fields_idents_skipping_pk(&self) -> (r: Vec<&'a String>)
        requires
            all_named(self.columns_skipping_pk()),
        ensures
            r@.len() == self.columns_skipping_pk().len(),
            forall|i: int|
                0 <= i < r@.len() ==> (#[trigger] r@[i])@ == self.columns_skipping_pk()[i].ident->Some_0@,
    {
        let columns = self.get_columns_skipping_pk();
        let mut out: Vec<&'a String> = Vec::new();
        let mut i: usize = 0;
        while i < columns.len()
            invariant
                columns@.len() == self.columns_skipping_pk().len(),
                forall|k: int| 0 <= k < columns@.len() ==> *(#[trigger] columns@[k]) == self.columns_skipping_pk()[k],
                all_named(self.columns_skipping_pk()),
                i <= columns@.len(),
                out@.len() == i,
                forall|k: int|
                    0 <= k < i ==> (#[trigger] out@[k])@ == self.columns_skipping_pk()[k].ident->Some_0@,
            decreases columns@.len() - i,
        {
            let f: &'a FieldModel = columns[i];
            out.push(f.ident.as_ref().unwrap());
            i = i + 1;
        }
        out
    }

    /// The primary key field, if the struct has one.
    pub fn get_primary_key_field_annotation(&self) -> (r: Option<&PrimaryKeyAttribute<'a>>)
        ensures
            match r {
                Some(p) => self.primary_key_attribute == Some(*p),
                None => self.primary_key_attribute is None,
            },
    {
        self.primary_key_attribute.as_ref()
    }

    /// The name of the primary key column, if the struct has one.
    pub fn get_primary_key_annotation(&self) -> (r: Option<String>)
        ensures
            opt_view(r) == self.pk_name_of_ident(),
    {
        match &self.primary_key_attribute {
            Some(p) => Some(p.ident.clone()),
            None => None,
        }
    }

    /// The name and the type of the first field named as the primary key.
    pub fn get_primary_key_ident_and_type(&self) -> (r: Option<(&'a String, &'a TypeModel)>)
        requires
            all_named(self.fields@),
        ensures
            match self.pk_name_of_ident() {
                None => r is None,
                Some(name) => match r {
                    Some((id, ty)) => id@ == name && exists|i: int|
                        is_first_named(self.fields@, name, i) && *ty == #[trigger] self.fields@[i].ty,
                    None => forall|k: int|
                        0 <= k < self.fields@.len() ==> (#[trigger] self.fields@[k]).ident->Some_0@ != name,
                },
            },
            self.wf() && self.primary_key_attribute is Some ==> r is Some,
    {
        let primary_key = match self.get_primary_key_annotation() {
            Some(pk) => pk,
            None => return None,
        };
        let pairs = self.fields_with_types();
        let mut i: usize = 0;
        while i < pairs.len()
            invariant
                all_named(self.fields@),
                pairs@.len() == self.fields@.len(),
                forall|k: int|
                    0 <= k < pairs@.len() ==> (#[trigger] pairs@[k]).0@ == self.fields@[k].ident->Some_0@
                        && *pairs@[k].1 == self.fields@[k].ty,
                self.pk_name_of_ident() == Some(primary_key@),
                i <= pairs@.len(),
                forall|k: int| 0 <= k < i ==> (#[trigger] self.fields@[k]).ident->Some_0@ != primary_key@,
            decreases pairs@.len() - i,
        {
            let (ident, ty) = pairs[i];
            if str_eq(ident.as_str(), primary_key.as_str()) {
                return Some((ident, ty));
            }
            i = i + 1;
        }
        None
    }

    /// Every foreign key annotation of the struct's fields that reads, with the name of
    /// its field, in field order and then attribute order. Attributes that do not read are
    /// passed over.
    pub fn get_fk_annotations(&self) -> (r: Vec<(&'a String, EntityFieldAnnotation)>)
        requires
            fk_fields_readable(self.fields@),
        ensures
            r@.len() == fk_annotations_upto(self.fields@, self.fields@.len()).len(),
            forall|k: int|
                0 <= k < r@.len() ==> (#[trigger] r@[k]).0@ == fk_annotations_upto(
                    self.fields@,
                    self.fields@.len(),
                )[k].0 && r@[k].1@ == fk_annotations_upto(self.fields@, self.fields@.len())[k].1,
    {
        let fields: &'a Vec<FieldModel> = self.fields;
        let mut out: Vec<(&'a String, EntityFieldAnnotation)> = Vec::new();
        let mut i: usize = 0;
        while i < fields.len()
            invariant
                fields == self.fields,
                fk_fields_readable(fields@),
                i <= fields@.len(),
                out@.len() == fk_annotations_upto(fields@, i as nat).len(),
                forall|k: int|
                    0 <= k < out@.len() ==> (#[trigger] out@[k]).0@ == fk_annotations_upto(
                        fields@,
                        i as nat,
                    )[k].0 && out@[k].1@ == fk_annotations_upto(fields@, i as nat)[k].1,
            decreases fields@.len() - i,
        {
            let field: &'a FieldModel = &fields[i];
            let ghost base = fk_annotations_upto(fields@, i as nat);
            let mut j: usize = 0;
            while j < field.attrs.len()
                invariant
                    field == &fields@[i as int],
                    fk_fields_readable(fields@),
                    0 <= i < fields@.len(),
                    j <= field.attrs@.len(),
                    out@.len() == (base + field_fks(*field, j as nat)).len(),
                    forall|k: int|
                        0 <= k < out@.len() ==> (#[trigger] out@[k]).0@ == (base + field_fks(
                            *field,
                            j as nat,
                        ))[k].0 && out@[k].1@ == (base + field_fks(*field, j as nat))[k].1,
                decreases field.attrs@.len() - j,
            {
                let attr = &field.attrs[j];
                if str_eq(attr.path.segments[0].as_str(), "foreign_key") {
                    let parsed = EntityFieldAnnotation::try_from(attr);
                    match parsed {
                        Ok(annotation) => {
                            let ghost prev = base + field_fks(*field, j as nat);
                            out.push((field.ident.as_ref().unwrap(), annotation));
                            assert(base + field_fks(*field, (j + 1) as nat) =~= prev.push(
                                (field.ident->Some_0@, spec_annotation(*attr)->Ok_0),
                            ));
                        },
                        Err(_) => {},
                    }
                }
                j = j + 1;
            }
            assert(fk_annotations_upto(fields@, (i + 1) as nat) == base + field_fks(
                *field,
                field.attrs@.len(),
            ));
            i = i + 1;
        }
        out
    }

    /// The fields whose values an update binds, in order: the value of each column the
    /// update sets (every field but the primary key, in field order), then the primary
    /// key's value for the `WHERE` clause. The columns set are those of
    /// `get_struct_fields_as_table_column_pairs_skipping_pk`, in the same order.
    pub fn update_value_fields(&self) -> (r: Vec<&'a String>)
        requires
            all_named(self.columns_skipping_pk()),
            self.primary_key_attribute is Some,
        ensures
            r@.len() == self.columns_skipping_pk().len() + 1,
            forall|i: int|
                0 <= i < self.columns_skipping_pk().len() ==> (#[trigger] r@[i])@
                    == self.columns_skipping_pk()[i].ident->Some_0@,
            r@.last()@ == self.primary_key_attribute->Some_0.ident@,
    {
        let mut out = self.get_fields_idents_skipping_pk();
        match &self.primary_key_attribute {
            Some(pk) => out.push(pk.ident),
            None => {},
        }
        out
    }

    /// Whether some field carries a `#[primary_key]` annotation.
    pub fn type_has_primary_key(&self) -> (r: bool)
        ensures
            r == exists|i: int| 0 <= i < self.fields@.len() && is_pk_field(#[trigger] self.fields@[i]),
    {
        let mut i: usize = 0;
        while i < self.fields.len()
            invariant
                i <= self.fields@.len(),
                forall|k: int| 0 <= k < i ==> !is_pk_field(#[trigger] self.fields@[k]),
            decreases self.fields@.len() - i,
        {
            if field_has_target_attribute(&self.fields[i], "primary_key") {
                return true;
            }
            i = i + 1;
        }
        false
    }
}

impl<'a> MacroTokens<'a> {
    /// The position of the field that inserts and updates leave out, if any.
    pub open spec fn skipped_index(&self) -> Option<int> {
        match self.primary_key_attribute {
            Some(p) => Some(p.index.0 as int),
            None => None,
        }
    }

    proof fn lemma_kept_columns(&self, n: nat)
        requires
            self.wf(),
            n <= self.fields@.len(),
        ensures
            self.kept_columns(n) == (match self.skipped_index() {
                Some(k) => if k < n {
                    self.fields@.subrange(0, n as int).remove(k)
                } else {
                    self.fields@.subrange(0, n as int)
                },
                None => self.fields@.subrange(0, n as int),
            }),
        decreases n,
    {
        if n == 0 {
            assert(self.fields@.subrange(0, 0) =~= Seq::<FieldModel>::empty());
        } else {
            self.lemma_kept_columns((n - 1) as nat);
            let f = self.fields@[n - 1];
            let prefix = self.fields@.subrange(0, n as int);
            let shorter = self.fields@.subrange(0, n - 1);
            assert(prefix =~= shorter.push(f));
            match self.skipped_index() {
                Some(k) => {
                    if k == n - 1 {
                        assert(prefix.remove(k) =~= shorter);
                    } else if k < n - 1 {
                        assert(prefix.remove(k) =~= shorter.remove(k).push(f));
                    }
                },
                None => {},
            }
        }
    }
}

/// The insert and update column lists hold every field of the struct in order, except
/// the field annotated with `#[primary_key]`.
pub proof fn law_insert_columns(m: MacroTokens)
    requires
        m.wf(),
    ensures
        m.columns_skipping_pk() == (match m.skipped_index() {
            Some(k) => m.fields@.remove(k),
            None => m.fields@,
        }),
{
    m.lemma_kept_columns(m.fields@.len());
    assert(m.fields@.subrange(0, m.fields@.len() as int) =~= m.fields@);
}

/// The common operations over the data a macro reads.
pub trait MacroDataParser {

}

impl<'a> MacroTokens<'a> {
    /// The names of the struct's fields, in order.
    pub fn get_struct_fields(&self) -> (r: Vec<String>)
        requires
            all_named(self.fields@),
        ensures
            r@.len() == self.fields@.len(),
            forall|i: int| 0 <= i < r@.len() ==> (#[trigger] r@[i])@ == self.fields@[i].ident->Some_0@,
    {
        let fields: &'a Vec<FieldModel> = self.fields;
        let mut out: Vec<String> = Vec::new();
        let mut i: usize = 0;
        while i < fields.len()
            invariant
                fields == self.fields,
                all_named(fields@),
                i <= fields@.len(),
                out@.len() == i,
                forall|k: int| 0 <= k < i ==> (#[trigger] out@[k])@ == fields@[k].ident->Some_0@,
            decreases fields@.len() - i,
        {
            let f: &'a FieldModel = &fields[i];
            out.push(f.ident.as_ref().unwrap().clone());
            i = i + 1;
        }
        out
    }
}

/// How many of the first `m` attributes of a field are foreign key annotations that read.
pub open spec fn fk_attr_count(f: FieldModel, m: nat) -> nat
    decreases m,
{
    if m == 0 {
        0
    } else {
        fk_attr_count(f, (m - 1) as nat) + if is_fk_attr(f.attrs@[m - 1]) {
            1nat
        } else {
            0nat
        }
    }
}

/// How many foreign key annotations that read the first `n` fields carry in all.
pub open spec fn fk_total(fields: Seq<FieldModel>, n: nat) -> nat
    decreases n,
{
    if n == 0 {
        0
    } else {
        fk_total(fields, (n - 1) as nat) + fk_attr_count(fields[n - 1], fields[n - 1].attrs@.len())
    }
}

/// The entry that attribute `j` of field `i` contributes: the field's name and the
/// annotation the attribute reads as.
pub open spec fn fk_entry(fields: Seq<FieldModel>, i: int, j: int) -> (Seq<char>, AnnotationView) {
    (fields[i].ident->Some_0@, spec_annotation(fields[i].attrs@[j])->Ok_0)
}

proof fn lemma_field_fks_facts(f: FieldModel, m: nat)
    requires
        m <= f.attrs@.len(),
    ensures
        field_fks(f, m).len() == fk_attr_count(f, m),
        forall|j: int|
            0 <= j < m && #[trigger] is_fk_attr(f.attrs@[j]) ==> field_fks(f, m).contains(
                (f.ident->Some_0@, spec_annotation(f.attrs@[j])->Ok_0),
            ),
    decreases m,
{
    if m > 0 {
        lemma_field_fks_facts(f, (m - 1) as nat);
        let prev = field_fks(f, (m - 1) as nat);
        assert forall|j: int|
            0 <= j < m && #[trigger] is_fk_attr(f.attrs@[j]) implies field_fks(f, m).contains(
                (f.ident->Some_0@, spec_annotation(f.attrs@[j])->Ok_0),
            ) by {
            let e = (f.ident->Some_0@, spec_annotation(f.attrs@[j])->Ok_0);
            if j < m - 1 {
                let k = choose|k: int| 0 <= k < prev.len() && prev[k] == e;
                if is_fk_attr(f.attrs@[m - 1]) {
                    assert(field_fks(f, m)[k] == e);
                } else {
                    assert(field_fks(f, m) == prev);
                }
            } else {
                assert(field_fks(f, m) == prev.push(e));
                assert(field_fks(f, m)[prev.len() as int] == e);
            }
        }
    }
}

proof fn lemma_fk_upto_facts(fields: Seq<FieldModel>, n: nat)
    requires
        n <= fields.len(),
    ensures
        fk_annotations_upto(fields, n).len() == fk_total(fields, n),
        forall|i: int, j: int|
            0 <= i < n && 0 <= j < fields[i].attrs@.len() && #[trigger] is_fk_attr(
                fields[i].attrs@[j],
            ) ==> fk_annotations_upto(fields, n).contains(fk_entry(fields, i, j)),
    decreases n,
{
    if n > 0 {
        lemma_fk_upto_facts(fields, (n - 1) as nat);
        let f = fields[n - 1];
        lemma_field_fks_facts(f, f.attrs@.len());
        let prev = fk_annotations_upto(fields, (n - 1) as nat);
        let tail = field_fks(f, f.attrs@.len());
        let all = fk_annotations_upto(fields, n);
        assert(all == prev + tail);
        assert forall|i: int, j: int|
            0 <= i < n && 0 <= j < fields[i].attrs@.len() && #[trigger] is_fk_attr(
                fields[i].attrs@[j],
            ) implies all.contains(fk_entry(fields, i, j)) by {
            let e = fk_entry(fields, i, j);
            if i < n - 1 {
                let k = choose|k: int| 0 <= k < prev.len() && prev[k] == e;
                assert(all[k] == e);
            } else {
                assert(tail.contains(e));
                let k = choose|k: int| 0 <= k < tail.len() && tail[k] == e;
                assert(all[prev.len() + k] == e);
            }
        }
    }
}

proof fn lemma_fk_upto_local(a: Seq<FieldModel>, b: Seq<FieldModel>, n: nat)
    requires
        n <= a.len(),
    ensures
        fk_annotations_upto(a + b, n) == fk_annotations_upto(a, n),
    decreases n,
{
    if n > 0 {
        lemma_fk_upto_local(a, b, (n - 1) as nat);
        assert((a + b)[n - 1] == a[n - 1]);
    }
}

proof fn lemma_fk_upto_concat(a: Seq<FieldModel>, b: Seq<FieldModel>, m: nat)
    requires
        m <= b.len(),
    ensures
        fk_annotations_upto(a + b, a.len() + m) == fk_annotations_upto(a, a.len())
            + fk_annotations_upto(b, m),
    decreases m,
{
    if m == 0 {
        lemma_fk_upto_local(a, b, a.len());
        assert(fk_annotations_upto(a, a.len()) + fk_annotations_upto(b, 0) =~= fk_annotations_upto(
            a,
            a.len(),
        ));
    } else {
        lemma_fk_upto_concat(a, b, (m - 1) as nat);
        let f = b[m - 1];
        assert((a + b)[a.len() + m - 1] == f);
        assert(fk_annotations_upto(a + b, a.len() + m) == fk_annotations_upto(a + b, (a.len() + m - 1) as nat)
            + field_fks(f, f.attrs@.len()));
        assert(fk_annotations_upto(a, a.len()) + fk_annotations_upto(b, (m - 1) as nat) + field_fks(
            f,
            f.attrs@.len(),
        ) =~= fk_annotations_upto(a, a.len()) + (fk_annotations_upto(b, (m - 1) as nat) + field_fks(
            f,
            f.attrs@.len(),
        )));
    }
}

/// The foreign key annotations listed for a struct are every foreign key annotation that
/// reads, of every field: as many entries as there are such attributes over all fields,
/// and each such attribute, with its field's name, among them.
pub proof fn law_fk_annotations_complete(fields: Seq<FieldModel>)
    ensures
        fk_annotations_upto(fields, fields.len()).len() == fk_total(fields, fields.len()),
        forall|i: int, j: int|
            0 <= i < fields.len() && 0 <= j < fields[i].attrs@.len() && #[trigger] is_fk_attr(
                fields[i].attrs@[j],
            ) ==> fk_annotations_upto(fields, fields.len()).contains(fk_entry(fields, i, j)),
{
    lemma_fk_upto_facts(fields, fields.len());
}

/// The foreign key annotations of two lists of fields put one after the other are those
/// of the first list followed by those of the second: adding a field adds exactly its own
/// foreign keys, after the others.
pub proof fn law_fk_annotations_concat(a: Seq<FieldModel>, b: Seq<FieldModel>)
    ensures
        fk_annotations_upto(a + b, (a + b).len()) == fk_annotations_upto(a, a.len())
            + fk_annotations_upto(b, b.len()),
{
    lemma_fk_upto_concat(a, b, b.len());
}

} // verus!
