//! What `#[canyon_entity]` reads from the struct it annotates, its own arguments, and the
//! register entry it records for the entity.
use vstd::prelude::*;

use crate::attribute::{ArgValue, AttributeModel, FieldModel, MetaArg};
use crate::error::{err_view, macro_error, ErrorSpan, ErrorView, MacroError};
use crate::field_annotation::{annotation_text, spec_annotation, AnnotationView, EntityFieldAnnotation};
use crate::naming::{default_database_table_name_from_entity_name, default_table_name};
use crate::register_types::{
    is_first_pk_annotation, is_numeric_pk_type, pk_annotation_prefix, spec_is_autoincremental,
    CanyonRegisterEntity, CanyonRegisterEntityField,
};
use crate::text::{occurs_at, push_str, remove_char, seq_contains, seq_starts_with, str_eq, string_of, without_char};

verus! {

/// One field of a `#[canyon_entity]` struct with its annotations.
#[derive(Debug)]
pub struct EntityField {
    pub name: String,
    /// The field's type, as the text of its tokens.
    pub field_type: String,
    pub attributes: Vec<EntityFieldAnnotation>,
}

/// A `#[canyon_entity]` struct: its name and its fields.
#[derive(Debug)]
pub struct CanyonEntity {
    pub struct_name: String,
    pub fields: Vec<EntityField>,
}

/// The annotations of every attribute of a field, read in order, or the diagnostic of the
/// first attribute that is no valid annotation.
pub open spec fn annotations_scan(attrs: Seq<AttributeModel>, n: nat) -> Result<
    Seq<AnnotationView>,
    ErrorView,
>
    decreases n,
{
    if n == 0 {
        Ok(Seq::empty())
    } else {
        match annotations_scan(attrs, (n - 1) as nat) {
            Err(e) => Err(e),
            Ok(acc) => match spec_annotation(attrs[n - 1]) {
                Err(e) => Err(e),
                Ok(a) => Ok(acc.push(a)),
            },
        }
    }
}

/// The views of a list of annotations.
pub open spec fn annotation_views(v: Seq<EntityFieldAnnotation>) -> Seq<AnnotationView> {
    v.map_values(|a: EntityFieldAnnotation| a@)
}

/// Once an attribute is wrong, the reading stays at that attribute's diagnostic.
proof fn lemma_annotations_scan_err(attrs: Seq<AttributeModel>, k: nat, m: nat)
    requires
        k <= m,
        annotations_scan(attrs, k) is Err,
    ensures
        annotations_scan(attrs, m) == annotations_scan(attrs, k),
    decreases m,
{
    if m > k {
        lemma_annotations_scan_err(attrs, k, (m - 1) as nat);
    }
}

/// Reads every attribute of a field as an annotation.
pub fn field_annotations(attrs: &Vec<AttributeModel>) -> (r: Result<
    Vec<EntityFieldAnnotation>,
    MacroError,
>)
    ensures
        match r {
            Ok(v) => annotations_scan(attrs@, attrs@.len()) == Ok::<Seq<AnnotationView>, ErrorView>(
                annotation_views(v@),
            ),
            Err(e) => annotations_scan(attrs@, attrs@.len()) == Err::<
                Seq<AnnotationView>,
                ErrorView,
            >(e@),
        },
{
    let mut out: Vec<EntityFieldAnnotation> = Vec::new();
    assert(annotation_views(out@) =~= Seq::<AnnotationView>::empty());
    let mut i: usize = 0;
    while i < attrs.len()
        invariant
            i <= attrs@.len(),
            annotations_scan(attrs@, i as nat) == Ok::<Seq<AnnotationView>, ErrorView>(
                annotation_views(out@),
            ),
        decreases attrs@.len() - i,
    {
        let r = EntityFieldAnnotation::try_from(&attrs[i]);
        match r {
            Ok(a) => {
                let ghost before = out@;
                out.push(a);
                assert(annotation_views(out@) =~= annotation_views(before).push(a@));
            },
            Err(e) => {
                proof {
                    lemma_annotations_scan_err(attrs@, (i + 1) as nat, attrs@.len());
                }
                return Err(e);
            },
        }
        i = i + 1;
    }
    Ok(out)
}

/// The text of every annotation of a field, in order.
pub open spec fn annotation_texts(v: Seq<EntityFieldAnnotation>) -> Seq<Seq<char>> {
    v.map_values(|a: EntityFieldAnnotation| annotation_text(a@))
}

/// The register entry of a field: its name, its type text with every space removed, and
/// the text of each of its annotations.
pub fn build_register_entity_field(field: &EntityField) -> (r: CanyonRegisterEntityField)
    ensures
        r.field_name@ == field.name@,
        r.field_type@ == remove_char(field.field_type@, ' '),
        r.annotations@.map_values(|s: String| s@) == annotation_texts(field.attributes@),
{
    let mut annotations: Vec<String> = Vec::new();
    assert(annotations@.map_values(|s: String| s@) =~= annotation_texts(
        field.attributes@.subrange(0, 0),
    ));
    let mut i: usize = 0;
    while i < field.attributes.len()
        invariant
            i <= field.attributes@.len(),
            annotations@.map_values(|s: String| s@) == annotation_texts(
                field.attributes@.subrange(0, i as int),
            ),
        decreases field.attributes@.len() - i,
    {
        let text = field.attributes[i].get_as_string();
        let ghost before = annotations@;
        annotations.push(text);
        assert(field.attributes@.subrange(0, i + 1) == field.attributes@.subrange(0, i as int).push(
            field.attributes@[i as int],
        ));
        assert(annotations@.map_values(|s: String| s@) =~= before.map_values(|s: String| s@).push(
            annotation_text(field.attributes@[i as int]@),
        ));
        assert(annotation_texts(field.attributes@.subrange(0, i + 1)) =~= annotation_texts(
            field.attributes@.subrange(0, i as int),
        ).push(annotation_text(field.attributes@[i as int]@)));
        i = i + 1;
    }
    CanyonRegisterEntityField {
        field_name: string_of(field.name.as_str()),
        field_type: without_char(field.field_type.as_str(), ' '),
        annotations,
    }
}

/// Leaks a `String` into a `&'static str` with the same characters (`String::leak`).
#[verifier::external_body]
pub fn leak_string(value: String) -> (r: &'static str)
    ensures
        r@ == value@,
{
    value.leak()
}

/// The register entry of an entity: its name, its table (the given one, else the default
/// table name of the entity), its schema and the entry of each field.
pub fn build_register_entity(
    entity: &CanyonEntity,
    table_name: Option<&'static str>,
    schema_name: Option<&'static str>,
) -> (r: CanyonRegisterEntity<'static>)
    ensures
        r.entity_name@ == entity.struct_name@,
        r.entity_db_table_name@ == match table_name {
            Some(t) => t@,
            None => default_table_name(entity.struct_name@),
        },
        r.user_schema_name == schema_name,
        r.entity_fields@.len() == entity.fields@.len(),
        forall|j: int|
            0 <= j < entity.fields@.len() ==> {
                &&& (#[trigger] r.entity_fields@[j]).field_name@ == entity.fields@[j].name@
                &&& r.entity_fields@[j].field_type@ == remove_char(
                    entity.fields@[j].field_type@,
                    ' ',
                )
                &&& r.entity_fields@[j].annotations@.map_values(|s: String| s@) == annotation_texts(
                    entity.fields@[j].attributes@,
                )
            },
{
    let entity_name = leak_string(string_of(entity.struct_name.as_str()));
    let entity_db_table_name = match table_name {
        Some(t) => t,
        None => leak_string(default_database_table_name_from_entity_name(entity_name)),
    };
    let mut entity_fields: Vec<CanyonRegisterEntityField> = Vec::new();
    let mut i: usize = 0;
    while i < entity.fields.len()
        invariant
            i <= entity.fields@.len(),
            entity_fields@.len() == i,
            forall|j: int|
                0 <= j < i ==> {
                    &&& (#[trigger] entity_fields@[j]).field_name@ == entity.fields@[j].name@
                    &&& entity_fields@[j].field_type@ == remove_char(
                        entity.fields@[j].field_type@,
                        ' ',
                    )
                    &&& entity_fields@[j].annotations@.map_values(|s: String| s@)
                        == annotation_texts(entity.fields@[j].attributes@)
                },
        decreases entity.fields@.len() - i,
    {
        entity_fields.push(build_register_entity_field(&entity.fields[i]));
        i = i + 1;
    }
    CanyonRegisterEntity {
        entity_name,
        entity_db_table_name,
        user_schema_name: schema_name,
        entity_fields,
    }
}

/// What the field at position `index` of an entity struct holds: its name, type text and
/// annotations.
pub open spec fn spec_entity_field(field: FieldModel, index: usize) -> Result<
    (Seq<char>, Seq<char>, Seq<AnnotationView>),
    ErrorView,
> {
    match field.ident {
        None => Err(
            err_view(
                ErrorSpan::Field(index),
                "Expected a structure with named fields, unnamed field given"@,
            ),
        ),
        Some(name) => match annotations_scan(field.attrs@, field.attrs@.len()) {
            Err(e) => Err(e),
            Ok(anns) => Ok((name@, field.ty.text@, anns)),
        },
    }
}

/// The view of an entity field.
pub open spec fn entity_field_view(f: EntityField) -> (Seq<char>, Seq<char>, Seq<AnnotationView>) {
    (f.name@, f.field_type@, annotation_views(f.attributes@))
}

impl CanyonEntity {
    /// Reads the entity named `struct_name` with these fields; the first field that cannot
    /// be read gives the diagnostic.
    pub fn parse(struct_name: &str, fields: &Vec<FieldModel>) -> (r: Result<Self, MacroError>)
        ensures
            r is Ok <==> forall|j: int|
                0 <= j < fields@.len() ==> (#[trigger] spec_entity_field(fields@[j], j as usize)) is Ok,
            r matches Ok(e) ==> {
                &&& e.struct_name@ == struct_name@
                &&& e.fields@.len() == fields@.len()
                &&& forall|j: int|
                    0 <= j < fields@.len() ==> spec_entity_field(fields@[j], j as usize) == Ok::<
                        (Seq<char>, Seq<char>, Seq<AnnotationView>),
                        ErrorView,
                    >(entity_field_view(#[trigger] e.fields@[j]))
            },
            r matches Err(err) ==> exists|k: int|
                0 <= k < fields@.len() && (forall|j: int|
                    0 <= j < k ==> (#[trigger] spec_entity_field(fields@[j], j as usize)) is Ok)
                    && spec_entity_field(fields@[k], k as usize) == Err::<
                    (Seq<char>, Seq<char>, Seq<AnnotationView>),
                    ErrorView,
                >(err@),
    {
        let mut parsed: Vec<EntityField> = Vec::new();
        let mut i: usize = 0;
        while i < fields.len()
            invariant
                i <= fields@.len(),
                parsed@.len() == i,
                forall|j: int|
                    0 <= j < i ==> spec_entity_field(fields@[j], j as usize) == Ok::<
                        (Seq<char>, Seq<char>, Seq<AnnotationView>),
                        ErrorView,
                    >(entity_field_view(#[trigger] parsed@[j])),
            decreases fields@.len() - i,
        {
            let field = &fields[i];
            let step: Result<EntityField, MacroError> = match &field.ident {
                None => Err(
                    macro_error(
                        ErrorSpan::Field(i),
                        string_of("Expected a structure with named fields, unnamed field given"),
                    ),
                ),
                Some(name) => match field_annotations(&field.attrs) {
                    Err(e) => Err(e),
                    Ok(attributes) => Ok(
                        EntityField {
                            name: string_of(name.as_str()),
                            field_type: string_of(field.ty.text.as_str()),
                            attributes,
                        },
                    ),
                },
            };
            match step {
                Ok(f) => {
                    parsed.push(f);
                },
                Err(e) => {
                    assert forall|j: int| 0 <= j < i implies (#[trigger] spec_entity_field(
                        fields@[j],
                        j as usize,
                    )) is Ok by {
                        assert(spec_entity_field(fields@[j], j as usize) == Ok::<
                            (Seq<char>, Seq<char>, Seq<AnnotationView>),
                            ErrorView,
                        >(entity_field_view(parsed@[j])));
                    }
                    assert(spec_entity_field(fields@[i as int], (i as int) as usize) is Err);
                    return Err(e);
                },
            }
            i = i + 1;
        }
        assert forall|j: int| 0 <= j < fields@.len() implies (#[trigger] spec_entity_field(
            fields@[j],
            j as usize,
        )) is Ok by {
            assert(spec_entity_field(fields@[j], j as usize) == Ok::<
                (Seq<char>, Seq<char>, Seq<AnnotationView>),
                ErrorView,
            >(entity_field_view(parsed@[j])));
        }
        Ok(CanyonEntity { struct_name: string_of(struct_name), fields: parsed })
    }
}

/// The table and schema given to `#[canyon_entity(...)]`, and the last diagnostic about
/// its arguments.
#[derive(Debug)]
pub struct ParsedCanyonEntityAttrs {
    pub table_name: Option<&'static str>,
    pub schema_name: Option<&'static str>,
    pub error: Option<MacroError>,
}

/// What the value of argument `i` of `#[canyon_entity(...)]` holds: the content of a
/// string literal, else a diagnostic.
pub open spec fn spec_entity_string_literal(value: ArgValue, i: usize) -> Result<
    Seq<char>,
    ErrorView,
> {
    match value {
        ArgValue::Str(s) => Ok(s@),
        ArgValue::OtherLiteral => Err(
            err_view(
                ErrorSpan::ArgumentValue(i),
                "Only string literals are valid values for the attributes"@,
            ),
        ),
        ArgValue::NotLiteral => Err(
            err_view(
                ErrorSpan::ArgumentValue(i),
                "Only literal expressions are valid values for the attributes"@,
            ),
        ),
    }
}

/// What argument `i` of `#[canyon_entity(...)]` sets: the table name (`true`) or the
/// schema (`false`), and to what; or the diagnostic about it.
pub open spec fn spec_entity_meta(meta: MetaArg, i: usize) -> Result<(bool, Seq<char>), ErrorView> {
    match meta {
        MetaArg::Other => Err(
            err_view(
                ErrorSpan::CallSite,
                "Only argument identifiers with a value after an `=` sign are allowed on the `canyon_macros::canyon_entity` proc macro"@,
            ),
        ),
        MetaArg::NameValue(nv) => match nv.key {
            None => Err(
                err_view(
                    ErrorSpan::ArgumentKey(i),
                    "Only simple identifiers are valid keys for `canyon_entity` attribute arguments"@,
                ),
            ),
            Some(k) => match spec_entity_string_literal(nv.value, i) {
                Err(e) => Err(e),
                Ok(v) => if k@ == "table_name"@ {
                    Ok((true, v))
                } else if k@ == "schema"@ {
                    Ok((false, v))
                } else {
                    Err(
                        err_view(
                            ErrorSpan::ArgumentKey(i),
                            "Argument `"@ + k@ + "` is not allowed in the `canyon_entity` macro attribute"@,
                        ),
                    )
                },
            },
        },
    }
}

/// The table, schema and last diagnostic after reading the first `n` arguments: each
/// argument that reads well sets its value, each that does not replaces the diagnostic.
pub open spec fn entity_attrs_scan(metas: Seq<MetaArg>, n: nat) -> (
    Option<Seq<char>>,
    Option<Seq<char>>,
    Option<ErrorView>,
)
    decreases n,
{
    if n == 0 {
        (None, None, None)
    } else {
        let acc = entity_attrs_scan(metas, (n - 1) as nat);
        match spec_entity_meta(metas[n - 1], (n - 1) as usize) {
            Ok((true, v)) => (Some(v), acc.1, acc.2),
            Ok((false, v)) => (acc.0, Some(v), acc.2),
            Err(e) => (acc.0, acc.1, Some(e)),
        }
    }
}

/// The view of an optional static text.
pub open spec fn opt_str(o: Option<&'static str>) -> Option<Seq<char>> {
    match o {
        Some(s) => Some(s@),
        None => None,
    }
}

/// The view of an optional diagnostic.
pub open spec fn opt_error(o: Option<MacroError>) -> Option<ErrorView> {
    match o {
        Some(e) => Some(e@),
        None => None,
    }
}

/// Reads every argument of `#[canyon_entity(...)]`, keeping the last diagnostic.
pub fn parse_canyon_entity_proc_macro_attr(attrs: &Vec<MetaArg>) -> (r: ParsedCanyonEntityAttrs)
    ensures
        (opt_str(r.table_name), opt_str(r.schema_name), opt_error(r.error)) == entity_attrs_scan(
            attrs@,
            attrs@.len(),
        ),
{
    let mut parsed = ParsedCanyonEntityAttrs { table_name: None, schema_name: None, error: None };
    let mut i: usize = 0;
    while i < attrs.len()
        invariant
            i <= attrs@.len(),
            (opt_str(parsed.table_name), opt_str(parsed.schema_name), opt_error(parsed.error))
                == entity_attrs_scan(attrs@, i as nat),
        decreases attrs@.len() - i,
    {
        match parse_canyon_entity_meta(&attrs[i], i, &mut parsed) {
            Ok(()) => {},
            Err(e) => {
                parsed.error = Some(e);
            },
        }
        i = i + 1;
    }
    parsed
}

/// Reads argument `i` of `#[canyon_entity(...)]` into `parsed`.
pub fn parse_canyon_entity_meta(meta: &MetaArg, i: usize, parsed: &mut ParsedCanyonEntityAttrs) -> (r:
    Result<(), MacroError>)
    ensures
        final(parsed).error == old(parsed).error,
        match spec_entity_meta(*meta, i) {
            Ok((true, v)) => r is Ok && opt_str(final(parsed).table_name) == Some(v)
                && final(parsed).schema_name == old(parsed).schema_name,
            Ok((false, v)) => r is Ok && opt_str(final(parsed).schema_name) == Some(v)
                && final(parsed).table_name == old(parsed).table_name,
            Err(e) => r matches Err(err) && err@ == e && final(parsed).table_name == old(
                parsed,
            ).table_name && final(parsed).schema_name == old(parsed).schema_name,
        },
{
    let name_value = match meta {
        MetaArg::NameValue(nv) => nv,
        MetaArg::Other => return Err(
            macro_error(
                ErrorSpan::CallSite,
                string_of(
                    "Only argument identifiers with a value after an `=` sign are allowed on the `canyon_macros::canyon_entity` proc macro",
                ),
            ),
        ),
    };
    let ident = match &name_value.key {
        Some(k) => k,
        None => return Err(
            macro_error(
                ErrorSpan::ArgumentKey(i),
                string_of(
                    "Only simple identifiers are valid keys for `canyon_entity` attribute arguments",
                ),
            ),
        ),
    };
    let value = parse_string_literal(&name_value.value, i)?;
    if str_eq(ident.as_str(), "table_name") {
        parsed.table_name = Some(leak_string(value));
    } else if str_eq(ident.as_str(), "schema") {
        parsed.schema_name = Some(leak_string(value));
    } else {
        let mut message = string_of("Argument `");
        push_str(&mut message, ident.as_str());
        push_str(&mut message, "` is not allowed in the `canyon_entity` macro attribute");
        return Err(macro_error(ErrorSpan::ArgumentKey(i), message));
    }
    Ok(())
}

/// The content of the string literal given as the value of argument `i`.
pub fn parse_string_literal(value: &ArgValue, i: usize) -> (r: Result<String, MacroError>)
    ensures
        match r {
            Ok(s) => spec_entity_string_literal(*value, i) == Ok::<Seq<char>, ErrorView>(s@),
            Err(e) => spec_entity_string_literal(*value, i) == Err::<Seq<char>, ErrorView>(e@),
        },
{
    match value {
        ArgValue::Str(s) => Ok(string_of(s.as_str())),
        ArgValue::OtherLiteral => Err(
            macro_error(
                ErrorSpan::ArgumentValue(i),
                string_of("Only string literals are valid values for the attributes"),
            ),
        ),
        ArgValue::NotLiteral => Err(
            macro_error(
                ErrorSpan::ArgumentValue(i),
                string_of("Only literal expressions are valid values for the attributes"),
            ),
        ),
    }
}

/// The flag of the first primary key annotation among `anns`, if there is one.
pub open spec fn first_pk_flag(anns: Seq<EntityFieldAnnotation>) -> Option<bool>
    decreases anns.len(),
{
    if anns.len() == 0 {
        None
    } else {
        match anns[0] {
            EntityFieldAnnotation::PrimaryKey(b) => Some(b),
            EntityFieldAnnotation::ForeignKey(_, _) => first_pk_flag(anns.drop_first()),
        }
    }
}

/// No `true` starts at position `i` or later in `s`.
spec fn true_free_from(s: Seq<char>, i: int) -> bool
    decreases s.len() - i,
{
    if i < 0 || i + 4 > s.len() {
        true
    } else {
        !(s[i] == 't' && s[i + 1] == 'r' && s[i + 2] == 'u' && s[i + 3] == 'e') && true_free_from(
            s,
            i + 1,
        )
    }
}

proof fn lemma_true_free(s: Seq<char>, i: int, k: int)
    requires
        0 <= i <= k,
        true_free_from(s, i),
    ensures
        !occurs_at(s, "true"@, k),
    decreases k - i,
{
    reveal_strlit("true");
    if k + 4 <= s.len() {
        if i < k {
            lemma_true_free(s, i + 1, k);
        } else {
            assert(s.subrange(k, k + 4)[0] == s[k]);
            assert(s.subrange(k, k + 4)[1] == s[k + 1]);
            assert(s.subrange(k, k + 4)[2] == s[k + 2]);
            assert(s.subrange(k, k + 4)[3] == s[k + 3]);
        }
    }
}

/// What the text of an annotation tells of it: a primary key text starts with the primary
/// key prefix and holds `true` exactly when the key is autoincremental; a foreign key text
/// does not start with that prefix.
proof fn lemma_annotation_text_facts(a: AnnotationView)
    ensures
        match a {
            AnnotationView::PrimaryKey(b) => seq_starts_with(annotation_text(a), pk_annotation_prefix())
                && seq_contains(annotation_text(a), "true"@) == b,
            AnnotationView::ForeignKey(_, _) => !seq_starts_with(annotation_text(a), pk_annotation_prefix()),
        },
{
    reveal_strlit("Annotation: PrimaryKey, Autoincremental: ");
    reveal_strlit("Annotation: PrimaryKey");
    reveal_strlit("Annotation: ForeignKey, Table: ");
    reveal_strlit("true");
    let t = annotation_text(a);
    match a {
        AnnotationView::PrimaryKey(b) => {
            assert(t.subrange(0, 22) =~= pk_annotation_prefix());
            if b {
                assert(t.subrange(41, 45) =~= "true"@);
                assert(occurs_at(t, "true"@, 41));
            } else {
                reveal_with_fuel(true_free_from, 50);
                assert forall|k: int| !occurs_at(t, "true"@, k) by {
                    if 0 <= k {
                        lemma_true_free(t, 0, k);
                    }
                }
            }
        },
        AnnotationView::ForeignKey(_, _) => {
            assert(t.subrange(0, 22)[12] == t[12]);
        },
    }
}

/// Some text of `texts` is the first to start with the primary key prefix, and holds
/// `true`.
spec fn first_pk_text_holds_true(texts: Seq<Seq<char>>) -> bool {
    exists|i: int|
        0 <= i < texts.len() && seq_starts_with(#[trigger] texts[i], pk_annotation_prefix())
            && (forall|j: int| 0 <= j < i ==> !seq_starts_with(texts[j], pk_annotation_prefix()))
            && seq_contains(texts[i], "true"@)
}

proof fn lemma_first_pk_text(anns: Seq<EntityFieldAnnotation>)
    ensures
        first_pk_text_holds_true(annotation_texts(anns)) == (first_pk_flag(anns) == Some(true)),
    decreases anns.len(),
{
    let texts = annotation_texts(anns);
    if anns.len() > 0 {
        lemma_annotation_text_facts(anns[0]@);
        let rest = anns.drop_first();
        let rest_texts = annotation_texts(rest);
        lemma_first_pk_text(rest);
        assert forall|j: int| 0 <= j < rest_texts.len() implies rest_texts[j] == texts[j + 1] by {}
        match anns[0] {
            EntityFieldAnnotation::PrimaryKey(b) => {
                assert(seq_starts_with(texts[0], pk_annotation_prefix()));
                if first_pk_text_holds_true(texts) {
                    let i = choose|i: int|
                        0 <= i < texts.len() && seq_starts_with(#[trigger] texts[i], pk_annotation_prefix())
                            && (forall|j: int| 0 <= j < i ==> !seq_starts_with(texts[j], pk_annotation_prefix()))
                            && seq_contains(texts[i], "true"@);
                }
                if b {
                }
            },
            EntityFieldAnnotation::ForeignKey(_, _) => {
                if first_pk_text_holds_true(texts) {
                    let i = choose|i: int|
                        0 <= i < texts.len() && seq_starts_with(#[trigger] texts[i], pk_annotation_prefix())
                            && (forall|j: int| 0 <= j < i ==> !seq_starts_with(texts[j], pk_annotation_prefix()))
                            && seq_contains(texts[i], "true"@);
                    assert(seq_starts_with(rest_texts[i - 1], pk_annotation_prefix()));
                }
                if first_pk_text_holds_true(rest_texts) {
                    let i = choose|i: int|
                        0 <= i < rest_texts.len() && seq_starts_with(#[trigger] rest_texts[i], pk_annotation_prefix())
                            && (forall|j: int| 0 <= j < i ==> !seq_starts_with(rest_texts[j], pk_annotation_prefix()))
                            && seq_contains(rest_texts[i], "true"@);
                    assert forall|j: int| 0 <= j < i + 1 implies !seq_starts_with(texts[j], pk_annotation_prefix()) by {
                        if j > 0 {
                            assert(texts[j] == rest_texts[j - 1]);
                        }
                    }
                }
            },
        }
    }
}

/// A registered field is autoincremental exactly when its type is one of the numeric
/// primary key types and the first primary key annotation of its entity field is
/// autoincremental.
pub proof fn law_register_autoincremental(field: EntityField, reg: CanyonRegisterEntityField)
    requires
        reg.annotations@.map_values(|s: String| s@) == annotation_texts(field.attributes@),
    ensures
        spec_is_autoincremental(reg) == (is_numeric_pk_type(reg.field_type@) && first_pk_flag(
            field.attributes@,
        ) == Some(true)),
{
    let texts = annotation_texts(field.attributes@);
    lemma_first_pk_text(field.attributes@);
    assert forall|i: int| 0 <= i < reg.annotations@.len() implies reg.annotations@[i]@ == texts[i] by {
    }
    if first_pk_text_holds_true(texts) {
        let i = choose|i: int|
            0 <= i < texts.len() && seq_starts_with(#[trigger] texts[i], pk_annotation_prefix())
                && (forall|j: int| 0 <= j < i ==> !seq_starts_with(texts[j], pk_annotation_prefix()))
                && seq_contains(texts[i], "true"@);
        assert forall|j: int| 0 <= j < i implies !seq_starts_with(
            #[trigger] reg.annotations@[j]@,
            pk_annotation_prefix(),
        ) by {
            assert(reg.annotations@[j]@ == texts[j]);
        }
    }
    if exists|i: int|
        is_first_pk_annotation(reg.annotations@, i) && seq_contains(
            #[trigger] reg.annotations@[i]@,
            "true"@,
        ) {
        let i = choose|i: int|
            is_first_pk_annotation(reg.annotations@, i) && seq_contains(
                #[trigger] reg.annotations@[i]@,
                "true"@,
            );
        assert(seq_starts_with(texts[i], pk_annotation_prefix()));
    }
}

proof fn lemma_annotations_scan_prefix(attrs: Seq<AttributeModel>, n: nat)
    requires
        n <= attrs.len(),
    ensures
        annotations_scan(attrs, n) is Ok <==> forall|i: int|
            0 <= i < n ==> (#[trigger] spec_annotation(attrs[i])) is Ok,
        annotations_scan(attrs, n) matches Ok(anns) ==> anns.len() == n && forall|i: int|
            0 <= i < n ==> anns[i] == (#[trigger] spec_annotation(attrs[i]))->Ok_0,
    decreases n,
{
    if n > 0 {
        lemma_annotations_scan_prefix(attrs, (n - 1) as nat);
        if annotations_scan(attrs, (n - 1) as nat) is Ok && spec_annotation(attrs[n - 1]) is Ok {
            let prev = annotations_scan(attrs, (n - 1) as nat)->Ok_0;
            let anns = annotations_scan(attrs, n)->Ok_0;
            assert(anns == prev.push(spec_annotation(attrs[n - 1])->Ok_0));
            assert forall|i: int| 0 <= i < n implies anns[i] == (#[trigger] spec_annotation(
                attrs[i],
            ))->Ok_0 by {
                if i < n - 1 {
                    assert(anns[i] == prev[i]);
                }
            }
        }
        if annotations_scan(attrs, n) is Ok {
            assert(annotations_scan(attrs, (n - 1) as nat) is Ok);
        }
    }
}

/// Reading a field's attributes succeeds exactly when every attribute reads as an
/// annotation, and then gives one annotation per attribute, in the attributes' order.
pub proof fn law_field_annotations_one_per_attribute(attrs: Seq<AttributeModel>)
    ensures
        annotations_scan(attrs, attrs.len()) is Ok <==> forall|i: int|
            0 <= i < attrs.len() ==> (#[trigger] spec_annotation(attrs[i])) is Ok,
        annotations_scan(attrs, attrs.len()) matches Ok(anns) ==> anns.len() == attrs.len()
            && forall|i: int|
            0 <= i < attrs.len() ==> anns[i] == (#[trigger] spec_annotation(attrs[i]))->Ok_0,
{
    lemma_annotations_scan_prefix(attrs, attrs.len());
}

/// Argument `k` of `#[canyon_entity(...)]` reads well and sets the table name (`b`) or the
/// schema (`!b`).
pub open spec fn entity_arg_sets(metas: Seq<MetaArg>, k: int, b: bool) -> bool {
    spec_entity_meta(metas[k], k as usize) matches Ok((is_table, _)) && is_table == b
}

/// The table name (`b`) or the schema (`!b`) of a reading.
pub open spec fn entity_value_of(
    r: (Option<Seq<char>>, Option<Seq<char>>, Option<ErrorView>),
    b: bool,
) -> Option<Seq<char>> {
    if b {
        r.0
    } else {
        r.1
    }
}

proof fn lemma_entity_attrs_last(metas: Seq<MetaArg>, n: nat, b: bool)
    requires
        n <= metas.len(),
    ensures
        (entity_value_of(entity_attrs_scan(metas, n), b) is None) == (forall|k: int|
            0 <= k < n ==> !#[trigger] entity_arg_sets(metas, k, b)),
        entity_value_of(entity_attrs_scan(metas, n), b) matches Some(v) ==> exists|k: int|
            0 <= k < n && spec_entity_meta(metas[k], k as usize) == Ok::<(bool, Seq<char>), ErrorView>(
                (b, v),
            ) && forall|k2: int| k < k2 < n ==> !#[trigger] entity_arg_sets(metas, k2, b),
    decreases n,
{
    if n > 0 {
        lemma_entity_attrs_last(metas, (n - 1) as nat, b);
        let last = (n - 1) as int;
        if entity_arg_sets(metas, last, b) {
            let v = spec_entity_meta(metas[last], last as usize)->Ok_0.1;
            assert(entity_value_of(entity_attrs_scan(metas, n), b) == Some(v));
            assert(forall|k2: int| last < k2 < n ==> !#[trigger] entity_arg_sets(metas, k2, b));
        } else {
            assert(entity_value_of(entity_attrs_scan(metas, n), b) == entity_value_of(
                entity_attrs_scan(metas, (n - 1) as nat),
                b,
            ));
            if entity_value_of(entity_attrs_scan(metas, n), b) is Some {
                let v = entity_value_of(entity_attrs_scan(metas, n), b)->Some_0;
                let k = choose|k: int|
                    0 <= k < n - 1 && spec_entity_meta(metas[k], k as usize) == Ok::<
                        (bool, Seq<char>),
                        ErrorView,
                    >((b, v)) && forall|k2: int|
                        k < k2 < n - 1 ==> !#[trigger] entity_arg_sets(metas, k2, b);
                assert forall|k2: int| k < k2 < n implies !#[trigger] entity_arg_sets(metas, k2, b) by {
                    if k2 == last {
                    }
                }
            }
        }
    }
}

/// After reading the arguments of `#[canyon_entity(...)]`, the schema (and likewise the
/// table name) is the value of the last argument that sets it, whatever the other
/// arguments are and in whatever order they come; with no such argument it is unset.
pub proof fn law_canyon_entity_last_value_wins(metas: Seq<MetaArg>, b: bool)
    ensures
        (entity_value_of(entity_attrs_scan(metas, metas.len()), b) is None) == (forall|k: int|
            0 <= k < metas.len() ==> !#[trigger] entity_arg_sets(metas, k, b)),
        entity_value_of(entity_attrs_scan(metas, metas.len()), b) matches Some(v) ==> exists|k: int|
            0 <= k < metas.len() && spec_entity_meta(metas[k], k as usize) == Ok::<
                (bool, Seq<char>),
                ErrorView,
            >((b, v)) && forall|k2: int|
                k < k2 < metas.len() ==> !#[trigger] entity_arg_sets(metas, k2, b),
{
    lemma_entity_attrs_last(metas, metas.len(), b);
}

} // verus!
