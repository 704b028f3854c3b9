use canyon_macros::attribute::{ArgValue, AttributeModel, FieldModel, IdentPair, MetaArg, MetaStyle, NameValueArg, PathModel};
use canyon_macros::entity::{
    build_register_entity, build_register_entity_field, field_annotations, leak_string,
    parse_canyon_entity_meta, parse_canyon_entity_proc_macro_attr, parse_string_literal, CanyonEntity,
    EntityField, ParsedCanyonEntityAttrs,
};
use canyon_macros::error::ErrorSpan;
use canyon_macros::field_annotation::EntityFieldAnnotation;
use canyon_macros::register_types::{is_numeric_pk_datatype, CanyonRegisterEntityField, NUMERIC_PK_DATATYPE};
use canyon_macros::types::TypeModel;

fn path(name: &str) -> PathModel {
    PathModel { segments: vec![name.to_string()], is_plain: true }
}

fn no_pairs() -> Result<Vec<IdentPair>, String> {
    Err("expected identifier".into())
}

fn bare(name: &str) -> AttributeModel {
    AttributeModel { path: path(name), style: MetaStyle::Path, args: Err("expected parentheses".into()), ident_pairs: no_pairs() }
}

fn list(name: &str, args: Vec<NameValueArg>) -> AttributeModel {
    AttributeModel { path: path(name), style: MetaStyle::List, args: Ok(args), ident_pairs: no_pairs() }
}

fn string_arg(key: &str, value: &str) -> NameValueArg {
    NameValueArg { key: Some(key.to_string()), value: ArgValue::Str(value.to_string()) }
}

fn field(name: Option<&str>, ty: &str, attrs: Vec<AttributeModel>) -> FieldModel {
    FieldModel { ident: name.map(|n| n.to_string()), ty: TypeModel { text: ty.to_string(), path: None }, attrs }
}

fn meta(key: &str, value: ArgValue) -> MetaArg {
    MetaArg::NameValue(NameValueArg { key: Some(key.to_string()), value })
}

#[test]
fn parses_an_entity_with_annotated_fields() {
    let fields = vec![
        field(Some("id"), "i32", vec![bare("primary_key")]),
        field(
            Some("league"),
            "Option < i64 >",
            vec![list("foreign_key", vec![string_arg("table", "league"), string_arg("column", "id")])],
        ),
    ];
    let entity = CanyonEntity::parse("Tournament", &fields).unwrap();
    assert_eq!(entity.struct_name, "Tournament");
    assert_eq!(entity.fields.len(), 2);
    assert_eq!(entity.fields[1].name, "league");
    assert_eq!(entity.fields[1].field_type, "Option < i64 >");
    assert!(matches!(entity.fields[0].attributes[0], EntityFieldAnnotation::PrimaryKey(true)));
}

#[test]
fn unnamed_fields_are_refused() {
    let fields = vec![field(Some("id"), "i32", vec![]), field(None, "i32", vec![])];
    let error = CanyonEntity::parse("Pair", &fields).unwrap_err();
    assert_eq!(error.message, "Expected a structure with named fields, unnamed field given");
    assert_eq!(error.span, ErrorSpan::Field(1));
}

#[test]
fn the_first_wrong_annotation_is_reported() {
    let attrs = vec![bare("primary_key"), bare("indexed"), bare("unique")];
    let error = field_annotations(&attrs).unwrap_err();
    assert_eq!(error.message, "Unknown attribute `indexed`");
}

#[test]
fn register_field_entries() {
    let entity_field = EntityField {
        name: "id".into(),
        field_type: "Option < i64 >".into(),
        attributes: vec![EntityFieldAnnotation::PrimaryKey(false)],
    };
    let entry = build_register_entity_field(&entity_field);
    assert_eq!(entry.field_name, "id");
    assert_eq!(entry.field_type, "Option<i64>");
    assert_eq!(entry.annotations, vec!["Annotation: PrimaryKey, Autoincremental: false".to_string()]);
    assert!(entry.is_nullable());
    assert!(!entry.is_autoincremental());
}

#[test]
fn register_entity_defaults_its_table_name() {
    let entity = CanyonEntity {
        struct_name: "MajorLeague".into(),
        fields: vec![EntityField { name: "id".into(), field_type: "i32".into(), attributes: vec![] }],
    };
    let entry = build_register_entity(&entity, None, Some("sports"));
    assert_eq!(entry.entity_name, "MajorLeague");
    assert_eq!(entry.entity_db_table_name, "major_league");
    assert_eq!(entry.user_schema_name, Some("sports"));
    assert_eq!(entry.entity_fields.len(), 1);

    let named = build_register_entity(&entity, Some("leagues"), None);
    assert_eq!(named.entity_db_table_name, "leagues");
}

#[test]
fn autoincremental_register_fields() {
    let auto = CanyonRegisterEntityField {
        field_name: "id".into(),
        field_type: "i64".into(),
        annotations: vec!["Annotation: PrimaryKey, Autoincremental: true".into()],
    };
    assert!(auto.is_autoincremental());
    assert!(!auto.is_nullable());

    let text_key = CanyonRegisterEntityField { field_type: "String".into(), ..auto.clone() };
    assert!(!text_key.is_autoincremental());

    let foreign_first = CanyonRegisterEntityField {
        field_name: "id".into(),
        field_type: "u32".into(),
        annotations: vec![
            "Annotation: ForeignKey, Table: true, Column: id".into(),
            "Annotation: PrimaryKey, Autoincremental: false".into(),
        ],
    };
    assert!(!foreign_first.is_autoincremental());
}

#[test]
fn registered_autoincrement_follows_the_annotation() {
    for flag in [true, false] {
        let entity_field = EntityField {
            name: "id".into(),
            field_type: "i32".into(),
            attributes: vec![
                EntityFieldAnnotation::ForeignKey("truest".into(), "id".into()),
                EntityFieldAnnotation::PrimaryKey(flag),
            ],
        };
        assert_eq!(build_register_entity_field(&entity_field).is_autoincremental(), flag);
    }
}

#[test]
fn numeric_primary_key_types() {
    for ty in NUMERIC_PK_DATATYPE {
        assert!(is_numeric_pk_datatype(ty));
    }
    assert!(!is_numeric_pk_datatype("i8"));
    assert!(!is_numeric_pk_datatype("usize"));
}

#[test]
fn canyon_entity_macro_arguments() {
    let parsed = parse_canyon_entity_proc_macro_attr(&vec![
        meta("table_name", ArgValue::Str("leagues".into())),
        meta("schema", ArgValue::Str("sports".into())),
    ]);
    assert_eq!(parsed.table_name, Some("leagues"));
    assert_eq!(parsed.schema_name, Some("sports"));
    assert!(parsed.error.is_none());
}

#[test]
fn canyon_entity_macro_keeps_the_last_diagnostic() {
    let parsed = parse_canyon_entity_proc_macro_attr(&vec![
        meta("color", ArgValue::Str("blue".into())),
        meta("table_name", ArgValue::Str("leagues".into())),
        MetaArg::Other,
    ]);
    assert_eq!(parsed.table_name, Some("leagues"));
    let error = parsed.error.unwrap();
    assert_eq!(
        error.message,
        "Only argument identifiers with a value after an `=` sign are allowed on the `canyon_macros::canyon_entity` proc macro"
    );
}

#[test]
fn canyon_entity_macro_argument_errors() {
    let mut parsed = ParsedCanyonEntityAttrs { table_name: None, schema_name: None, error: None };
    let error = parse_canyon_entity_meta(&meta("color", ArgValue::Str("blue".into())), 0, &mut parsed).unwrap_err();
    assert_eq!(error.message, "Argument `color` is not allowed in the `canyon_entity` macro attribute");
    let error = parse_string_literal(&ArgValue::OtherLiteral, 2).unwrap_err();
    assert_eq!(error.message, "Only string literals are valid values for the attributes");
    assert_eq!(error.span, ErrorSpan::ArgumentValue(2));
    let error = parse_string_literal(&ArgValue::NotLiteral, 0).unwrap_err();
    assert_eq!(error.message, "Only literal expressions are valid values for the attributes");
    assert_eq!(leak_string("kept".to_string()), "kept");
}

#[test]
fn nullable_register_fields_are_found_case_blind() {
    let entry = CanyonRegisterEntityField {
        field_name: "score".into(),
        field_type: "option<i32>".into(),
        annotations: vec![],
    };
    assert!(entry.is_nullable());
    let plain = CanyonRegisterEntityField { field_type: "i32".into(), ..entry.clone() };
    assert!(!plain.is_nullable());
}
