use canyon_macros::attribute::{
    field_has_target_attribute, ArgValue, AttributeModel, DeriveModel, FieldModel, IdentPair, MetaStyle,
    NameValueArg, PathModel,
};
use canyon_macros::error::{ErrorSpan, MacroError};
use canyon_macros::helpers::{
    compute_crud_ops_mapping_target_type_with_generics, filter_fields, is_canyon_entity_attr,
    parse_canyon_entity_attr, placeholders_generator, table_schema_parser, MappingTarget, TableMetadata,
};
use canyon_macros::macro_tokens::MacroTokens;
use canyon_macros::types::TypeModel;

fn path(segments: &[&str]) -> PathModel {
    PathModel { segments: segments.iter().map(|s| s.to_string()).collect(), is_plain: true }
}

fn attribute(segments: &[&str], style: MetaStyle, args: Result<Vec<NameValueArg>, String>) -> AttributeModel {
    AttributeModel { path: path(segments), style, args, ident_pairs: Err("expected identifier".into()) }
}

fn string_arg(key: &str, value: &str) -> NameValueArg {
    NameValueArg { key: Some(key.to_string()), value: ArgValue::Str(value.to_string()) }
}

fn plain_type(name: &str) -> TypeModel {
    TypeModel { text: name.to_string(), path: None }
}

fn field(name: &str, attrs: Vec<AttributeModel>) -> FieldModel {
    FieldModel { ident: Some(name.to_string()), ty: plain_type("i32"), attrs }
}

/// The tokens a diagnostic becomes at the macro boundary.
fn compile_error_text(error: &MacroError) -> String {
    syn::Error::new(proc_macro2::Span::call_site(), &error.message).into_compile_error().to_string()
}

#[test]
fn detects_target_attribute_correctly() {
    let fields = vec![
        FieldModel {
            ident: Some("field1".into()),
            ty: plain_type("String"),
            attrs: vec![attribute(&["my_attr"], MetaStyle::Path, Err("no arguments".into()))],
        },
        FieldModel { ident: Some("field2".into()), ty: plain_type("i32"), attrs: vec![] },
    ];
    assert!(field_has_target_attribute(&fields[0], "my_attr"));
    assert!(!field_has_target_attribute(&fields[1], "my_attr"));
}

#[test]
fn parses_canyon_entity_table_name_and_schema() {
    let attr = attribute(
        &["canyon_entity"],
        MetaStyle::List,
        Ok(vec![string_arg("table_name", "users"), string_arg("schema", "public")]),
    );
    let mut schema = None;
    let mut table_name = None;
    parse_canyon_entity_attr(&attr, &mut schema, &mut table_name)
        .expect("failed to parse canyon_entity attribute");
    assert_eq!(table_name.as_deref(), Some("users"));
    assert_eq!(schema.as_deref(), Some("public"));
}

#[test]
fn rejects_unknown_canyon_entity_attribute_keys() {
    let attr = attribute(&["canyon_entity"], MetaStyle::List, Ok(vec![string_arg("foo", "bar")]));
    let mut schema = None;
    let mut table_name = None;
    let err = parse_canyon_entity_attr(&attr, &mut schema, &mut table_name)
        .expect_err("unknown canyon_entity keys must fail");
    assert!(compile_error_text(&err).contains("compile_error"));
    assert_eq!(table_name, None);
    assert_eq!(schema, None);
}

#[test]
fn rejects_non_string_canyon_entity_attribute_values() {
    let attr = attribute(
        &["canyon_entity"],
        MetaStyle::List,
        Ok(vec![NameValueArg { key: Some("table_name".into()), value: ArgValue::OtherLiteral }]),
    );
    let mut schema = None;
    let mut table_name = None;
    let err = parse_canyon_entity_attr(&attr, &mut schema, &mut table_name)
        .expect_err("non-string canyon_entity values must fail");
    assert!(compile_error_text(&err).contains("compile_error"));
    assert_eq!(table_name, None);
    assert_eq!(schema, None);
}

#[test]
fn canyon_entity_errors_keep_the_values_read_before_them() {
    let attr = attribute(
        &["canyon_entity"],
        MetaStyle::List,
        Ok(vec![string_arg("schema", "public"), NameValueArg { key: None, value: ArgValue::Str("x".into()) }]),
    );
    let mut schema = None;
    let mut table_name = None;
    let err = parse_canyon_entity_attr(&attr, &mut schema, &mut table_name).unwrap_err();
    assert_eq!(err.span, ErrorSpan::ArgumentKey(1));
    assert_eq!(err.message, "Only simple identifiers are valid keys for `canyon_entity` attribute arguments");
    assert_eq!(schema.as_deref(), Some("public"));
    assert_eq!(table_name, None);
}

#[test]
fn canyon_entity_error_messages() {
    let mut schema = None;
    let mut table_name = None;
    let name_value = attribute(&["canyon_entity"], MetaStyle::NameValue, Err("expected parentheses".into()));
    let err = parse_canyon_entity_attr(&name_value, &mut schema, &mut table_name).unwrap_err();
    assert_eq!(err.message, "`canyon_entity` attribute expects a list of arguments");

    let unknown = attribute(&["canyon_entity"], MetaStyle::List, Ok(vec![string_arg("foo", "bar")]));
    let err = parse_canyon_entity_attr(&unknown, &mut schema, &mut table_name).unwrap_err();
    assert_eq!(err.message, "Only `table_name` and `schema` are valid `canyon_entity` attribute arguments");
    assert_eq!(err.span, ErrorSpan::ArgumentKey(0));

    let not_literal = attribute(
        &["canyon_entity"],
        MetaStyle::List,
        Ok(vec![NameValueArg { key: Some("schema".into()), value: ArgValue::NotLiteral }]),
    );
    let err = parse_canyon_entity_attr(&not_literal, &mut schema, &mut table_name).unwrap_err();
    assert_eq!(err.message, "Only literal expressions are valid values for `canyon_entity` attribute arguments");
    assert_eq!(err.span, ErrorSpan::ArgumentValue(0));

    let unreadable = attribute(&["canyon_entity"], MetaStyle::List, Err("expected `=`".into()));
    let err = parse_canyon_entity_attr(&unreadable, &mut schema, &mut table_name).unwrap_err();
    assert_eq!(err.message, "expected `=`");
}

#[test]
fn bare_canyon_entity_attribute_sets_nothing() {
    let attr = attribute(&["canyon_entity"], MetaStyle::Path, Err("no arguments".into()));
    let mut schema = Some("kept".to_string());
    let mut table_name = None;
    assert!(parse_canyon_entity_attr(&attr, &mut schema, &mut table_name).is_ok());
    assert_eq!(schema.as_deref(), Some("kept"));
    assert_eq!(table_name, None);
}

#[test]
fn placeholders_count_from_one_below_the_given_number() {
    assert_eq!(placeholders_generator(0), "");
    assert_eq!(placeholders_generator(1), "");
    assert_eq!(placeholders_generator(2), "$1");
    assert_eq!(placeholders_generator(4), "$1, $2, $3");
    assert_eq!(placeholders_generator(12).matches('$').count(), 11);
    assert!(placeholders_generator(12).ends_with("$10, $11"));
}

#[test]
fn filter_fields_lists_field_names() {
    let fields = vec![field("id", vec![]), field("name", vec![])];
    let names: Vec<String> = filter_fields(&fields).into_iter().cloned().collect();
    assert_eq!(names, vec!["id".to_string(), "name".to_string()]);
}

#[test]
fn mapping_target_prefers_maps_to() {
    let ty = "League".to_string();
    let mapped = "LeagueRow".to_string();
    assert!(matches!(
        compute_crud_ops_mapping_target_type_with_generics(&ty, Some(&mapped)),
        MappingTarget::CrudOpsType(t) if t == "LeagueRow"
    ));
    assert!(matches!(
        compute_crud_ops_mapping_target_type_with_generics(&ty, None),
        MappingTarget::RowMapperWithGenerics(t) if t == "League"
    ));
}

#[test]
fn canyon_entity_attributes_are_found_by_their_last_segment() {
    let qualified = attribute(&["canyon_macros", "canyon_entity"], MetaStyle::Path, Err("none".into()));
    let other = attribute(&["canyon_entity", "other"], MetaStyle::Path, Err("none".into()));
    assert!(is_canyon_entity_attr(&qualified));
    assert!(!is_canyon_entity_attr(&other));
}

#[test]
fn table_metadata_sql() {
    let mut meta = TableMetadata::default();
    meta.table_name("league".to_string());
    assert_eq!(meta.sql(), "league");
    meta.schema("public".to_string());
    assert_eq!(meta.sql(), "public.league");
}

fn derive(ident: &str, attrs: Vec<AttributeModel>) -> DeriveModel {
    DeriveModel { ident: ident.to_string(), attrs, fields: Some(vec![field("id", vec![])]) }
}

#[test]
fn table_schema_defaults_to_the_type_name() {
    let ast = derive("MajorLeague", vec![]);
    let data = MacroTokens::new(&ast).unwrap();
    let meta = table_schema_parser(&data).unwrap();
    assert_eq!(meta.sql(), "major_league");
}

#[test]
fn table_schema_defaults_to_the_mapped_type_name() {
    let crud = AttributeModel {
        path: path(&["canyon_crud"]),
        style: MetaStyle::List,
        args: Err("not name = value".into()),
        ident_pairs: Ok(vec![IdentPair { name: "maps_to".into(), value: "LeagueEntity".into() }]),
    };
    let ast = derive("LeagueRepository", vec![crud]);
    let data = MacroTokens::new(&ast).unwrap();
    let meta = table_schema_parser(&data).unwrap();
    assert_eq!(meta.sql(), "league_entity");
}

#[test]
fn table_schema_uses_the_canyon_entity_arguments() {
    let entity = attribute(
        &["canyon_entity"],
        MetaStyle::List,
        Ok(vec![string_arg("schema", "sports"), string_arg("table_name", "leagues")]),
    );
    let ast = derive("League", vec![entity]);
    let data = MacroTokens::new(&ast).unwrap();
    let meta = table_schema_parser(&data).unwrap();
    assert_eq!(meta.sql(), "sports.leagues");
}

#[test]
fn table_schema_reports_a_wrong_canyon_entity_argument() {
    let entity = attribute(&["canyon_entity"], MetaStyle::List, Ok(vec![string_arg("name", "leagues")]));
    let ast = derive("League", vec![entity]);
    let data = MacroTokens::new(&ast).unwrap();
    let err = table_schema_parser(&data).unwrap_err();
    assert_eq!(err.message, "Only `table_name` and `schema` are valid `canyon_entity` attribute arguments");
}
