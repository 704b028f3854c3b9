use canyon_macros::attribute::{ArgValue, AttributeModel, IdentPair, MetaStyle, NameValueArg, PathModel};
use canyon_macros::error::{ErrorSpan, MacroError};
use canyon_macros::field_annotation::EntityFieldAnnotation;

fn path(name: &str) -> PathModel {
    PathModel { segments: vec![name.to_string()], is_plain: true }
}

fn no_pairs() -> Result<Vec<IdentPair>, String> {
    Err("expected identifier".to_string())
}

/// `#[name]`
fn bare_attribute(name: &str) -> AttributeModel {
    AttributeModel {
        path: path(name),
        style: MetaStyle::Path,
        args: Err(format!("expected attribute arguments in parentheses: #[{}(...)]", name)),
        ident_pairs: no_pairs(),
    }
}

/// `#[name(args...)]`
fn list_attribute(name: &str, args: Vec<NameValueArg>) -> AttributeModel {
    AttributeModel { path: path(name), style: MetaStyle::List, args: Ok(args), ident_pairs: no_pairs() }
}

fn string_arg(key: &str, value: &str) -> NameValueArg {
    NameValueArg { key: Some(key.to_string()), value: ArgValue::Str(value.to_string()) }
}

fn annotation_from(attribute: &AttributeModel) -> Result<EntityFieldAnnotation, MacroError> {
    EntityFieldAnnotation::try_from(attribute)
}

#[test]
fn parses_primary_key_without_arguments_as_autoincremental() {
    let annotation = annotation_from(&bare_attribute("primary_key")).unwrap();
    assert!(matches!(annotation, EntityFieldAnnotation::PrimaryKey(true)));
}

#[test]
fn parses_primary_key_with_autoincremental_enabled() {
    let attribute = list_attribute("primary_key", vec![string_arg("autoincremental", "true")]);
    let annotation = annotation_from(&attribute).unwrap();
    assert!(matches!(annotation, EntityFieldAnnotation::PrimaryKey(true)));
}

#[test]
fn parses_primary_key_with_autoincremental_disabled() {
    let attribute = list_attribute("primary_key", vec![string_arg("autoincremental", "false")]);
    let annotation = annotation_from(&attribute).unwrap();
    assert!(matches!(annotation, EntityFieldAnnotation::PrimaryKey(false)));
}

#[test]
fn rejects_primary_key_with_missing_autoincremental_argument_when_args_are_present() {
    let attribute = list_attribute("primary_key", vec![]);
    let error = annotation_from(&attribute).unwrap_err();
    assert!(error
        .message
        .contains("Missing `autoincremental` argument on the Primary Key annotation"));
}

#[test]
fn rejects_primary_key_with_unknown_argument() {
    let attribute = list_attribute("primary_key", vec![string_arg("foo", "true")]);
    let error = annotation_from(&attribute).unwrap_err();
    assert!(error.message.contains("Unknown annotation argument `foo`"));
}

#[test]
fn rejects_primary_key_with_non_boolean_value() {
    let attribute = list_attribute("primary_key", vec![string_arg("autoincremental", "yes")]);
    let error = annotation_from(&attribute).unwrap_err();
    assert!(error.message.contains("Expected boolean string literal, found `yes`"));
}

#[test]
fn rejects_primary_key_with_non_string_literal_value() {
    let attribute = list_attribute(
        "primary_key",
        vec![NameValueArg { key: Some("autoincremental".to_string()), value: ArgValue::OtherLiteral }],
    );
    let error = annotation_from(&attribute).unwrap_err();
    assert!(error.message.contains("Expected string literal"));
}

#[test]
fn parses_foreign_key() {
    let attribute =
        list_attribute("foreign_key", vec![string_arg("table", "users"), string_arg("column", "id")]);
    let annotation = annotation_from(&attribute).unwrap();
    match annotation {
        EntityFieldAnnotation::ForeignKey(table, column) => {
            assert_eq!(table, "users");
            assert_eq!(column, "id");
        }
        EntityFieldAnnotation::PrimaryKey(_) => panic!("expected foreign key annotation"),
    }
}

#[test]
fn parses_foreign_key_arguments_in_any_order() {
    let attribute =
        list_attribute("foreign_key", vec![string_arg("column", "id"), string_arg("table", "users")]);
    let annotation = annotation_from(&attribute).unwrap();
    match annotation {
        EntityFieldAnnotation::ForeignKey(table, column) => {
            assert_eq!(table, "users");
            assert_eq!(column, "id");
        }
        EntityFieldAnnotation::PrimaryKey(_) => panic!("expected foreign key annotation"),
    }
}

#[test]
fn rejects_foreign_key_without_arguments() {
    let error = annotation_from(&bare_attribute("foreign_key")).unwrap_err();
    assert!(error.message.contains("Error generating the Foreign Key"));
}

#[test]
fn rejects_foreign_key_with_missing_table_argument() {
    let attribute = list_attribute("foreign_key", vec![string_arg("column", "id")]);
    let error = annotation_from(&attribute).unwrap_err();
    assert!(error.message.contains("Missing `table` argument on the Foreign Key annotation"));
}

#[test]
fn rejects_foreign_key_with_missing_column_argument() {
    let attribute = list_attribute("foreign_key", vec![string_arg("table", "users")]);
    let error = annotation_from(&attribute).unwrap_err();
    assert!(error.message.contains("Missing `column` argument on the Foreign Key annotation"));
}

#[test]
fn rejects_foreign_key_with_unknown_argument() {
    let attribute = list_attribute(
        "foreign_key",
        vec![string_arg("table", "users"), string_arg("column", "id"), string_arg("cascade", "true")],
    );
    let error = annotation_from(&attribute).unwrap_err();
    assert!(error.message.contains("Unknown annotation argument `cascade`"));
}

#[test]
fn rejects_foreign_key_with_non_string_table_value() {
    let attribute = list_attribute(
        "foreign_key",
        vec![
            NameValueArg { key: Some("table".to_string()), value: ArgValue::NotLiteral },
            string_arg("column", "id"),
        ],
    );
    let error = annotation_from(&attribute).unwrap_err();
    assert!(error.message.contains("Expected literal expression"));
}

#[test]
fn rejects_unknown_attribute() {
    let error = annotation_from(&bare_attribute("indexed")).unwrap_err();
    assert!(error.message.contains("Unknown attribute `indexed`"));
}

#[test]
fn formats_primary_key_annotation_as_string() {
    let annotation = EntityFieldAnnotation::PrimaryKey(true);
    assert_eq!(annotation.get_as_string(), "Annotation: PrimaryKey, Autoincremental: true");
}

#[test]
fn formats_foreign_key_annotation_as_string() {
    let annotation = EntityFieldAnnotation::ForeignKey("users".into(), "id".into());
    assert_eq!(annotation.get_as_string(), "Annotation: ForeignKey, Table: users, Column: id");
}

#[test]
fn formats_disabled_primary_key_annotation_as_string() {
    let annotation = EntityFieldAnnotation::PrimaryKey(false);
    assert_eq!(annotation.get_as_string(), "Annotation: PrimaryKey, Autoincremental: false");
}

#[test]
fn foreign_key_errors_point_at_their_argument() {
    let attribute = list_attribute(
        "foreign_key",
        vec![string_arg("table", "users"), NameValueArg { key: None, value: ArgValue::Str("id".into()) }],
    );
    let error = annotation_from(&attribute).unwrap_err();
    assert_eq!(error.span, ErrorSpan::ArgumentKey(1));
    assert_eq!(error.message, "Expected argument ident");
}

#[test]
fn a_later_autoincremental_argument_wins() {
    let attribute = list_attribute(
        "primary_key",
        vec![string_arg("autoincremental", "false"), string_arg("autoincremental", "true")],
    );
    assert!(matches!(annotation_from(&attribute).unwrap(), EntityFieldAnnotation::PrimaryKey(true)));
}

#[test]
fn qualified_attribute_paths_are_refused() {
    let attribute = AttributeModel {
        path: PathModel { segments: vec!["canyon".into(), "primary_key".into()], is_plain: true },
        style: MetaStyle::Path,
        args: Err("expected parentheses".into()),
        ident_pairs: no_pairs(),
    };
    let error = annotation_from(&attribute).unwrap_err();
    assert_eq!(error.message, "Expected attribute ident");
    assert_eq!(error.span, ErrorSpan::AttributePath);
}
