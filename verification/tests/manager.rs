use canyon_macros::attribute::{ArgValue, AttributeModel, FieldModel, IdentPair, MetaStyle, NameValueArg, PathModel};
use canyon_macros::error::ErrorSpan;
use canyon_macros::manager::{CanyonEntity, EntityField, EntityFieldAnnotation};
use canyon_macros::types::TypeModel;

fn foreign_key(args: Result<Vec<NameValueArg>, String>) -> AttributeModel {
    AttributeModel {
        path: PathModel { segments: vec!["foreign_key".into()], is_plain: true },
        style: MetaStyle::List,
        args,
        ident_pairs: Err::<Vec<IdentPair>, String>("expected identifier".into()),
    }
}

fn string_arg(key: &str, value: &str) -> NameValueArg {
    NameValueArg { key: Some(key.to_string()), value: ArgValue::Str(value.to_string()) }
}

fn ty(text: &str) -> TypeModel {
    TypeModel { text: text.to_string(), path: None }
}

#[test]
fn manager_foreign_key_takes_the_last_values() {
    let args = Ok(vec![string_arg("table", "a"), string_arg("column", "id"), string_arg("table", "league")]);
    let EntityFieldAnnotation::ForeignKey(table, column) = EntityFieldAnnotation::new(&args).unwrap();
    assert_eq!(table, "league");
    assert_eq!(column, "id");
    let annotation = EntityFieldAnnotation::ForeignKey(table, column);
    assert_eq!(annotation.get_as_string(), "Annotation: ForeignKey, Table: league, Column: id");
}

#[test]
fn manager_foreign_key_errors() {
    let error = EntityFieldAnnotation::foreign_key_parser(&Ok(vec![string_arg("column", "id")])).unwrap_err();
    assert_eq!(error.message, "Missed `table` argument on the Foreign Key annotation");
    let error = EntityFieldAnnotation::foreign_key_parser(&Ok(vec![string_arg("table", "t")])).unwrap_err();
    assert_eq!(error.message, "Missed `column` argument on the Foreign Key annotation");
    let error = EntityFieldAnnotation::foreign_key_parser(&Ok(vec![NameValueArg {
        key: Some("table".into()),
        value: ArgValue::OtherLiteral,
    }]))
    .unwrap_err();
    assert_eq!(error.message, "Only string literals are supported for the `table` attribute");
    assert_eq!(error.span, ErrorSpan::ArgumentKey(0));
    let error = EntityFieldAnnotation::foreign_key_parser(&Err("expected parentheses".into())).unwrap_err();
    assert_eq!(error.message, "Error generating the Foreign Key");
}

#[test]
fn manager_attributes_other_than_foreign_key_are_refused() {
    let mut attribute = foreign_key(Ok(vec![]));
    attribute.path.segments = vec!["primary_key".into()];
    let error = EntityFieldAnnotation::try_from(&attribute).unwrap_err();
    assert_eq!(error.message, "Unknown attribute `primary_key`");
}

#[test]
fn manager_fields_take_at_most_one_attribute() {
    let attrs = vec![
        foreign_key(Ok(vec![string_arg("table", "t"), string_arg("column", "c")])),
        foreign_key(Ok(vec![string_arg("table", "t"), string_arg("column", "c")])),
    ];
    let error = EntityField::new("team", 3, &attrs, &ty("i32")).unwrap_err();
    assert_eq!(error.message, "Field has more than one attribute");
    assert_eq!(error.span, ErrorSpan::FieldName(3));
}

#[test]
fn manager_entity_reports_fields() {
    let fields = vec![
        FieldModel { ident: Some("id".into()), ty: ty("i32"), attrs: vec![] },
        FieldModel {
            ident: Some("team".into()),
            ty: ty("Option < i32 >"),
            attrs: vec![foreign_key(Ok(vec![string_arg("table", "team"), string_arg("column", "id")]))],
        },
    ];
    let entity = CanyonEntity::parse("Player", &fields).unwrap();
    assert_eq!(entity.fields_enum_name(), "PlayerFields");
    assert_eq!(
        entity.field_attr_messages(),
        vec![
            "No annotation found for field: id in Player entity".to_string(),
            "Annotation ForeignKey found in field: team for Player entity".to_string(),
        ]
    );
    assert!(!entity.attributes[0].type_mentions_option());
    assert!(entity.attributes[1].type_mentions_option());
    assert_eq!(entity.attributes[1].get_field_type_as_string(), "Option < i32 >");
}

#[test]
fn manager_entity_refuses_unnamed_fields() {
    let fields = vec![FieldModel { ident: None, ty: ty("i32"), attrs: vec![] }];
    let error = EntityField::try_from(&fields[0], 0).unwrap_err();
    assert_eq!(error.message, "Expected a structure with named fields, unnamed field given");
    assert!(CanyonEntity::parse("Pair", &fields).is_err());
}
