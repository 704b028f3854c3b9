use canyon_macros::attribute::{ArgValue, AttributeModel, DeriveModel, FieldModel, IdentPair, MetaStyle, NameValueArg, PathModel};
use canyon_macros::crud_attribute::CanyonCrudAttribute;
use canyon_macros::error::ErrorSpan;
use canyon_macros::field_annotation::EntityFieldAnnotation;
use canyon_macros::macro_tokens::{
    find_primary_key_field_annotation, primary_key_is_autoincremental, raise_canyon_crud_only_for_structs_err,
    MacroTokens,
};
use canyon_macros::primary_key::{PrimaryKeyAttribute, PrimaryKeyIndex};
use canyon_macros::types::TypeModel;

fn path(segments: &[&str]) -> PathModel {
    PathModel { segments: segments.iter().map(|s| s.to_string()).collect(), is_plain: true }
}

fn bare(name: &str) -> AttributeModel {
    AttributeModel {
        path: path(&[name]),
        style: MetaStyle::Path,
        args: Err("expected attribute arguments in parentheses".into()),
        ident_pairs: Err("expected attribute arguments in parentheses".into()),
    }
}

fn list(name: &str, args: Vec<NameValueArg>) -> AttributeModel {
    AttributeModel { path: path(&[name]), style: MetaStyle::List, args: Ok(args), ident_pairs: Err("expected identifier".into()) }
}

fn crud(pairs: &[(&str, &str)]) -> AttributeModel {
    AttributeModel {
        path: path(&["canyon_crud"]),
        style: MetaStyle::List,
        args: Err("expected literal".into()),
        ident_pairs: Ok(pairs.iter().map(|(n, v)| IdentPair { name: n.to_string(), value: v.to_string() }).collect()),
    }
}

fn string_arg(key: &str, value: &str) -> NameValueArg {
    NameValueArg { key: Some(key.to_string()), value: ArgValue::Str(value.to_string()) }
}

fn field(name: &str, ty: &str, attrs: Vec<AttributeModel>) -> FieldModel {
    FieldModel { ident: Some(name.to_string()), ty: TypeModel { text: ty.to_string(), path: None }, attrs }
}

/// `struct League { #[primary_key] id: i32, ext_id: i64, #[foreign_key(table = "tournament", column = "id")] tournament: i32 }`
fn league(pk_attr: AttributeModel) -> DeriveModel {
    DeriveModel {
        ident: "League".to_string(),
        attrs: vec![],
        fields: Some(vec![
            field("id", "i32", vec![pk_attr]),
            field("ext_id", "i64", vec![]),
            field(
                "tournament",
                "i32",
                vec![list("foreign_key", vec![string_arg("table", "tournament"), string_arg("column", "id")])],
            ),
        ]),
    }
}

#[test]
fn only_structs_are_accepted() {
    let ast = DeriveModel { ident: "Kind".into(), attrs: vec![], fields: None };
    let error = MacroTokens::new(&ast).unwrap_err();
    assert_eq!(error.message, "CanyonCrud may only be implemented for structs");
    assert_eq!(error.span, ErrorSpan::CallSite);
    assert!(raise_canyon_crud_only_for_structs_err().is_err());
}

#[test]
fn finds_the_first_primary_key_field() {
    let ast = league(bare("primary_key"));
    let fields = ast.fields.as_ref().unwrap();
    let (index, pk_field) = find_primary_key_field_annotation(fields).unwrap();
    assert_eq!(usize::from(index), 0);
    assert_eq!(pk_field.ident.as_deref(), Some("id"));

    let data = MacroTokens::new(&ast).unwrap();
    let pk = data.get_primary_key_field_annotation().unwrap();
    assert_eq!(pk.name, "id");
    assert_eq!(pk.index, PrimaryKeyIndex(0));
    assert_eq!(pk.to_string(), "ident:id,ty:i32,name:id");
    assert_eq!(data.get_primary_key_annotation(), Some("id".to_string()));
    let (ident, ty) = data.get_primary_key_ident_and_type().unwrap();
    assert_eq!(ident, "id");
    assert_eq!(ty.text, "i32");
    assert!(data.type_has_primary_key());
}

#[test]
fn a_struct_without_primary_key() {
    let ast = DeriveModel { ident: "Log".into(), attrs: vec![], fields: Some(vec![field("line", "String", vec![])]) };
    let data = MacroTokens::new(&ast).unwrap();
    assert!(data.get_primary_key_field_annotation().is_none());
    assert_eq!(data.get_primary_key_annotation(), None);
    assert!(data.get_primary_key_ident_and_type().is_none());
    assert!(!data.type_has_primary_key());
    assert_eq!(data.get_columns_skipping_pk().len(), 1);
}

#[test]
fn autoincremental_primary_keys_are_skipped_by_inserts() {
    let ast = league(bare("primary_key"));
    let data = MacroTokens::new(&ast).unwrap();
    let names: Vec<String> = data.get_fields_idents_skipping_pk().into_iter().cloned().collect();
    assert_eq!(names, vec!["ext_id".to_string(), "tournament".to_string()]);
    assert_eq!(
        data.get_struct_fields_as_table_column_pairs_skipping_pk(),
        vec![("league".to_string(), "ext_id".to_string()), ("league".to_string(), "tournament".to_string())]
    );
}

#[test]
fn non_autoincremental_primary_keys_are_skipped_too() {
    let ast = league(list("primary_key", vec![string_arg("autoincremental", "false")]));
    let data = MacroTokens::new(&ast).unwrap();
    let names: Vec<String> = data.get_fields_idents_skipping_pk().into_iter().cloned().collect();
    assert_eq!(names, vec!["ext_id".to_string(), "tournament".to_string()]);
}

#[test]
fn update_values_follow_the_set_columns_and_end_with_the_key() {
    let ast = league(bare("primary_key"));
    let data = MacroTokens::new(&ast).unwrap();
    let values: Vec<String> = data.update_value_fields().into_iter().cloned().collect();
    assert_eq!(values, vec!["ext_id".to_string(), "tournament".to_string(), "id".to_string()]);
    let columns: Vec<String> = data
        .get_struct_fields_as_table_column_pairs_skipping_pk()
        .into_iter()
        .map(|(_, column)| column)
        .collect();
    assert_eq!(columns, values[..2].to_vec());
}

#[test]
fn an_unreadable_primary_key_annotation_counts_as_autoincremental() {
    let wrong = list("primary_key", vec![string_arg("autoincremental", "maybe")]);
    assert!(primary_key_is_autoincremental(&field("id", "i32", vec![wrong])));
    assert!(primary_key_is_autoincremental(&field("id", "i32", vec![])));
    let disabled = list("primary_key", vec![string_arg("autoincremental", "false")]);
    assert!(!primary_key_is_autoincremental(&field("id", "i32", vec![bare("index"), disabled])));
}

#[test]
fn all_fields_and_column_pairs() {
    let ast = league(bare("primary_key"));
    let data = MacroTokens::new(&ast).unwrap();
    let fields = data.fields();
    assert_eq!(fields.len(), 3);
    assert_eq!(fields[1].0, "ext_id");
    assert_eq!(fields[1].1.text, "i64");
    let with_types = data.fields_with_types();
    assert_eq!(with_types[2].0, "tournament");
    assert_eq!(data.get_struct_fields(), vec!["id".to_string(), "ext_id".to_string(), "tournament".to_string()]);
    let pairs = data.get_struct_fields_as_table_column_pairs();
    assert_eq!(pairs[0], ("league".to_string(), "id".to_string()));
    assert_eq!(pairs.len(), 3);
}

#[test]
fn foreign_key_annotations_are_listed_with_their_field() {
    let ast = league(bare("primary_key"));
    let data = MacroTokens::new(&ast).unwrap();
    let fks = data.get_fk_annotations();
    assert_eq!(fks.len(), 1);
    assert_eq!(fks[0].0, "tournament");
    match &fks[0].1 {
        EntityFieldAnnotation::ForeignKey(table, column) => {
            assert_eq!(table, "tournament");
            assert_eq!(column, "id");
        }
        EntityFieldAnnotation::PrimaryKey(_) => panic!("expected a foreign key"),
    }
}

#[test]
fn unreadable_foreign_keys_are_passed_over() {
    let ast = DeriveModel {
        ident: "Match".into(),
        attrs: vec![],
        fields: Some(vec![field("team", "i32", vec![list("foreign_key", vec![string_arg("table", "team")])])]),
    };
    let data = MacroTokens::new(&ast).unwrap();
    assert!(data.get_fk_annotations().is_empty());
}

#[test]
fn canyon_crud_arguments() {
    let mut ast = league(bare("primary_key"));
    ast.attrs = vec![crud(&[("maps_to", "LeagueRow"), ("primary_key", "id"), ("pk_type", "i32")])];
    let data = MacroTokens::new(&ast).unwrap();
    assert_eq!(data.retrieve_mapping_target_type().map(|s| s.as_str()), Some("LeagueRow"));
    let attr = data.canyon_crud_attribute.as_ref().unwrap();
    assert_eq!(attr.pk.as_deref(), Some("id"));
    assert_eq!(attr.pk_type.as_deref(), Some("i32"));
}

#[test]
fn canyon_crud_refuses_unknown_keys() {
    let mut ast = league(bare("primary_key"));
    ast.attrs = vec![crud(&[("maps_to", "LeagueRow"), ("table", "leagues")])];
    let error = MacroTokens::new(&ast).unwrap_err();
    assert_eq!(error.message, "Unsupported attribute key: `table`");
    assert_eq!(error.span, ErrorSpan::ArgumentKey(1));
}

#[test]
fn canyon_crud_last_value_wins_and_parse_errors_surface() {
    let attr = CanyonCrudAttribute::parse(&Ok(vec![
        IdentPair { name: "maps_to".into(), value: "A".into() },
        IdentPair { name: "maps_to".into(), value: "B".into() },
    ]))
    .unwrap();
    assert_eq!(attr.maps_to.as_deref(), Some("B"));
    assert_eq!(attr.pk, None);
    let error = CanyonCrudAttribute::parse(&Err("expected `=`".into())).unwrap_err();
    assert_eq!(error.message, "expected `=`");
}

#[test]
fn primary_key_attribute_from_a_field() {
    let f = field("code", "String", vec![bare("primary_key")]);
    let pk = PrimaryKeyAttribute::from((PrimaryKeyIndex(4), &f));
    assert_eq!(pk.ident, "code");
    assert_eq!(pk.name, "code");
    assert_eq!(usize::from(pk.index), 4);
    assert_eq!(pk.to_string(), "ident:code,ty:String,name:code");
}

#[test]
fn canyon_crud_pairs_read_the_same_in_either_order() {
    let a = || IdentPair { name: "maps_to".into(), value: "Row".into() };
    let b = || IdentPair { name: "pk_type".into(), value: "i64".into() };
    let first = CanyonCrudAttribute::parse(&Ok(vec![a(), b()])).unwrap();
    let second = CanyonCrudAttribute::parse(&Ok(vec![b(), a()])).unwrap();
    assert_eq!(first.maps_to, second.maps_to);
    assert_eq!(first.pk_type, second.pk_type);
    assert_eq!(first.maps_to.as_deref(), Some("Row"));
    assert_eq!(first.pk_type.as_deref(), Some("i64"));
}
