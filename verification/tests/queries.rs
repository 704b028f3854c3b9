use canyon_macros::attribute::{ArgValue, AttributeModel, DeriveModel, FieldModel, IdentPair, MetaStyle, NameValueArg, PathModel};
use canyon_macros::macro_tokens::MacroTokens;
use canyon_macros::queries::{
    count_stmt, datasource_method_name, delete_by_pk_stmt, find_by_column_stmt, find_by_pk_stmt,
    foreign_key_searches, generate_insert_sql_statement, join_columns, reverse_foreign_key_searches,
    search_childrens_method_name, search_method_name, select_all_stmt,
};
use canyon_macros::types::TypeModel;

fn attribute(name: &str, style: MetaStyle, args: Result<Vec<NameValueArg>, String>) -> AttributeModel {
    AttributeModel {
        path: PathModel { segments: vec![name.to_string()], is_plain: true },
        style,
        args,
        ident_pairs: Err::<Vec<IdentPair>, String>("expected identifier".into()),
    }
}

fn string_arg(key: &str, value: &str) -> NameValueArg {
    NameValueArg { key: Some(key.to_string()), value: ArgValue::Str(value.to_string()) }
}

fn field(name: &str, attrs: Vec<AttributeModel>) -> FieldModel {
    FieldModel { ident: Some(name.to_string()), ty: TypeModel { text: "i32".into(), path: None }, attrs }
}

fn foreign_key(table: &str, column: &str) -> AttributeModel {
    attribute("foreign_key", MetaStyle::List, Ok(vec![string_arg("table", table), string_arg("column", column)]))
}

fn player(pk: Option<AttributeModel>) -> DeriveModel {
    let mut id_attrs = vec![];
    if let Some(pk) = pk {
        id_attrs.push(pk);
    }
    DeriveModel {
        ident: "Player".into(),
        attrs: vec![],
        fields: Some(vec![
            field("id", id_attrs),
            field("name", vec![]),
            field("team_id", vec![foreign_key("team", "id")]),
        ]),
    }
}

#[test]
fn read_statements() {
    assert_eq!(select_all_stmt("public.league"), "SELECT * FROM public.league");
    assert_eq!(count_stmt("league"), "SELECT COUNT (*) FROM league");
    assert_eq!(find_by_pk_stmt("league", "id"), "SELECT * FROM league WHERE id = $1");
    assert_eq!(find_by_column_stmt("team", "id"), "SELECT * FROM team WHERE \"id\" = $1");
}

#[test]
fn method_names() {
    assert_eq!(search_method_name("team"), "search_team");
    assert_eq!(search_childrens_method_name("team"), "search_team_childrens");
    assert_eq!(datasource_method_name("search_team"), "search_team_datasource");
}

#[test]
fn delete_statement_quotes_the_primary_key() {
    assert_eq!(delete_by_pk_stmt("league", "id"), "DELETE FROM league WHERE \"id\" = $1");
    assert_eq!(delete_by_pk_stmt("t", "a\"b"), "DELETE FROM t WHERE \"a\\\"b\" = $1");
}

#[test]
fn joins_columns_with_commas() {
    let a = "a".to_string();
    let b = "b".to_string();
    assert_eq!(join_columns(&vec![]), "");
    assert_eq!(join_columns(&vec![&a]), "a");
    assert_eq!(join_columns(&vec![&a, &b]), "a, b");
}

#[test]
fn insert_statement_skips_an_autoincremental_key() {
    let pk = attribute("primary_key", MetaStyle::Path, Err("no arguments".into()));
    let ast = player(Some(pk));
    let data = MacroTokens::new(&ast).unwrap();
    assert_eq!(
        generate_insert_sql_statement(&data, "player"),
        "INSERT INTO player (name, team_id) VALUES ($1, $2) RETURNING id"
    );
}

#[test]
fn insert_statement_skips_a_non_autoincremental_key_as_well() {
    let pk = attribute("primary_key", MetaStyle::List, Ok(vec![string_arg("autoincremental", "false")]));
    let ast = player(Some(pk));
    let data = MacroTokens::new(&ast).unwrap();
    assert_eq!(
        generate_insert_sql_statement(&data, "sports.player"),
        "INSERT INTO sports.player (name, team_id) VALUES ($1, $2) RETURNING id"
    );
}

#[test]
fn insert_statement_without_primary_key() {
    let ast = player(None);
    let data = MacroTokens::new(&ast).unwrap();
    assert_eq!(
        generate_insert_sql_statement(&data, "player"),
        "INSERT INTO player (id, name, team_id) VALUES ($1, $2, $3)"
    );
}

#[test]
fn parent_lookups_of_foreign_keys() {
    let ast = player(None);
    let data = MacroTokens::new(&ast).unwrap();
    let searches = foreign_key_searches(&data).unwrap();
    assert_eq!(searches.len(), 1);
    assert_eq!(searches[0].field, "team_id");
    assert_eq!(searches[0].parent_type.to_string(), "Team");
    assert_eq!(searches[0].method_name, "search_team");
    assert_eq!(searches[0].datasource_method_name, "search_team_datasource");
    assert_eq!(searches[0].stmt, "SELECT * FROM team WHERE \"id\" = $1");
}

#[test]
fn parent_lookups_refuse_tables_that_cannot_name_a_type() {
    let ast = DeriveModel {
        ident: "Player".into(),
        attrs: vec![],
        fields: Some(vec![field("team_id", vec![foreign_key("team-list", "id")])]),
    };
    let data = MacroTokens::new(&ast).unwrap();
    let error = foreign_key_searches(&data).unwrap_err();
    assert_eq!(
        error.message,
        "invalid database table name `team-list`: expected snake_case ASCII letters and digits"
    );
}

#[test]
fn child_lookups_of_foreign_keys() {
    let ast = player(None);
    let data = MacroTokens::new(&ast).unwrap();
    let searches = reverse_foreign_key_searches(&data, "public.player");
    assert_eq!(searches.len(), 1);
    assert_eq!(searches[0].field, "team_id");
    assert_eq!(searches[0].table, "team");
    assert_eq!(searches[0].column, "id");
    assert_eq!(searches[0].method_name, "search_team_childrens");
    assert_eq!(searches[0].datasource_method_name, "search_team_childrens_datasource");
    assert_eq!(searches[0].stmt, "SELECT * FROM public.player WHERE \"team_id\" = $1");
}
