use canyon_macros::naming::{
    database_table_name_to_struct_ident, default_database_table_name_from_entity_name,
    invalid_table_name, table_name_to_struct_name,
};

#[test]
fn test_entity_database_name_defaulter() {
    assert_eq!(default_database_table_name_from_entity_name("League"), "league".to_owned());
    assert_eq!(default_database_table_name_from_entity_name("MajorLeague"), "major_league".to_owned());
    assert_eq!(
        default_database_table_name_from_entity_name("MajorLeagueTournament"),
        "major_league_tournament".to_owned()
    );

    assert_ne!(default_database_table_name_from_entity_name("MajorLeague"), "majorleague".to_owned());
    assert_ne!(default_database_table_name_from_entity_name("MajorLeague"), "MajorLeague".to_owned());
}

#[test]
fn converts_compound_table_names_to_pascal_case() {
    assert_eq!(database_table_name_to_struct_ident("team_members").unwrap().to_string(), "TeamMembers");
    assert_eq!(database_table_name_to_struct_ident("league_region2").unwrap().to_string(), "LeagueRegion2");
}

#[test]
fn rejects_invalid_table_names_without_panicking() {
    for table_name in ["", "_teams", "teams_", "team__members", "team-members"] {
        assert!(database_table_name_to_struct_ident(table_name).is_err());
    }
}

#[test]
fn default_table_name_of_an_empty_name_is_empty() {
    assert_eq!(default_database_table_name_from_entity_name(""), "");
}

#[test]
fn default_table_name_keeps_digits_and_splits_every_capital() {
    assert_eq!(default_database_table_name_from_entity_name("LeagueRegion2"), "league_region2");
    assert_eq!(default_database_table_name_from_entity_name("ABC"), "a_b_c");
}

#[test]
fn struct_names_of_valid_table_names() {
    assert_eq!(table_name_to_struct_name("team_members"), Some("TeamMembers".to_string()));
    assert_eq!(table_name_to_struct_name("a1_b2"), Some("A1B2".to_string()));
    assert_eq!(table_name_to_struct_name("team__members"), None);
    assert_eq!(table_name_to_struct_name("2teams"), None);
}

#[test]
fn table_names_that_name_a_keyword_are_refused() {
    let error = database_table_name_to_struct_ident("self").unwrap_err();
    assert_eq!(
        error.message,
        "invalid database table name `self`: expected snake_case ASCII letters and digits"
    );
}

#[test]
fn invalid_table_name_message() {
    let error = invalid_table_name("team-members");
    assert_eq!(
        error.message,
        "invalid database table name `team-members`: expected snake_case ASCII letters and digits"
    );
}

#[test]
fn pascal_case_names_round_trip_through_table_names() {
    for name in ["League", "MajorLeague", "LeagueRegion2", "ABC", "X9Y"] {
        let table = default_database_table_name_from_entity_name(name);
        assert_eq!(table_name_to_struct_name(&table), Some(name.to_string()));
    }
}

#[test]
fn lowercase_table_names_round_trip_through_type_names() {
    for table in ["league", "team_members", "league_region2", "a_b_c"] {
        let name = table_name_to_struct_name(table).unwrap();
        assert_eq!(default_database_table_name_from_entity_name(&name), table);
    }
}

#[test]
fn struct_identifiers_carry_the_type_name() {
    let ident = database_table_name_to_struct_ident("major_league2nd").unwrap();
    assert_eq!(ident.to_string(), "MajorLeague2nd");
}
