use canyon_macros::error::ErrorSpan;
use canyon_macros::types::{
    option_inner_type, sqlserver_deserialization_type, tiberius_field_reading, type_path_ends_with,
    GenericArgModel, OwnedConversion, PathSegmentModel, SegmentArgs, TypeModel,
};

fn segment(ident: &str) -> PathSegmentModel {
    PathSegmentModel { ident: ident.to_string(), arguments: SegmentArgs::NoArguments }
}

fn path_type(text: &str, segments: Vec<PathSegmentModel>) -> TypeModel {
    TypeModel { text: text.to_string(), path: Some(segments) }
}

fn generic(ident: &str, args: Vec<GenericArgModel>) -> PathSegmentModel {
    PathSegmentModel { ident: ident.to_string(), arguments: SegmentArgs::AngleBracketed(args) }
}

/// `String`
fn string_type() -> TypeModel {
    path_type("String", vec![segment("String")])
}

/// `std::option::Option<std::string::String>`
fn qualified_optional_string() -> TypeModel {
    let inner = path_type(
        "std :: string :: String",
        vec![segment("std"), segment("string"), segment("String")],
    );
    path_type(
        "std :: option :: Option < std :: string :: String >",
        vec![segment("std"), segment("option"), generic("Option", vec![GenericArgModel::Type(inner)])],
    )
}

/// `chrono::DateTime<chrono::Utc>`
fn date_time() -> TypeModel {
    let utc = path_type("chrono :: Utc", vec![segment("chrono"), segment("Utc")]);
    path_type(
        "chrono :: DateTime < chrono :: Utc >",
        vec![segment("chrono"), generic("DateTime", vec![GenericArgModel::Type(utc)])],
    )
}

/// `Option<chrono::DateTime<chrono::Utc>>`
fn optional_date_time() -> TypeModel {
    path_type(
        "Option < chrono :: DateTime < chrono :: Utc > >",
        vec![generic("Option", vec![GenericArgModel::Type(date_time())])],
    )
}

#[test]
fn maps_owned_strings_to_tiberius_borrowed_strings() {
    let target = string_type();
    let (ty, optional, owned) = sqlserver_deserialization_type(&target).unwrap();
    assert_eq!("& str", ty.to_string());
    assert!(!optional);
    assert!(owned);

    let target = qualified_optional_string();
    let (ty, optional, owned) = sqlserver_deserialization_type(&target).unwrap();
    assert_eq!("& str", ty.to_string());
    assert!(optional);
    assert!(owned);
}

#[test]
fn preserves_qualified_and_generic_field_types() {
    let target = optional_date_time();
    let (ty, optional, owned) = sqlserver_deserialization_type(&target).unwrap();
    assert_eq!("chrono :: DateTime < chrono :: Utc >", ty.to_string());
    assert!(optional);
    assert!(!owned);

    let target = path_type("domain :: UserId", vec![segment("domain"), segment("UserId")]);
    let (ty, optional, owned) = sqlserver_deserialization_type(&target).unwrap();
    assert_eq!("domain :: UserId", ty.to_string());
    assert!(!optional);
    assert!(!owned);
}

#[test]
fn option_without_exactly_one_type_argument_is_refused() {
    let bare = path_type("Option", vec![segment("Option")]);
    let error = option_inner_type(&bare).unwrap_err();
    assert_eq!(error.message, "Option fields must declare exactly one inner type");
    assert_eq!(error.span, ErrorSpan::TargetType);

    let two = path_type(
        "Option < String , i32 >",
        vec![generic("Option", vec![GenericArgModel::Type(string_type()), GenericArgModel::Other])],
    );
    assert!(sqlserver_deserialization_type(&two).is_err());

    let lifetime = path_type("Option < 'a >", vec![generic("Option", vec![GenericArgModel::Other])]);
    assert!(option_inner_type(&lifetime).is_err());
}

#[test]
fn non_path_types_are_read_as_declared() {
    let reference = TypeModel { text: "& 'static str".to_string(), path: None };
    assert!(option_inner_type(&reference).unwrap().is_none());
    assert!(!type_path_ends_with(&reference, "String"));
    let (ty, optional, owned) = sqlserver_deserialization_type(&reference).unwrap();
    assert_eq!(ty.to_string(), "& 'static str");
    assert!(!optional && !owned);
}

#[test]
fn tiberius_readings_convert_borrowed_strings() {
    let target = string_type();
    let reading = tiberius_field_reading(&target).unwrap();
    assert!(reading.require_value);
    assert_eq!(reading.conversion, OwnedConversion::ToOwned);
    assert_eq!(reading.deserializing_type.to_string(), "& str");

    let target = qualified_optional_string();
    let reading = tiberius_field_reading(&target).unwrap();
    assert!(!reading.require_value);
    assert_eq!(reading.conversion, OwnedConversion::MapToOwned);

    let target = optional_date_time();
    let reading = tiberius_field_reading(&target).unwrap();
    assert!(!reading.require_value);
    assert_eq!(reading.conversion, OwnedConversion::Keep);
    assert_eq!(reading.deserializing_type.to_string(), "chrono :: DateTime < chrono :: Utc >");
}

#[test]
fn an_option_reads_as_its_inner_type() {
    let inner = date_time();
    let (ty, optional, owned) = sqlserver_deserialization_type(&inner).unwrap();
    let optional_inner = optional_date_time();
    let (oty, ooptional, oowned) = sqlserver_deserialization_type(&optional_inner).unwrap();
    assert_eq!(ty.to_string(), oty.to_string());
    assert_eq!(owned, oowned);
    assert!(!optional && ooptional);
}
