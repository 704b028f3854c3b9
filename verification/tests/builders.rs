use canyon_macros::attribute::{DeriveModel, FieldModel};
use canyon_macros::entry::{check_main_fn_name, foreignkeyable_columns};
use canyon_macros::error::ErrorSpan;
use canyon_macros::operation::OperationBuilder;
use canyon_macros::operation_builder::{
    BodyShape, Container, MacroOperationBuilder, ReturnTypeShape, SignatureGenerics, WhereBound,
};
use canyon_macros::types::TypeModel;
use proc_macro2::{Ident, Span, TokenStream};

fn ident(name: &str) -> Ident {
    Ident::new(name, Span::call_site())
}

#[test]
fn a_new_operation_has_no_generics_and_returns_a_vec_in_a_result() {
    let op = MacroOperationBuilder::new().fn_name("find_all").user_type(&ident("User")).return_type(&ident("User"));
    assert_eq!(op.get_fn_name(), "find_all");
    assert_eq!(op.get_user_type().to_string(), "User");
    assert_eq!(op.compose_fn_signature_generics(), SignatureGenerics::Empty);
    assert_eq!(op.get_return_type(), ReturnTypeShape { container: Container::Vec, result: Some(false) });
    assert!(op.get_where_clause_bounds().is_none());
    assert!(!op.get_input_arg());
    assert!(!op.compose_params_separator());
    assert!(op.get_forwarded_parameters().is_none());
    assert_eq!(op.body_shape(), BodyShape { propagate: false, map_results: true, as_variable: false });
}

#[test]
fn an_input_parameter_brings_its_lifetime_and_bound() {
    let op = MacroOperationBuilder::new().with_input_param();
    assert_eq!(op.compose_fn_signature_generics(), SignatureGenerics::LifetimeAndInput);
    assert_eq!(op.get_where_clause_bounds(), Some(&vec![WhereBound::DbConnectionInput]));
    assert!(op.get_input_arg());
    assert_eq!(op.get_return_type().result, Some(true));

    let op = op.input_parameters(TokenStream::new());
    assert!(op.compose_params_separator());
    assert!(op.get_fn_parameters().is_some());
}

#[test]
fn lifetime_alone() {
    let op = MacroOperationBuilder::new().with_lifetime();
    assert_eq!(op.compose_fn_signature_generics(), SignatureGenerics::Lifetime);
}

#[test]
fn return_shapes() {
    let single = MacroOperationBuilder::new().single_result();
    assert_eq!(single.get_return_type().container, Container::Option);
    let raw = MacroOperationBuilder::new().single_result().raw_return();
    assert_eq!(raw.get_return_type().container, Container::Bare);
    let unwrapped = MacroOperationBuilder::new().with_unwrap();
    assert_eq!(unwrapped.get_return_type().result, None);
    assert!(unwrapped.get_unwrap());
}

#[test]
fn body_options() {
    let op = MacroOperationBuilder::new()
        .propagate_transaction_result()
        .disable_mapping()
        .transaction_as_variable(TokenStream::new())
        .forwarded_parameters(TokenStream::new())
        .query_string("SELECT * FROM users")
        .add_doc_comment("Finds users.")
        .add_doc_comment("All of them.");
    assert_eq!(op.body_shape(), BodyShape { propagate: true, map_results: false, as_variable: true });
    assert!(op.post_body.is_some());
    assert!(op.get_forwarded_parameters().is_some());
    assert_eq!(op.query_string.as_deref(), Some("SELECT * FROM users"));
    assert_eq!(op.doc_comments, vec!["Finds users.".to_string(), "All of them.".to_string()]);
}

#[test]
fn operation_builder_builds_a_complete_operation() {
    let ty: syn::Type = syn::parse_str("Result<Vec<User>, Error>").unwrap();
    let op = OperationBuilder::new()
        .operation_name("find")
        .fn_name("find_user_by_id")
        .datasource_param("datasource")
        .datasource_arg("datasource")
        .return_type(ty)
        .base_doc_comment("Finds a user by their ID.")
        .doc_comment("This operation retrieves a single user record based on the provided ID.")
        .body_tokens(TokenStream::new())
        .with_unwrap(true)
        .build();
    assert_eq!(op.operation_name, "find");
    assert_eq!(op.fn_name, "find_user_by_id");
    assert_eq!(op.datasource_param, "datasource");
    assert_eq!(op.base_doc_comment, "Finds a user by their ID.");
    assert!(op.with_unwrap);
}

#[test]
fn main_attribute_only_on_main() {
    assert!(check_main_fn_name("main").is_ok());
    let error = check_main_fn_name("start").unwrap_err();
    assert_eq!(error.message, "the #[canyon::main] attribute can only be applied to `fn main()`");
    assert_eq!(error.span, ErrorSpan::FunctionIdent);
}

#[test]
fn foreignkeyable_needs_a_struct() {
    let ast = DeriveModel { ident: "Kind".into(), attrs: vec![], fields: None };
    let error = foreignkeyable_columns(&ast).unwrap_err();
    assert_eq!(error.message, "ForeignKeyable only works with Structs");
    let ast = DeriveModel {
        ident: "Team".into(),
        attrs: vec![],
        fields: Some(vec![FieldModel {
            ident: Some("id".into()),
            ty: TypeModel { text: "i32".into(), path: None },
            attrs: vec![],
        }]),
    };
    let columns: Vec<String> = foreignkeyable_columns(&ast).unwrap().into_iter().cloned().collect();
    assert_eq!(columns, vec!["id".to_string()]);
}
