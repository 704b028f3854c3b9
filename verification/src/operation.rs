//! A builder for the metadata of one CRUD operation, and the finished operation that the
//! token shell renders.
use vstd::prelude::*;

use crate::text::string_of;

verus! {

/// Builder for constructing CRUD operation metadata.
#[derive(Debug)]
pub struct OperationBuilder {
    pub operation_name: Option<String>,
    pub fn_name: Option<String>,
    pub datasource_param: Option<String>,
    pub datasource_arg: Option<String>,
    pub return_type: Option<syn::Type>,
    pub base_doc_comment: Option<String>,
    pub doc_comment: Option<String>,
    pub body_tokens: Option<proc_macro2::TokenStream>,
    pub with_unwrap: bool,
}

/// A fully constructed CRUD operation.
#[derive(Debug)]
pub struct Operation {
    pub operation_name: String,
    pub fn_name: String,
    pub datasource_param: String,
    pub datasource_arg: String,
    pub return_type: syn::Type,
    pub base_doc_comment: String,
    pub doc_comment: String,
    pub body_tokens: proc_macro2::TokenStream,
    pub with_unwrap: bool,
}

impl OperationBuilder {
    /// Every part of the operation has been given.
    pub open spec fn complete(&self) -> bool {
        &&& self.operation_name is Some
        &&& self.fn_name is Some
        &&& self.datasource_param is Some
        &&& self.datasource_arg is Some
        &&& self.return_type is Some
        &&& self.base_doc_comment is Some
        &&& self.doc_comment is Some
        &&& self.body_tokens is Some
    }

    /// Creates a new builder instance.
    pub fn new() -> (r: Self)
        ensures
            r.operation_name is None,
            r.fn_name is None,
            r.datasource_param is None,
            r.datasource_arg is None,
            r.return_type is None,
            r.base_doc_comment is None,
            r.doc_comment is None,
            r.body_tokens is None,
            !r.with_unwrap,
    {
        OperationBuilder {
            operation_name: None,
            fn_name: None,
            datasource_param: None,
            datasource_arg: None,
            return_type: None,
            base_doc_comment: None,
            doc_comment: None,
            body_tokens: None,
            with_unwrap: false,
        }
    }

    /// Sets the name of the operation.
    pub fn operation_name(self, name: &str) -> (r: Self)
        ensures
            r == (Self { operation_name: r.operation_name, ..self }),
            r.operation_name matches Some(n) && n@ == name@,
    {
        Self { operation_name: Some(string_of(name)), ..self }
    }

    /// Sets the function name.
    pub fn fn_name(self, name: &str) -> (r: Self)
        ensures
            r == (Self { fn_name: r.fn_name, ..self }),
            r.fn_name matches Some(n) && n@ == name@,
    {
        Self { fn_name: Some(string_of(name)), ..self }
    }

    /// Sets the datasource parameter.
    pub fn datasource_param(self, param: &str) -> (r: Self)
        ensures
            r == (Self { datasource_param: r.datasource_param, ..self }),
            r.datasource_param matches Some(n) && n@ == param@,
    {
        Self { datasource_param: Some(string_of(param)), ..self }
    }

    /// Sets the datasource argument.
    pub fn datasource_arg(self, arg: &str) -> (r: Self)
        ensures
            r == (Self { datasource_arg: r.datasource_arg, ..self }),
            r.datasource_arg matches Some(n) && n@ == arg@,
    {
        Self { datasource_arg: Some(string_of(arg)), ..self }
    }

    /// Sets the return type.
    pub fn return_type(self, ty: syn::Type) -> (r: Self)
        ensures
            r == (Self { return_type: Some(ty), ..self }),
    {
        Self { return_type: Some(ty), ..self }
    }

    /// Adds a base doc comment.
    pub fn base_doc_comment(self, comment: &str) -> (r: Self)
        ensures
            r == (Self { base_doc_comment: r.base_doc_comment, ..self }),
            r.base_doc_comment matches Some(n) && n@ == comment@,
    {
        Self { base_doc_comment: Some(string_of(comment)), ..self }
    }

    /// Adds an additional doc comment.
    pub fn doc_comment(self, comment: &str) -> (r: Self)
        ensures
            r == (Self { doc_comment: r.doc_comment, ..self }),
            r.doc_comment matches Some(n) && n@ == comment@,
    {
        Self { doc_comment: Some(string_of(comment)), ..self }
    }

    /// Sets the body of the function.
    pub fn body_tokens(self, tokens: proc_macro2::TokenStream) -> (r: Self)
        ensures
            r == (Self { body_tokens: Some(tokens), ..self }),
    {
        Self { body_tokens: Some(tokens), ..self }
    }

    /// Configures whether to use `.unwrap()`.
    pub fn with_unwrap(self, unwrap: bool) -> (r: Self)
        ensures
            r == (Self { with_unwrap: unwrap, ..self }),
    {
        Self { with_unwrap: unwrap, ..self }
    }

    /// Finalizes the builder and returns the operation; every part must have been given.
    pub fn build(self) -> (r: Operation)
        requires
            self.complete(),
        ensures
            Some(r.operation_name) == self.operation_name,
            Some(r.fn_name) == self.fn_name,
            Some(r.datasource_param) == self.datasource_param,
            Some(r.datasource_arg) == self.datasource_arg,
            Some(r.return_type) == self.return_type,
            Some(r.base_doc_comment) == self.base_doc_comment,
            Some(r.doc_comment) == self.doc_comment,
            Some(r.body_tokens) == self.body_tokens,
            r.with_unwrap == self.with_unwrap,
    {
        Operation {
            operation_name: self.operation_name.unwrap(),
            fn_name: self.fn_name.unwrap(),
            datasource_param: self.datasource_param.unwrap(),
            datasource_arg: self.datasource_arg.unwrap(),
            return_type: self.return_type.unwrap(),
            base_doc_comment: self.base_doc_comment.unwrap(),
            doc_comment: self.doc_comment.unwrap(),
            body_tokens: self.body_tokens.unwrap(),
            with_unwrap: self.with_unwrap,
        }
    }
}

} // verus!
