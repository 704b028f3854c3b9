//! The description of one generated CRUD method: its name, its signature options and how
//! its body runs the query. The token shell renders a description into the method.
use vstd::prelude::*;

use crate::text::string_of;

verus! {

/// A bound of the generated method's `where` clause.
#[derive(Debug, Clone, Copy, PartialEq, Eq, Structural)]
pub enum WhereBound {
    /// `I: canyon_sql::core::DbConnection + Send + 'a`, for the `input: I` parameter.
    DbConnectionInput,
}

/// The generic parameters of the generated method.
#[derive(Debug, Clone, Copy, PartialEq, Eq, Structural)]
pub enum SignatureGenerics {
    /// No generic parameter.
    Empty,
    /// `<'a>`.
    Lifetime,
    /// `<'a, I>`.
    LifetimeAndInput,
}

/// What wraps the declared return type.
#[derive(Debug, Clone, Copy, PartialEq, Eq, Structural)]
pub enum Container {
    /// The declared type as it is.
    Bare,
    /// `Option<T>`, for a single result.
    Option,
    /// `Vec<T>`, for many results.
    Vec,
}

/// The shape of the generated method's return type.
#[derive(Debug, Clone, Copy, PartialEq, Eq, Structural)]
pub struct ReturnTypeShape {
    pub container: Container,
    /// `None` when the result is unwrapped; else the container is returned inside
    /// `Result<_, Box<dyn std::error::Error + Send + Sync>>`, whose error carries the
    /// lifetime `'a` when this is `Some(true)`.
    pub result: Option<bool>,
}

/// How the body runs the query: whether `?` follows the call, whether rows are mapped
/// with `.into_results::<T>()`, and whether the result is bound to a variable that the
/// result handling after it reads.
#[derive(Debug, Clone, Copy, PartialEq, Eq, Structural)]
pub struct BodyShape {
    pub propagate: bool,
    pub map_results: bool,
    pub as_variable: bool,
}

/// The options of one generated CRUD method.
#[derive(Debug)]
pub struct MacroOperationBuilder {
    pub fn_name: Option<String>,
    pub user_type: Option<proc_macro2::Ident>,
    /// The signature declares the lifetime `'a`.
    pub lifetime: bool,
    /// The signature takes the datasource parameter `input: I` and forwards `input` to the
    /// query.
    pub input_param: bool,
    pub return_type: Option<proc_macro2::Ident>,
    pub where_clause_bounds: Vec<WhereBound>,
    pub doc_comments: Vec<String>,
    pub query_string: Option<String>,
    pub input_parameters: Option<proc_macro2::TokenStream>,
    pub forwarded_parameters: Option<proc_macro2::TokenStream>,
    pub single_result: bool,
    pub with_unwrap: bool,
    pub transaction_as_variable: bool,
    pub disable_mapping: bool,
    pub raw_return: bool,
    pub propagate_transaction_result: bool,
    pub post_body: Option<proc_macro2::TokenStream>,
}

/// `proc_macro2::Ident::clone`, a field-by-field copy of the identifier (its text, its
/// span and whether it is raw): the copy equals the original.
#[verifier::external_body]
fn clone_ident(ident: &proc_macro2::Ident) -> (r: proc_macro2::Ident)
    ensures
        r == *ident,
{
    ident.clone()
}

impl MacroOperationBuilder {
    /// A builder with nothing set.
    pub fn new() -> (r: Self)
        ensures
            r.fn_name is None,
            r.user_type is None,
            !r.lifetime,
            !r.input_param,
            r.return_type is None,
            r.where_clause_bounds@.len() == 0,
            r.doc_comments@.len() == 0,
            r.query_string is None,
            r.input_parameters is None,
            r.forwarded_parameters is None,
            !r.single_result,
            !r.with_unwrap,
            !r.transaction_as_variable,
            !r.disable_mapping,
            !r.raw_return,
            !r.propagate_transaction_result,
            r.post_body is None,
    {
        MacroOperationBuilder {
            fn_name: None,
            user_type: None,
            lifetime: false,
            input_param: false,
            return_type: None,
            where_clause_bounds: Vec::new(),
            doc_comments: Vec::new(),
            query_string: None,
            input_parameters: None,
            forwarded_parameters: None,
            single_result: false,
            with_unwrap: false,
            transaction_as_variable: false,
            disable_mapping: false,
            raw_return: false,
            propagate_transaction_result: false,
            post_body: None,
        }
    }

    /// Sets the name of the generated method.
    pub fn fn_name(self, name: &str) -> (r: Self)
        ensures
            r == (Self { fn_name: Some(r.fn_name->Some_0), ..self }),
            r.fn_name matches Some(n) && n@ == name@,
    {
        Self { fn_name: Some(string_of(name)), ..self }
    }
    /// The name of the generated method, which must have been set.
    pub fn get_fn_name(&self) -> (r: &String)
        requires
            self.fn_name is Some,
        ensures
            *r == self.fn_name->Some_0,
    {
        self.fn_name.as_ref().unwrap()
    }

    /// Sets the type that implements the operations.
    pub fn user_type(self, ty: &proc_macro2::Ident) -> (r: Self)
        ensures
            r == (Self { user_type: Some(*ty), ..self }),
    {
        Self { user_type: Some(clone_ident(ty)), ..self }
    }

    /// The type that implements the operations, which must have been set.
    pub fn get_user_type(&self) -> (r: &proc_macro2::Ident)
        requires
            self.user_type is Some,
        ensures
            *r == self.user_type->Some_0,
    {
        self.user_type.as_ref().unwrap()
    }

    /// The generic parameters of the signature: none without a lifetime or an input
    /// parameter, `<'a>` with the lifetime alone, `<'a, I>` with an input parameter.
    pub fn compose_fn_signature_generics(&self) -> (r: SignatureGenerics)
        ensures
            r == (if !self.lifetime && !self.input_param {
                SignatureGenerics::Empty
            } else if self.lifetime && !self.input_param {
                SignatureGenerics::Lifetime
            } else {
                SignatureGenerics::LifetimeAndInput
            }),
    {
        if !self.lifetime && !self.input_param {
            SignatureGenerics::Empty
        } else if self.lifetime && !self.input_param {
            SignatureGenerics::Lifetime
        } else {
            SignatureGenerics::LifetimeAndInput
        }
    }

    /// Whether a comma separates the method's own parameters from `input: I`: only when
    /// both are present.
    pub fn compose_params_separator(&self) -> (r: bool)
        ensures
            r == (self.input_parameters is Some && self.input_param),
    {
        self.input_parameters.is_some() && self.input_param
    }

    /// Whether the query receives the datasource `input` (`true`) or the empty datasource
    /// name `""` (`false`).
    pub fn get_input_arg(&self) -> (r: bool)
        ensures
            r == self.input_param,
    {
        self.input_param
    }

    /// Declares the lifetime `'a` on the signature.
    pub fn with_lifetime(self) -> (r: Self)
        ensures
            r == (Self { lifetime: true, ..self }),
    {
        Self { lifetime: true, ..self }
    }

    /// Adds the datasource parameter `input: I`, which brings the lifetime `'a` and the
    /// bound of `I`.
    pub fn with_input_param(self) -> (r: Self)
        ensures
            r == (Self {
                lifetime: true,
                input_param: true,
                where_clause_bounds: r.where_clause_bounds,
                ..self
            }),
            r.where_clause_bounds@ == self.where_clause_bounds@.push(WhereBound::DbConnectionInput),
    {
        let mut s = self;
        s.input_param = true;
        s.lifetime = true;
        s.where_clause_bounds.push(WhereBound::DbConnectionInput);
        s
    }

    /// The shape of the return type: the declared type bare (raw return), in an `Option`
    /// (single result) or in a `Vec`; inside a `Result` unless the result is unwrapped,
    /// whose error carries `'a` when the signature declares it.
    pub fn get_return_type(&self) -> (r: ReturnTypeShape)
        ensures
            r.container == (if self.raw_return {
                Container::Bare
            } else if self.single_result {
                Container::Option
            } else {
                Container::Vec
            }),
            r.result == (if self.with_unwrap {
                None
            } else {
                Some(self.lifetime)
            }),
    {
        let container = if self.raw_return {
            Container::Bare
        } else if self.single_result {
            Container::Option
        } else {
            Container::Vec
        };
        let result = if self.with_unwrap {
            None
        } else {
            Some(self.lifetime)
        };
        ReturnTypeShape { container, result }
    }

    /// The bounds of the `where` clause, or `None` when there is no `where` clause.
    pub fn get_where_clause_bounds(&self) -> (r: Option<&Vec<WhereBound>>)
        ensures
            match r {
                Some(v) => *v == self.where_clause_bounds && v@.len() > 0,
                None => self.where_clause_bounds@.len() == 0,
            },
    {
        if self.where_clause_bounds.len() == 0 {
            None
        } else {
            Some(&self.where_clause_bounds)
        }
    }

    /// Sets the type of the returned rows.
    pub fn return_type(self, return_type: &proc_macro2::Ident) -> (r: Self)
        ensures
            r == (Self { return_type: Some(*return_type), ..self }),
    {
        Self { return_type: Some(clone_ident(return_type)), ..self }
    }

    /// The method returns at most one row.
    pub fn single_result(self) -> (r: Self)
        ensures
            r == (Self { single_result: true, ..self }),
    {
        Self { single_result: true, ..self }
    }

    /// Adds a line to the method's documentation.
    pub fn add_doc_comment(self, comment: &str) -> (r: Self)
        ensures
            r == (Self { doc_comments: r.doc_comments, ..self }),
            r.doc_comments@.len() == self.doc_comments@.len() + 1,
            forall|i: int| 0 <= i < self.doc_comments@.len() ==> r.doc_comments@[i] == self.doc_comments@[i],
            r.doc_comments@.last()@ == comment@,
    {
        let mut s = self;
        s.doc_comments.push(string_of(comment));
        s
    }

    /// Sets the SQL statement the method runs.
    pub fn query_string(self, query: &str) -> (r: Self)
        ensures
            r == (Self { query_string: r.query_string, ..self }),
            r.query_string matches Some(q) && q@ == query@,
    {
        Self { query_string: Some(string_of(query)), ..self }
    }

    /// Sets the method's own parameters.
    pub fn input_parameters(self, params: proc_macro2::TokenStream) -> (r: Self)
        ensures
            r == (Self { input_parameters: Some(params), ..self }),
    {
        Self { input_parameters: Some(params), ..self }
    }

    /// The method's own parameters, if set.
    pub fn get_fn_parameters(&self) -> (r: Option<&proc_macro2::TokenStream>)
        ensures
            match r {
                Some(p) => self.input_parameters == Some(*p),
                None => self.input_parameters is None,
            },
    {
        self.input_parameters.as_ref()
    }

    /// Sets the values bound to the statement's placeholders.
    pub fn forwarded_parameters(self, params: proc_macro2::TokenStream) -> (r: Self)
        ensures
            r == (Self { forwarded_parameters: Some(params), ..self }),
    {
        Self { forwarded_parameters: Some(params), ..self }
    }

    /// The values bound to the placeholders; `None` stands for the empty slice `&[]`.
    pub fn get_forwarded_parameters(&self) -> (r: Option<&proc_macro2::TokenStream>)
        ensures
            match r {
                Some(p) => self.forwarded_parameters == Some(*p),
                None => self.forwarded_parameters is None,
            },
    {
        self.forwarded_parameters.as_ref()
    }

    /// Whether the body ends with `.unwrap()`.
    pub fn get_unwrap(&self) -> (r: bool)
        ensures
            r == self.with_unwrap,
    {
        self.with_unwrap
    }

    /// The body unwraps the query result, and the return type is no `Result`.
    pub fn with_unwrap(self) -> (r: Self)
        ensures
            r == (Self { with_unwrap: true, ..self }),
    {
        Self { with_unwrap: true, ..self }
    }

    /// Binds the query result to `transaction_result` and follows it with
    /// `result_handling`.
    pub fn transaction_as_variable(self, result_handling: proc_macro2::TokenStream) -> (r: Self)
        ensures
            r == (Self { transaction_as_variable: true, post_body: Some(result_handling), ..self }),
    {
        Self { transaction_as_variable: true, post_body: Some(result_handling), ..self }
    }

    /// The rows are not mapped into the user type.
    pub fn disable_mapping(self) -> (r: Self)
        ensures
            r == (Self { disable_mapping: true, ..self }),
    {
        Self { disable_mapping: true, ..self }
    }

    /// The declared return type is returned without a container.
    pub fn raw_return(self) -> (r: Self)
        ensures
            r == (Self { raw_return: true, ..self }),
    {
        Self { raw_return: true, ..self }
    }

    /// The query's error is propagated with `?`.
    pub fn propagate_transaction_result(self) -> (r: Self)
        ensures
            r == (Self { propagate_transaction_result: true, ..self }),
    {
        Self { propagate_transaction_result: true, ..self }
    }

    /// How the body runs the query.
    pub fn body_shape(&self) -> (r: BodyShape)
        ensures
            r == (BodyShape {
                propagate: self.propagate_transaction_result,
                map_results: !self.disable_mapping,
                as_variable: self.transaction_as_variable,
            }),
    {
        BodyShape {
            propagate: self.propagate_transaction_result,
            map_results: !self.disable_mapping,
            as_variable: self.transaction_as_variable,
        }
    }
}

} // verus!
