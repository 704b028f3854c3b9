//! Verified core of the Canyon entity and CRUD code generators.
pub mod attribute;
pub mod crud_attribute;
pub mod entity;
pub mod entry;
pub mod error;
pub mod field_annotation;
pub mod helpers;
pub mod macro_tokens;
pub mod manager;
pub mod naming;
pub mod operation;
pub mod operation_builder;
pub mod primary_key;
pub mod queries;
pub mod register_types;
pub mod text;
pub mod tokens;
pub mod types;
