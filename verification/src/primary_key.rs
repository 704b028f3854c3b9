//! The field of a struct annotated with `#[primary_key]`, with its position.
use vstd::prelude::*;

use crate::attribute::FieldModel;
use crate::text::{push_str, string_of};
use crate::types::TypeModel;

verus! {

/// The position of the field that carries the `#[primary_key]` annotation among the
/// struct's fields.
#[derive(Debug, Clone, Copy, PartialEq, Eq, Structural)]
pub struct PrimaryKeyIndex(pub usize);

impl From<PrimaryKeyIndex> for usize {
    fn from(pk: PrimaryKeyIndex) -> (r: usize) {
        pk.0
    }
}

impl vstd::std_specs::convert::FromSpecImpl<PrimaryKeyIndex> for usize {
    open spec fn obeys_from_spec() -> bool {
        true
    }

    open spec fn from_spec(v: PrimaryKeyIndex) -> usize {
        v.0
    }
}

/// The primary key field: its identifier, its type, its name as a column, and its position.
#[derive(Debug)]
pub struct PrimaryKeyAttribute<'a> {
    pub ident: &'a String,
    pub ty: &'a TypeModel,
    pub name: String,
    pub index: PrimaryKeyIndex,
}

/// The text that describes a primary key field: `ident:<ident>,ty:<type>,name:<name>`.
pub open spec fn primary_key_text(ident: Seq<char>, ty: Seq<char>, name: Seq<char>) -> Seq<char> {
    "ident:"@ + ident + ",ty:"@ + ty + ",name:"@ + name
}

impl<'a> PrimaryKeyAttribute<'a> {
    /// The primary key field at position `index`, which must have a name.
    pub fn from(value: (PrimaryKeyIndex, &'a FieldModel)) -> (r: PrimaryKeyAttribute<'a>)
        requires
            value.1.ident is Some,
        ensures
            r.ident@ == value.1.ident->Some_0@,
            r.ty == &value.1.ty,
            r.name@ == value.1.ident->Some_0@,
            r.index == value.0,
    {
        let field = value.1;
        let ident = field.ident.as_ref().unwrap();
        PrimaryKeyAttribute { ident, ty: &field.ty, name: ident.clone(), index: value.0 }
    }

    /// The description `ident:<ident>,ty:<type tokens>,name:<name>`.
    pub fn to_string(&self) -> (r: String)
        ensures
            r@ == primary_key_text(self.ident@, self.ty.text@, self.name@),
    {
        let mut s = string_of("ident:");
        push_str(&mut s, self.ident.as_str());
        push_str(&mut s, ",ty:");
        push_str(&mut s, self.ty.text.as_str());
        push_str(&mut s, ",name:");
        push_str(&mut s, self.name.as_str());
        s
    }
}

} // verus!
