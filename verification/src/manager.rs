//! The entity manager: the fields of a `#[canyon_entity]` struct and their foreign key
//! annotations, as the manager crate reads them.
use vstd::prelude::*;

use crate::attribute::{ArgValue, AttributeModel, FieldModel, NameValueArg};
use crate::error::{err_view, macro_error, ErrorSpan, ErrorView, MacroError};
use crate::text::{contains, push_str, seq_contains, str_eq, string_of};
use crate::types::TypeModel;

verus! {

/// The available annotations for a field that belongs to any struct annotated with
/// `#[canyon_entity]`.
#[derive(Debug, Clone)]
pub enum EntityFieldAnnotation {
    ForeignKey(String, String),
}

impl View for EntityFieldAnnotation {
    type V = (Seq<char>, Seq<char>);

    open spec fn view(&self) -> (Seq<char>, Seq<char>) {
        match self {
            EntityFieldAnnotation::ForeignKey(t, c) => (t@, c@),
        }
    }
}

/// The text of a foreign key annotation.
pub open spec fn foreign_key_text(table: Seq<char>, column: Seq<char>) -> Seq<char> {
    "Annotation: ForeignKey, Table: "@ + table + ", Column: "@ + column
}

/// The message for a non string value given to the argument `key`.
pub open spec fn only_strings_message(key: Seq<char>) -> Seq<char> {
    "Only string literals are supported for the `"@ + key + "` attribute"@
}

/// Every argument has a single identifier as its key.
pub open spec fn keys_are_idents(args: Seq<NameValueArg>) -> bool {
    forall|i: int| 0 <= i < args.len() ==> (#[trigger] args[i]).key is Some
}

/// The last `table` and `column` values among the first `n` arguments, or the diagnostic of
/// the first argument whose value is no string literal. Other keys are read and ignored.
pub open spec fn manager_foreign_key_scan(args: Seq<NameValueArg>, n: nat) -> Result<
    (Option<Seq<char>>, Option<Seq<char>>),
    ErrorView,
>
    decreases n,
{
    if n == 0 {
        Ok((None, None))
    } else {
        match manager_foreign_key_scan(args, (n - 1) as nat) {
            Err(e) => Err(e),
            Ok(acc) => {
                let arg = args[n - 1];
                let key = arg.key->0@;
                match arg.value {
                    ArgValue::Str(v) => if key == "table"@ {
                        Ok((Some(v@), acc.1))
                    } else if key == "column"@ {
                        Ok((acc.0, Some(v@)))
                    } else {
                        Ok(acc)
                    },
                    _ => Err(
                        err_view(ErrorSpan::ArgumentKey((n - 1) as usize), only_strings_message(key)),
                    ),
                }
            },
        }
    }
}

/// What a foreign key annotation's arguments mean.
pub open spec fn spec_manager_foreign_key(args: Result<Vec<NameValueArg>, String>) -> Result<
    (Seq<char>, Seq<char>),
    ErrorView,
> {
    match args {
        Err(_) => Err(err_view(ErrorSpan::AttributeIdent, "Error generating the Foreign Key"@)),
        Ok(v) => match manager_foreign_key_scan(v@, v@.len()) {
            Err(e) => Err(e),
            Ok((None, _)) => Err(
                err_view(
                    ErrorSpan::AttributeIdent,
                    "Missed `table` argument on the Foreign Key annotation"@,
                ),
            ),
            Ok((Some(_), None)) => Err(
                err_view(
                    ErrorSpan::AttributeIdent,
                    "Missed `column` argument on the Foreign Key annotation"@,
                ),
            ),
            Ok((Some(t), Some(c))) => Ok((t, c)),
        },
    }
}

/// The arguments of an attribute can be read without a key that is not an identifier.
pub open spec fn args_readable(args: Result<Vec<NameValueArg>, String>) -> bool {
    args matches Ok(v) ==> keys_are_idents(v@)
}

/// What a field attribute means to the manager: only `foreign_key` is known.
pub open spec fn spec_manager_annotation(attribute: AttributeModel) -> Result<
    (Seq<char>, Seq<char>),
    ErrorView,
> {
    let name = attribute.path.segments@[0]@;
    if name == "foreign_key"@ {
        spec_manager_foreign_key(attribute.args)
    } else {
        Err(err_view(ErrorSpan::AttributeIdent, "Unknown attribute `"@ + name + "`"@))
    }
}

/// The view of an annotation parse outcome.
pub open spec fn manager_outcome(r: Result<EntityFieldAnnotation, MacroError>) -> Result<
    (Seq<char>, Seq<char>),
    ErrorView,
> {
    match r {
        Ok(a) => Ok(a@),
        Err(e) => Err(e@),
    }
}

/// Once an argument is wrong, the reading stays at that argument's diagnostic.
proof fn lemma_manager_scan_err(args: Seq<NameValueArg>, k: nat, m: nat)
    requires
        k <= m,
        manager_foreign_key_scan(args, k) is Err,
    ensures
        manager_foreign_key_scan(args, m) == manager_foreign_key_scan(args, k),
    decreases m,
{
    if m > k {
        lemma_manager_scan_err(args, k, (m - 1) as nat);
    }
}

/// The view of an optional string.
pub open spec fn opt_text(o: Option<String>) -> Option<Seq<char>> {
    match o {
        Some(s) => Some(s@),
        None => None,
    }
}

impl EntityFieldAnnotation {
    /// Builds the annotation from the arguments of a `foreign_key` attribute.
    pub fn new(attr_args: &Result<Vec<NameValueArg>, String>) -> (r: Result<Self, MacroError>)
        requires
            args_readable(*attr_args),
        ensures
            manager_outcome(r) == spec_manager_foreign_key(*attr_args),
    {
        Self::foreign_key_parser(attr_args)
    }

    /// The annotation as text, for operations that require character matching.
    pub fn get_as_string(&self) -> (r: String)
        ensures
            r@ == foreign_key_text(self@.0, self@.1),
    {
        match self {
            EntityFieldAnnotation::ForeignKey(table, column) => {
                let mut s = string_of("Annotation: ForeignKey, Table: ");
                push_str(&mut s, table.as_str());
                push_str(&mut s, ", Column: ");
                push_str(&mut s, column.as_str());
                s
            },
        }
    }

    /// Reads the `table` and `column` arguments of a foreign key annotation; the last value
    /// given to each key wins.
    pub fn foreign_key_parser(attr_args: &Result<Vec<NameValueArg>, String>) -> (r: Result<
        Self,
        MacroError,
    >)
        requires
            args_readable(*attr_args),
        ensures
            manager_outcome(r) == spec_manager_foreign_key(*attr_args),
    {
        let list = match attr_args {
            Err(_) => return Err(
                macro_error(ErrorSpan::AttributeIdent, string_of("Error generating the Foreign Key")),
            ),
            Ok(v) => v,
        };
        let mut table: Option<String> = None;
        let mut column: Option<String> = None;
        let mut i: usize = 0;
        while i < list.len()
            invariant
                *attr_args == Ok::<Vec<NameValueArg>, String>(*list),
                keys_are_idents(list@),
                i <= list@.len(),
                manager_foreign_key_scan(list@, i as nat) == Ok::<
                    (Option<Seq<char>>, Option<Seq<char>>),
                    ErrorView,
                >((opt_text(table), opt_text(column))),
            decreases list@.len() - i,
        {
            let nv = &list[i];
            assert(nv.key is Some);
            let key = nv.key.as_ref().unwrap();
            match &nv.value {
                ArgValue::Str(v) => {
                    if str_eq(key.as_str(), "table") {
                        table = Some(string_of(v.as_str()));
                    } else if str_eq(key.as_str(), "column") {
                        column = Some(string_of(v.as_str()));
                    }
                },
                _ => {
                    let mut message = string_of("Only string literals are supported for the `");
                    push_str(&mut message, key.as_str());
                    push_str(&mut message, "` attribute");
                    proof {
                        lemma_manager_scan_err(list@, (i + 1) as nat, list@.len());
                    }
                    return Err(macro_error(ErrorSpan::ArgumentKey(i), message));
                },
            }
            i = i + 1;
        }
        match (table, column) {
            (None, _) => Err(
                macro_error(
                    ErrorSpan::AttributeIdent,
                    string_of("Missed `table` argument on the Foreign Key annotation"),
                ),
            ),
            (Some(_), None) => Err(
                macro_error(
                    ErrorSpan::AttributeIdent,
                    string_of("Missed `column` argument on the Foreign Key annotation"),
                ),
            ),
            (Some(t), Some(c)) => Ok(EntityFieldAnnotation::ForeignKey(t, c)),
        }
    }

    /// Reads a field attribute as an annotation.
    pub fn try_from(attribute: &AttributeModel) -> (r: Result<Self, MacroError>)
        requires
            attribute.path.segments@.len() > 0,
            args_readable(attribute.args),
        ensures
            manager_outcome(r) == spec_manager_annotation(*attribute),
    {
        let ident = &attribute.path.segments[0];
        if str_eq(ident.as_str(), "foreign_key") {
            EntityFieldAnnotation::new(&attribute.args)
        } else {
            let mut message = string_of("Unknown attribute `");
            push_str(&mut message, ident.as_str());
            push_str(&mut message, "`");
            Err(macro_error(ErrorSpan::AttributeIdent, message))
        }
    }
}

/// Represents any of the fields and annotations (if any valid annotation) found for a
/// CanyonEntity.
#[derive(Debug)]
pub struct EntityField {
    pub name: String,
    /// The field's type, as the text of its tokens.
    pub field_type: String,
    pub attribute: Option<EntityFieldAnnotation>,
}

/// The abstract content of an entity field: its name and its annotation.
pub struct EntityFieldView {
    pub name: Seq<char>,
    pub attribute: Option<(Seq<char>, Seq<char>)>,
}

impl View for EntityField {
    type V = EntityFieldView;

    open spec fn view(&self) -> EntityFieldView {
        EntityFieldView {
            name: self.name@,
            attribute: match self.attribute {
                Some(a) => Some(a@),
                None => None,
            },
        }
    }
}

/// Every attribute of the field can be read by the manager.
pub open spec fn attrs_readable(attrs: Seq<AttributeModel>) -> bool {
    forall|i: int|
        0 <= i < attrs.len() ==> (#[trigger] attrs[i]).path.segments@.len() > 0 && args_readable(
            attrs[i].args,
        )
}

/// What the manager makes of the field at position `index`: a field carries at most one
/// attribute, which must be a valid annotation.
pub open spec fn spec_entity_field(field: FieldModel, index: usize) -> Result<
    EntityFieldView,
    ErrorView,
> {
    match field.ident {
        None => Err(
            err_view(
                ErrorSpan::Field(index),
                "Expected a structure with named fields, unnamed field given"@,
            ),
        ),
        Some(name) => if field.attrs@.len() > 1 {
            Err(err_view(ErrorSpan::FieldName(index), "Field has more than one attribute"@))
        } else if field.attrs@.len() == 1 {
            match spec_manager_annotation(field.attrs@[0]) {
                Err(e) => Err(e),
                Ok(a) => Ok(EntityFieldView { name: name@, attribute: Some(a) }),
            }
        } else {
            Ok(EntityFieldView { name: name@, attribute: None })
        },
    }
}

/// The view of an entity field outcome.
pub open spec fn field_outcome(r: Result<EntityField, MacroError>) -> Result<
    EntityFieldView,
    ErrorView,
> {
    match r {
        Ok(f) => Ok(f@),
        Err(e) => Err(e@),
    }
}

impl EntityField {
    /// The field's type as text.
    pub fn get_field_type_as_string(&self) -> (r: String)
        ensures
            r@ == self.field_type@,
    {
        string_of(self.field_type.as_str())
    }

    /// Builds the field named `name`, at position `index`, from its attributes and type.
    pub fn new(name: &str, index: usize, raw_helper_attributes: &Vec<AttributeModel>, ty: &TypeModel) -> (r:
        Result<Self, MacroError>)
        requires
            attrs_readable(raw_helper_attributes@),
        ensures
            r matches Ok(f) ==> f.name@ == name@ && f.field_type@ == ty.text@,
            field_outcome(r) == (if raw_helper_attributes@.len() > 1 {
                Err(err_view(ErrorSpan::FieldName(index), "Field has more than one attribute"@))
            } else if raw_helper_attributes@.len() == 1 {
                match spec_manager_annotation(raw_helper_attributes@[0]) {
                    Err(e) => Err(e),
                    Ok(a) => Ok(EntityFieldView { name: name@, attribute: Some(a) }),
                }
            } else {
                Ok(EntityFieldView { name: name@, attribute: None })
            }),
    {
        let n = raw_helper_attributes.len();
        let attribute = if n == 1 {
            assert(raw_helper_attributes@[0].path.segments@.len() > 0);
            Some(EntityFieldAnnotation::try_from(&raw_helper_attributes[0])?)
        } else if n > 1 {
            return Err(
                macro_error(ErrorSpan::FieldName(index), string_of("Field has more than one attribute")),
            );
        } else {
            None
        };
        Ok(EntityField { name: string_of(name), field_type: string_of(ty.text.as_str()), attribute })
    }

    /// Builds the entity field for the struct field at position `index`.
    pub fn try_from(field: &FieldModel, index: usize) -> (r: Result<Self, MacroError>)
        requires
            attrs_readable(field.attrs@),
        ensures
            field_outcome(r) == spec_entity_field(*field, index),
            r matches Ok(f) ==> f.field_type@ == field.ty.text@,
    {
        match &field.ident {
            None => Err(
                macro_error(
                    ErrorSpan::Field(index),
                    string_of("Expected a structure with named fields, unnamed field given"),
                ),
            ),
            Some(name) => Self::new(name.as_str(), index, &field.attrs, &field.ty),
        }
    }
}

/// Provides a convenient way of handling the data on any `CanyonEntity` struct annotated
/// with the macro `#[canyon_entity]`.
#[derive(Debug)]
pub struct CanyonEntity {
    pub struct_name: String,
    pub attributes: Vec<EntityField>,
}

/// Every field's attributes can be read by the manager.
pub open spec fn fields_readable(fields: Seq<FieldModel>) -> bool {
    forall|i: int| 0 <= i < fields.len() ==> attrs_readable((#[trigger] fields[i]).attrs@)
}

impl CanyonEntity {
    /// Reads the entity named `struct_name` with these fields; the first field that cannot
    /// be read gives the diagnostic.
    pub fn parse(struct_name: &str, fields: &Vec<FieldModel>) -> (r: Result<Self, MacroError>)
        requires
            fields_readable(fields@),
            fields@.len() <= usize::MAX,
        ensures
            r is Ok <==> forall|j: int|
                0 <= j < fields@.len() ==> (#[trigger] spec_entity_field(fields@[j], j as usize)) is Ok,
            r matches Ok(e) ==> {
                &&& e.struct_name@ == struct_name@
                &&& e.attributes@.len() == fields@.len()
                &&& forall|j: int|
                    0 <= j < fields@.len() ==> spec_entity_field(fields@[j], j as usize) == Ok::<
                        EntityFieldView,
                        ErrorView,
                    >((#[trigger] e.attributes@[j])@)
                &&& forall|j: int|
                    0 <= j < fields@.len() ==> (#[trigger] e.attributes@[j]).field_type@
                        == fields@[j].ty.text@
            },
            r matches Err(err) ==> exists|k: int|
                0 <= k < fields@.len() && (forall|j: int|
                    0 <= j < k ==> (#[trigger] spec_entity_field(fields@[j], j as usize)) is Ok)
                    && spec_entity_field(fields@[k], k as usize) == Err::<EntityFieldView, ErrorView>(
                    err@,
                ),
    {
        let mut parsed_fields: Vec<EntityField> = Vec::new();
        let mut i: usize = 0;
        while i < fields.len()
            invariant
                fields_readable(fields@),
                i <= fields@.len(),
                parsed_fields@.len() == i,
                forall|j: int|
                    0 <= j < i ==> spec_entity_field(fields@[j], j as usize) == Ok::<
                        EntityFieldView,
                        ErrorView,
                    >((#[trigger] parsed_fields@[j])@),
                forall|j: int|
                    0 <= j < i ==> (#[trigger] parsed_fields@[j]).field_type@ == fields@[j].ty.text@,
            decreases fields@.len() - i,
        {
            assert(attrs_readable(fields@[i as int].attrs@));
            match EntityField::try_from(&fields[i], i) {
                Ok(f) => {
                    parsed_fields.push(f);
                },
                Err(e) => {
                    assert(forall|j: int|
                        0 <= j < i ==> (#[trigger] spec_entity_field(fields@[j], j as usize)) is Ok)
                        by {
                        assert forall|j: int| 0 <= j < i implies (#[trigger] spec_entity_field(
                            fields@[j],
                            j as usize,
                        )) is Ok by {
                            assert(spec_entity_field(fields@[j], j as usize) == Ok::<
                                EntityFieldView,
                                ErrorView,
                            >(parsed_fields@[j]@));
                        }
                    }
                    assert(spec_entity_field(fields@[i as int], (i as int) as usize) is Err);
                    return Err(e);
                },
            }
            i = i + 1;
        }
        assert forall|j: int| 0 <= j < fields@.len() implies (#[trigger] spec_entity_field(
            fields@[j],
            j as usize,
        )) is Ok by {
            assert(spec_entity_field(fields@[j], j as usize) == Ok::<EntityFieldView, ErrorView>(
                parsed_fields@[j]@,
            ));
        }
        Ok(CanyonEntity { struct_name: string_of(struct_name), attributes: parsed_fields })
    }
}

/// The message reported for a field: whether it carries a foreign key annotation.
pub open spec fn field_attr_message(field: Seq<char>, entity: Seq<char>, has_fk: bool) -> Seq<char> {
    if has_fk {
        "Annotation ForeignKey found in field: "@ + field + " for "@ + entity + " entity"@
    } else {
        "No annotation found for field: "@ + field + " in "@ + entity + " entity"@
    }
}

impl EntityField {
    /// Whether the field's type text mentions `Option`, so that its value is unwrapped
    /// before it is written.
    pub fn type_mentions_option(&self) -> (r: bool)
        ensures
            r == seq_contains(self.field_type@, "Option"@),
    {
        contains(self.get_field_type_as_string().as_str(), "Option")
    }
}

impl CanyonEntity {
    /// The name of the enum of the entity's field names: the struct's name followed by
    /// `Fields`.
    pub fn fields_enum_name(&self) -> (r: String)
        ensures
            r@ == self.struct_name@ + "Fields"@,
    {
        let mut s = string_of(self.struct_name.as_str());
        push_str(&mut s, "Fields");
        s
    }

    /// One message per field, in order, saying whether it carries a foreign key annotation.
    pub fn field_attr_messages(&self) -> (r: Vec<String>)
        ensures
            r@.len() == self.attributes@.len(),
            forall|i: int|
                0 <= i < r@.len() ==> (#[trigger] r@[i])@ == field_attr_message(
                    self.attributes@[i].name@,
                    self.struct_name@,
                    self.attributes@[i].attribute is Some,
                ),
    {
        let mut out: Vec<String> = Vec::new();
        let mut i: usize = 0;
        while i < self.attributes.len()
            invariant
                i <= self.attributes@.len(),
                out@.len() == i,
                forall|k: int|
                    0 <= k < i ==> (#[trigger] out@[k])@ == field_attr_message(
                        self.attributes@[k].name@,
                        self.struct_name@,
                        self.attributes@[k].attribute is Some,
                    ),
            decreases self.attributes@.len() - i,
        {
            let field = &self.attributes[i];
            let message = match &field.attribute {
                Some(EntityFieldAnnotation::ForeignKey(_, _)) => {
                    let mut m = string_of("Annotation ForeignKey found in field: ");
                    push_str(&mut m, field.name.as_str());
                    push_str(&mut m, " for ");
                    push_str(&mut m, self.struct_name.as_str());
                    push_str(&mut m, " entity");
                    m
                },
                None => {
                    let mut m = string_of("No annotation found for field: ");
                    push_str(&mut m, field.name.as_str());
                    push_str(&mut m, " in ");
                    push_str(&mut m, self.struct_name.as_str());
                    push_str(&mut m, " entity");
                    m
                },
            };
            out.push(message);
            i = i + 1;
        }
        out
    }
}

} // verus!
