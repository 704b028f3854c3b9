//! The entries of the register where Canyon tracks the user types it manages: the
//! identifiers of each entity, needed to compare it against the database schemas.
use vstd::prelude::*;

use crate::text::{ascii_upper, contains, seq_contains, seq_starts_with, starts_with, str_eq};

verus! {

/// The Rust types a primary key may have to be generated by the database.
pub const NUMERIC_PK_DATATYPE: [&'static str; 6] = ["i16", "u16", "i32", "u32", "i64", "u64"];

/// `ty` is the text of one of the numeric primary key types.
pub open spec fn is_numeric_pk_type(ty: Seq<char>) -> bool {
    ||| ty == "i16"@
    ||| ty == "u16"@
    ||| ty == "i32"@
    ||| ty == "u32"@
    ||| ty == "i64"@
    ||| ty == "u64"@
}

/// The prefix of the text of a primary key annotation.
pub open spec fn pk_annotation_prefix() -> Seq<char> {
    "Annotation: PrimaryKey"@
}

/// Gets the necessary identifiers of a CanyonEntity to make it the comparative against the
/// database schemas.
#[derive(Debug, Clone, Default)]
pub struct CanyonRegisterEntity<'a> {
    pub entity_name: &'a str,
    pub entity_db_table_name: &'a str,
    pub user_schema_name: Option<&'a str>,
    pub entity_fields: Vec<CanyonRegisterEntityField>,
}

/// Complementary type for a field that represents a struct field that maps some real
/// database column data.
#[derive(Debug, Clone, Default)]
pub struct CanyonRegisterEntityField {
    pub field_name: String,
    pub field_type: String,
    pub annotations: Vec<String>,
}

/// Position `i` holds the first annotation of `anns` that is a primary key annotation.
pub open spec fn is_first_pk_annotation(anns: Seq<String>, i: int) -> bool {
    &&& 0 <= i < anns.len()
    &&& seq_starts_with(anns[i]@, pk_annotation_prefix())
    &&& forall|j: int| 0 <= j < i ==> !seq_starts_with(#[trigger] anns[j]@, pk_annotation_prefix())
}

/// A field is autoincremental when its type is numeric and its first primary key
/// annotation mentions `true`.
pub open spec fn spec_is_autoincremental(f: CanyonRegisterEntityField) -> bool {
    &&& is_numeric_pk_type(f.field_type@)
    &&& exists|i: int|
        is_first_pk_annotation(f.annotations@, i) && seq_contains(
            #[trigger] f.annotations@[i]@,
            "true"@,
        )
}

/// The Unicode uppercase form of a text, as `str::to_uppercase` computes it.
pub uninterp spec fn uppercase_of(s: Seq<char>) -> Seq<char>;

/// Every character of `s` is ASCII.
pub open spec fn is_ascii_text(s: Seq<char>) -> bool {
    forall|i: int| 0 <= i < s.len() ==> (#[trigger] s[i] as u32) < 128
}

/// The ASCII uppercase form of a text: each ASCII lowercase letter uppercased.
pub open spec fn ascii_uppercase(s: Seq<char>) -> Seq<char> {
    s.map_values(|c: char| ascii_upper(c))
}

/// `str::to_uppercase`: the contract names the result `uppercase_of`, and states it for
/// ASCII texts, where the Unicode uppercase mapping uppercases the letters `a..=z` and
/// keeps every other character. The mapping of other characters is not stated.
#[verifier::external_body]
fn to_uppercase(s: &str) -> (r: String)
    ensures
        r@ == uppercase_of(s@),
        is_ascii_text(s@) ==> r@ == ascii_uppercase(s@),
{
    s.to_uppercase()
}

/// Whether `ty` is one of the numeric primary key types.
pub fn is_numeric_pk_datatype(ty: &str) -> (r: bool)
    ensures
        r == is_numeric_pk_type(ty@),
{
    let mut i: usize = 0;
    while i < 6
        invariant
            i <= 6,
            forall|j: int| 0 <= j < i ==> NUMERIC_PK_DATATYPE@[j]@ != ty@,
        decreases 6 - i,
    {
        if str_eq(NUMERIC_PK_DATATYPE[i], ty) {
            return true;
        }
        i = i + 1;
    }
    false
}

impl CanyonRegisterEntityField {
    /// Return if the field is autoincremental
    pub fn is_autoincremental(&self) -> (r: bool)
        ensures
            r == spec_is_autoincremental(*self),
    {
        let n = self.annotations.len();
        let mut i: usize = 0;
        while i < n
            invariant
                n == self.annotations@.len(),
                i <= n,
                forall|j: int|
                    0 <= j < i ==> !seq_starts_with(
                        #[trigger] self.annotations@[j]@,
                        pk_annotation_prefix(),
                    ),
            decreases n - i,
        {
            if starts_with(self.annotations[i].as_str(), "Annotation: PrimaryKey") {
                let pk_is_autoincremental = contains(self.annotations[i].as_str(), "true");
                assert(is_first_pk_annotation(self.annotations@, i as int));
                let numeric = is_numeric_pk_datatype(self.field_type.as_str());
                proof {
                    if numeric && !pk_is_autoincremental {
                        assert forall|k: int|
                            is_first_pk_annotation(self.annotations@, k) implies !seq_contains(
                            #[trigger] self.annotations@[k]@,
                            "true"@,
                        ) by {
                            if k < i {
                                assert(!seq_starts_with(self.annotations@[k]@, pk_annotation_prefix()));
                            }
                            if k > i {
                                assert(!seq_starts_with(self.annotations@[i as int]@, pk_annotation_prefix()));
                            }
                        }
                    }
                }
                return numeric && pk_is_autoincremental;
            }
            i = i + 1;
        }
        false
    }

    /// Return the nullability of the field: whether its type, uppercased, starts with
    /// `OPTION`.
    pub fn is_nullable(&self) -> (r: bool)
        ensures
            r == seq_starts_with(uppercase_of(self.field_type@), "OPTION"@),
            is_ascii_text(self.field_type@) ==> r == seq_starts_with(
                ascii_uppercase(self.field_type@),
                "OPTION"@,
            ),
    {
        let upper = to_uppercase(self.field_type.as_str());
        starts_with(upper.as_str(), "OPTION")
    }
}

} // verus!
