//! Naming conventions between Rust entity types and database tables.
//!
//! An entity `MajorLeague` maps by default to the table `major_league`; a snake_case table
//! name such as `team_members` maps back to the type `TeamMembers`.
use vstd::prelude::*;

use crate::error::{err_view, macro_error, ErrorSpan, MacroError};
use crate::text::{
    ascii_lower, ascii_upper, is_ascii_alnum, is_ascii_alpha, is_ascii_lower, is_ascii_upper, push_char, push_str,
    string_of, to_ascii_lowercase, to_ascii_uppercase,
};
use crate::tokens::{ident_parse_accepts, ident_text, is_ascii_type_name, parse_ident};

verus! {

/// What a character after the first one becomes in a default table name: an uppercase
/// ASCII letter turns into `_` and its lowercase form, anything else stays.
pub open spec fn snake_piece(c: char) -> Seq<char> {
    if is_ascii_upper(c) {
        seq!['_', ascii_lower(c)]
    } else {
        seq![c]
    }
}

/// The characters after the first one, each replaced by its `snake_piece`.
pub open spec fn snake_tail(s: Seq<char>) -> Seq<char>
    decreases s.len(),
{
    if s.len() == 0 {
        Seq::empty()
    } else {
        snake_tail(s.drop_last()) + snake_piece(s.last())
    }
}

/// The default table name of an entity type name: its first character in ASCII lowercase,
/// then every later uppercase ASCII letter preceded by an underscore and lowercased.
pub open spec fn default_table_name(ty: Seq<char>) -> Seq<char> {
    if ty.len() == 0 {
        Seq::empty()
    } else {
        seq![ascii_lower(ty[0])] + snake_tail(ty.subrange(1, ty.len() as int))
    }
}

/// Autogenerates a default table name for an entity given its struct name.
pub fn default_database_table_name_from_entity_name(ty: &str) -> (r: String)
    ensures
        r@ == default_table_name(ty@),
{
    let n = ty.unicode_len();
    let mut table_name = String::new();
    if n == 0 {
        return table_name;
    }
    push_char(&mut table_name, to_ascii_lowercase(ty.get_char(0)));
    let mut i: usize = 1;
    while i < n
        invariant
            n == ty@.len(),
            1 <= i <= n,
            table_name@ == seq![ascii_lower(ty@[0])] + snake_tail(ty@.subrange(1, i as int)),
        decreases n - i,
    {
        let c = ty.get_char(i);
        if 'A' <= c && c <= 'Z' {
            push_char(&mut table_name, '_');
            push_char(&mut table_name, to_ascii_lowercase(c));
        } else {
            push_char(&mut table_name, c);
        }
        assert(ty@.subrange(1, i + 1).drop_last() == ty@.subrange(1, i as int));
        i = i + 1;
    }
    table_name
}

/// Position `j` of `s` is well placed in a snake_case table name: the first character of
/// the name and every character right after an underscore is an ASCII letter, every other
/// character is an ASCII letter, digit or underscore.
pub open spec fn table_char_ok(s: Seq<char>, j: int) -> bool {
    if j == 0 || s[j - 1] == '_' {
        is_ascii_alpha(s[j])
    } else {
        s[j] == '_' || is_ascii_alnum(s[j])
    }
}

/// `s` is a snake_case table name: non-empty segments of ASCII letters and digits, each
/// starting with a letter, joined by single underscores.
pub open spec fn is_valid_table_name(s: Seq<char>) -> bool {
    &&& s.len() > 0
    &&& s.last() != '_'
    &&& forall|j: int| 0 <= j < s.len() ==> #[trigger] table_char_ok(s, j)
}

/// What position `j` of a table name contributes to its type name: nothing for an
/// underscore, the ASCII uppercase form for the first character of a segment, the
/// character itself otherwise.
pub open spec fn pascal_piece(s: Seq<char>, j: int) -> Seq<char> {
    if s[j] == '_' {
        Seq::empty()
    } else if j == 0 || s[j - 1] == '_' {
        seq![ascii_upper(s[j])]
    } else {
        seq![s[j]]
    }
}

/// The type name built from the first `n` characters of a table name.
pub open spec fn pascal_prefix(s: Seq<char>, n: nat) -> Seq<char>
    decreases n,
{
    if n == 0 {
        Seq::empty()
    } else {
        pascal_prefix(s, (n - 1) as nat) + pascal_piece(s, n - 1)
    }
}

/// The PascalCase type name of a snake_case table name.
pub open spec fn struct_name_of(s: Seq<char>) -> Seq<char> {
    pascal_prefix(s, s.len())
}

/// The text of the diagnostic for a table name that cannot name a type.
pub open spec fn invalid_table_message(name: Seq<char>) -> Seq<char> {
    "invalid database table name `"@ + name
        + "`: expected snake_case ASCII letters and digits"@
}

/// Converts a snake_case table name into the text of its PascalCase type name, or `None`
/// when the name is not snake_case ASCII letters and digits.
pub fn table_name_to_struct_name(name: &str) -> (r: Option<String>)
    ensures
        r is Some <==> is_valid_table_name(name@),
        r matches Some(s) ==> s@ == struct_name_of(name@),
{
    let n = name.unicode_len();
    if n == 0 {
        return None;
    }
    let mut struct_name = String::new();
    let mut prev_underscore = true;
    let mut i: usize = 0;
    while i < n
        invariant
            n == name@.len(),
            i <= n,
            prev_underscore == (i == 0 || name@[i - 1] == '_'),
            struct_name@ == pascal_prefix(name@, i as nat),
            forall|j: int| 0 <= j < i ==> #[trigger] table_char_ok(name@, j),
        decreases n - i,
    {
        let c = name.get_char(i);
        let is_alpha = ('a' <= c && c <= 'z') || ('A' <= c && c <= 'Z');
        let is_digit = '0' <= c && c <= '9';
        if prev_underscore {
            if !is_alpha {
                assert(!table_char_ok(name@, i as int));
                return None;
            }
            push_char(&mut struct_name, to_ascii_uppercase(c));
        } else {
            if !(c == '_' || is_alpha || is_digit) {
                assert(!table_char_ok(name@, i as int));
                return None;
            }
            if c != '_' {
                push_char(&mut struct_name, c);
            }
        }
        prev_underscore = c == '_';
        i = i + 1;
    }
    if prev_underscore {
        return None;
    }
    Some(struct_name)
}

/// The diagnostic for a table name that cannot name a type.
pub fn invalid_table_name(name: &str) -> (r: MacroError)
    ensures
        r@ == err_view(ErrorSpan::CallSite, invalid_table_message(name@)),
{
    let mut message = string_of("invalid database table name `");
    push_str(&mut message, name);
    push_str(&mut message, "`: expected snake_case ASCII letters and digits");
    macro_error(ErrorSpan::CallSite, message)
}

/// Converts a snake-case database table name into its Rust type identifier.
///
/// Invalid names, and names whose type name `syn` refuses as an identifier (such as a
/// keyword), give a diagnostic instead of a panic.
pub fn database_table_name_to_struct_ident(name: &str) -> (r: Result<
    proc_macro2::Ident,
    MacroError,
>)
    ensures
        r is Ok <==> is_valid_table_name(name@) && ident_parse_accepts(struct_name_of(name@)),
        is_valid_table_name(name@) && struct_name_of(name@) != "Self"@ ==> r is Ok,
        r matches Ok(i) ==> ident_text(i) == struct_name_of(name@),
        r matches Err(e) ==> e@ == err_view(ErrorSpan::CallSite, invalid_table_message(name@)),
{
    proof {
        if is_valid_table_name(name@) {
            lemma_struct_name_is_type_name(name@, name@.len());
        }
    }
    match table_name_to_struct_name(name) {
        None => Err(invalid_table_name(name)),
        Some(struct_name) => match parse_ident(struct_name.as_str()) {
            Some(ident) => Ok(ident),
            None => Err(invalid_table_name(name)),
        },
    }
}

/// `s` is a PascalCase type name: an ASCII uppercase letter followed by ASCII letters and
/// digits.
pub open spec fn is_pascal_case(s: Seq<char>) -> bool {
    &&& s.len() > 0
    &&& is_ascii_upper(s[0])
    &&& forall|j: int| 0 <= j < s.len() ==> is_ascii_alnum(#[trigger] s[j])
}

/// `s` holds no uppercase ASCII letter.
pub open spec fn has_no_ascii_upper(s: Seq<char>) -> bool {
    forall|j: int| 0 <= j < s.len() ==> !is_ascii_upper(#[trigger] s[j])
}

proof fn lemma_case_round_trips(c: char)
    ensures
        is_ascii_upper(c) ==> is_ascii_lower(ascii_lower(c)) && ascii_upper(ascii_lower(c)) == c,
        is_ascii_lower(c) ==> is_ascii_upper(ascii_upper(c)) && ascii_lower(ascii_upper(c)) == c,
        !is_ascii_upper(c) ==> ascii_lower(c) == c,
{
}

/// The type name of a prefix of a table name only reads that prefix.
proof fn lemma_pascal_prefix_local(a: Seq<char>, b: Seq<char>, n: nat)
    requires
        n <= a.len(),
    ensures
        pascal_prefix(a + b, n) == pascal_prefix(a, n),
    decreases n,
{
    if n > 0 {
        lemma_pascal_prefix_local(a, b, (n - 1) as nat);
        if n >= 2 {
        }
    }
}

/// Appending a character to a non-empty type name appends its snake piece to the table
/// name.
proof fn lemma_default_table_name_push(a: Seq<char>, c: char)
    requires
        a.len() > 0,
    ensures
        default_table_name(a.push(c)) == default_table_name(a) + snake_piece(c),
{
    let t = a.push(c).subrange(1, a.len() as int + 1);
    assert(t.drop_last() =~= a.subrange(1, a.len() as int));
}

/// The default table name of a PascalCase prefix of length `k`: valid, its type name is the
/// prefix again, and it does not end with an underscore.
proof fn lemma_pascal_round_trip_prefix(s: Seq<char>, k: nat)
    requires
        is_pascal_case(s),
        1 <= k <= s.len(),
    ensures
        ({
            let d = default_table_name(s.subrange(0, k as int));
            &&& d.len() > 0
            &&& d.last() != '_'
            &&& forall|j: int| 0 <= j < d.len() ==> #[trigger] table_char_ok(d, j)
            &&& struct_name_of(d) == s.subrange(0, k as int)
        }),
    decreases k,
{
    let p = s.subrange(0, k as int);
    let d = default_table_name(p);
    if k == 1 {
        lemma_case_round_trips(s[0]);
        assert(pascal_prefix(d, 1) == pascal_prefix(d, 0) + pascal_piece(d, 0));
        assert forall|j: int| 0 <= j < d.len() implies #[trigger] table_char_ok(d, j) by {}
    } else {
        lemma_pascal_round_trip_prefix(s, (k - 1) as nat);
        let q = s.subrange(0, k - 1);
        let dq = default_table_name(q);
        let c = s[k - 1];
        assert(p =~= q.push(c));
        lemma_default_table_name_push(q, c);
        let m: int = dq.len() as int;
        lemma_case_round_trips(c);
        lemma_pascal_prefix_local(dq, snake_piece(c), m as nat);
        assert forall|j: int| 0 <= j < m implies #[trigger] table_char_ok(d, j) by {
            assert(table_char_ok(dq, j));
        }
        if is_ascii_upper(c) {
            assert forall|j: int| 0 <= j < d.len() implies #[trigger] table_char_ok(d, j) by {}
            assert(pascal_prefix(d, (m + 2) as nat) == pascal_prefix(d, (m + 1) as nat)
                + pascal_piece(d, m + 1));
        } else {
            assert forall|j: int| 0 <= j < d.len() implies #[trigger] table_char_ok(d, j) by {}
        }
    }
}

/// A PascalCase type name maps to a valid snake_case table name whose type name is the
/// type name again.
pub proof fn law_table_name_round_trip(s: Seq<char>)
    requires
        is_pascal_case(s),
    ensures
        is_valid_table_name(default_table_name(s)),
        struct_name_of(default_table_name(s)) == s,
{
    lemma_pascal_round_trip_prefix(s, s.len());
    assert(s.subrange(0, s.len() as int) =~= s);
}

/// The first `k` characters of a table name, without a final underscore.
pub open spec fn without_trailing_underscore(n: Seq<char>, k: int) -> Seq<char> {
    if n[k - 1] == '_' {
        n.subrange(0, k - 1)
    } else {
        n.subrange(0, k)
    }
}

/// The default table name of the type name of a prefix of a lowercase table name is the
/// prefix without a final underscore.
proof fn lemma_snake_round_trip_prefix(n: Seq<char>, k: nat)
    requires
        is_valid_table_name(n),
        has_no_ascii_upper(n),
        1 <= k <= n.len(),
    ensures
        pascal_prefix(n, k).len() > 0,
        default_table_name(pascal_prefix(n, k)) == without_trailing_underscore(n, k as int),
    decreases k,
{
    let c = n[k - 1];
    assert(table_char_ok(n, k - 1));
    lemma_case_round_trips(c);
    if k == 1 {
    } else {
        lemma_snake_round_trip_prefix(n, (k - 1) as nat);
        let pk = pascal_prefix(n, (k - 1) as nat);
        if c == '_' {
        } else if n[k - 2] == '_' {
            lemma_default_table_name_push(pk, ascii_upper(c));
        } else {
            assert(pascal_prefix(n, k) =~= pk.push(c));
            lemma_default_table_name_push(pk, c);
        }
    }
}

/// A snake_case table name of lowercase ASCII letters, digits and underscores maps to a
/// type name whose default table name is the table name again.
pub proof fn law_struct_name_round_trip(n: Seq<char>)
    requires
        is_valid_table_name(n),
        has_no_ascii_upper(n),
    ensures
        default_table_name(struct_name_of(n)) == n,
{
    lemma_snake_round_trip_prefix(n, n.len());
}

/// The type name built from a non-empty prefix of a valid table name starts with an
/// uppercase ASCII letter and holds only ASCII letters and digits.
proof fn lemma_struct_name_is_type_name(s: Seq<char>, k: nat)
    requires
        is_valid_table_name(s),
        1 <= k <= s.len(),
    ensures
        is_ascii_type_name(pascal_prefix(s, k)),
    decreases k,
{
    assert(table_char_ok(s, k - 1));
    let p = pascal_prefix(s, k);
    if k == 1 {
        assert(pascal_prefix(s, 1) == pascal_prefix(s, 0) + pascal_piece(s, 0));
        assert(p =~= seq![ascii_upper(s[0])]);
    } else {
        lemma_struct_name_is_type_name(s, (k - 1) as nat);
        let q = pascal_prefix(s, (k - 1) as nat);
        assert(p == q + pascal_piece(s, k - 1));
        assert(p[0] == q[0]);
        assert forall|i: int| 0 <= i < p.len() implies is_ascii_alnum(#[trigger] p[i]) by {
            if i >= q.len() {
                assert(p[i] == pascal_piece(s, k - 1)[i - q.len()]);
            } else {
                assert(p[i] == q[i]);
            }
        }
    }
}

} // verus!
