//! The type-level attribute `#[canyon_crud(maps_to = Ident, primary_key = Ident, pk_type = Ident)]`.
use vstd::prelude::*;

use crate::attribute::IdentPair;
use crate::error::{err_view, macro_error, ErrorSpan, ErrorView, MacroError};
use crate::field_annotation::opt_view;
use crate::text::{push_str, str_eq, string_of};

verus! {

/// The arguments of `#[canyon_crud(...)]`.
///
/// The identifier given to `maps_to` names the type for which the CRUD operations write
/// their queries, as the implementor of the row mapper.
#[derive(Debug)]
pub struct CanyonCrudAttribute {
    pub maps_to: Option<String>,
    pub pk: Option<String>,
    pub pk_type: Option<String>,
}

/// The abstract content of a `#[canyon_crud]` attribute: `maps_to`, `primary_key`, `pk_type`.
pub type CrudView = (Option<Seq<char>>, Option<Seq<char>>, Option<Seq<char>>);

impl View for CanyonCrudAttribute {
    type V = CrudView;

    open spec fn view(&self) -> CrudView {
        (opt_view(self.maps_to), opt_view(self.pk), opt_view(self.pk_type))
    }
}

/// The diagnostic for a key that `#[canyon_crud]` does not know.
pub open spec fn unsupported_key_message(key: Seq<char>) -> Seq<char> {
    "Unsupported attribute key: `"@ + key + "`"@
}

/// The first `n` pairs read in order: each known key sets its slot (a later pair overrides
/// an earlier one), and the first unknown key is an error.
pub open spec fn crud_scan(pairs: Seq<IdentPair>, n: nat) -> Result<CrudView, ErrorView>
    decreases n,
{
    if n == 0 {
        Ok((None, None, None))
    } else {
        match crud_scan(pairs, (n - 1) as nat) {
            Err(e) => Err(e),
            Ok((m, p, t)) => {
                let pair = pairs[n - 1];
                if pair.name@ == "maps_to"@ {
                    Ok((Some(pair.value@), p, t))
                } else if pair.name@ == "primary_key"@ {
                    Ok((m, Some(pair.value@), t))
                } else if pair.name@ == "pk_type"@ {
                    Ok((m, p, Some(pair.value@)))
                } else {
                    Err(
                        err_view(
                            ErrorSpan::ArgumentKey((n - 1) as usize),
                            unsupported_key_message(pair.name@),
                        ),
                    )
                }
            },
        }
    }
}

/// What the arguments of `#[canyon_crud(...)]` give: the parser's own diagnostic when they
/// are no comma-separated `name = Ident` list, else the reading of the pairs.
pub open spec fn spec_crud_attribute(pairs: Result<Vec<IdentPair>, String>) -> Result<
    CrudView,
    ErrorView,
> {
    match pairs {
        Err(message) => Err(err_view(ErrorSpan::AttributeMeta, message@)),
        Ok(v) => crud_scan(v@, v@.len()),
    }
}

/// The view of a parse outcome.
pub open spec fn crud_outcome(r: Result<CanyonCrudAttribute, MacroError>) -> Result<
    CrudView,
    ErrorView,
> {
    match r {
        Ok(a) => Ok(a@),
        Err(e) => Err(e@),
    }
}

proof fn lemma_crud_scan_err(pairs: Seq<IdentPair>, k: nat, m: nat)
    requires
        k <= m,
        crud_scan(pairs, k) is Err,
    ensures
        crud_scan(pairs, m) == crud_scan(pairs, k),
    decreases m,
{
    if m > k {
        lemma_crud_scan_err(pairs, k, (m - 1) as nat);
    }
}

fn clone_string(s: &String) -> (r: String)
    ensures
        r@ == s@,
{
    s.clone()
}

impl CanyonCrudAttribute {
    /// Reads the arguments of `#[canyon_crud(...)]`.
    pub fn parse(pairs: &Result<Vec<IdentPair>, String>) -> (r: Result<CanyonCrudAttribute, MacroError>)
        ensures
            crud_outcome(r) == spec_crud_attribute(*pairs),
    {
        let list = match pairs {
            Err(message) => {
                return Err(macro_error(ErrorSpan::AttributeMeta, clone_string(message)));
            },
            Ok(v) => v,
        };
        let mut maps_to: Option<String> = None;
        let mut pk: Option<String> = None;
        let mut pk_type: Option<String> = None;
        let mut i: usize = 0;
        while i < list.len()
            invariant
                i <= list@.len(),
                spec_crud_attribute(*pairs) == crud_scan(list@, list@.len()),
                crud_scan(list@, i as nat) == Ok::<CrudView, ErrorView>(
                    (opt_view(maps_to), opt_view(pk), opt_view(pk_type)),
                ),
            decreases list@.len() - i,
        {
            let pair = &list[i];
            if str_eq(pair.name.as_str(), "maps_to") {
                maps_to = Some(clone_string(&pair.value));
            } else if str_eq(pair.name.as_str(), "primary_key") {
                pk = Some(clone_string(&pair.value));
            } else if str_eq(pair.name.as_str(), "pk_type") {
                pk_type = Some(clone_string(&pair.value));
            } else {
                let mut message = string_of("Unsupported attribute key: `");
                push_str(&mut message, pair.name.as_str());
                push_str(&mut message, "`");
                proof {
                    lemma_crud_scan_err(list@, (i + 1) as nat, list@.len());
                }
                return Err(macro_error(ErrorSpan::ArgumentKey(i), message));
            }
            i = i + 1;
        }
        Ok(CanyonCrudAttribute { maps_to, pk, pk_type })
    }
}

/// Two `#[canyon_crud]` pairs with different known keys read the same in either order:
/// each sets its own slot.
pub proof fn law_crud_pair_order(a: IdentPair, b: IdentPair)
    requires
        a.name@ == "maps_to"@ || a.name@ == "primary_key"@ || a.name@ == "pk_type"@,
        b.name@ == "maps_to"@ || b.name@ == "primary_key"@ || b.name@ == "pk_type"@,
        a.name@ != b.name@,
    ensures
        crud_scan(seq![a, b], 2) == crud_scan(seq![b, a], 2),
        crud_scan(seq![a, b], 2) is Ok,
{
    reveal_with_fuel(crud_scan, 3);
    reveal_strlit("maps_to");
    reveal_strlit("primary_key");
    reveal_strlit("pk_type");
    assert(seq![a, b][0] == a && seq![a, b][1] == b);
    assert(seq![b, a][0] == b && seq![b, a][1] == a);
}

} // verus!
