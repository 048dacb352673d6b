//! Addresses of remote services.
use crate::text;
use vstd::prelude::*;

verus! {

/// The address with a scheme: the one it has, or plain HTTP.
pub open spec fn normalized(raw: Seq<char>) -> Seq<char> {
    if text::has_prefix(raw, "http://"@) || text::has_prefix(raw, "https://"@) {
        raw
    } else {
        "http://"@ + raw
    }
}

/// Gives an address a scheme where it has none.
pub fn normalize_endpoint(raw: &str) -> (r: String)
    ensures
        r@ == normalized(raw@),
{
    if text::starts_with(raw, "http://") || text::starts_with(raw, "https://") {
        raw.to_owned()
    } else {
        text::cat2("http://", raw)
    }
}

/// An address that has been given a scheme keeps it.
pub proof fn law_normalized_is_stable(raw: Seq<char>)
    ensures
        normalized(normalized(raw)) == normalized(raw),
{
    let with_scheme = "http://"@ + raw;
    assert(with_scheme.subrange(0, "http://"@.len() as int) =~= "http://"@);
}

} // verus!
