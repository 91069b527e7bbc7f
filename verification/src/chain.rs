//! Chain identifiers.
//!
//! A chain is named by a CAIP-2 string (`namespace:reference`, for instance
//! `eip155:1`). Routing compares identifiers in their normalized, lower-cased
//! form only, so that `EIP155:1` and `eip155:1` name the same chain.

use vstd::prelude::*;

verus! {

/// The lower-cased form of a string, as `str::to_lowercase` of the standard
/// library computes it (the Unicode `Lowercase` mapping).
pub uninterp spec fn lowercase(s: Seq<char>) -> Seq<char>;

/// Trusted: calls `str::to_lowercase`. The contract only gives the result its
/// name, [`lowercase`]; nothing is claimed about which characters change.
#[verifier::external_body]
pub(crate) fn to_lowercase(s: &str) -> (r: String)
    ensures
        r@ == lowercase(s@),
{
    s.to_lowercase()
}

/// Whether two raw identifiers name the same chain.
pub open spec fn same_chain(a: Seq<char>, b: Seq<char>) -> bool {
    lowercase(a) == lowercase(b)
}

/// Normalizes a raw chain identifier into the form used as routing key.
pub fn normalize_chain_id(chain_id: &str) -> (normalized: String)
    ensures
        normalized@ == lowercase(chain_id@),
{
    to_lowercase(chain_id)
}

/// Whether two raw identifiers name the same chain, compared case-insensitively.
pub fn chain_ids_match(a: &str, b: &str) -> (same: bool)
    ensures
        same == same_chain(a@, b@),
{
    let left = to_lowercase(a);
    let right = to_lowercase(b);
    left == right
}

} // verus!
