//! Canonical form of version identifiers: lower case, `version-` prefix.

use vstd::prelude::*;

use crate::text::{has_prefix, starts_with};

verus! {

/// The lower-case form of a character sequence, as `str::to_lowercase` gives
/// it: each character by its Unicode lower-case mapping.
pub uninterp spec fn lower_of(s: Seq<char>) -> Seq<char>;

/// The prefix that every canonical version identifier carries.
pub open spec fn version_prefix() -> Seq<char> {
    seq!['v', 'e', 'r', 's', 'i', 'o', 'n', '-']
}

/// The canonical form of a raw version token.
pub open spec fn normalized(raw: Seq<char>) -> Seq<char> {
    let low = lower_of(raw);
    if has_prefix(low, version_prefix()) {
        low
    } else {
        version_prefix() + low
    }
}

/// Relies on `str::to_lowercase`: the lower-case form of `s`, which depends
/// on its characters alone.
#[verifier::external_body]
fn to_lower(s: &str) -> (r: String)
    ensures
        r@ == lower_of(s@),
{
    s.to_lowercase()
}

fn version_prefix_str() -> (r: &'static str)
    ensures
        r@ == version_prefix(),
{
    proof {
        reveal_strlit("version-");
    }
    "version-"
}

/// Lower-cases `raw` and puts `version-` in front of it unless it is there.
pub fn normalize_version(raw: &str) -> (r: String)
    ensures
        r@ == normalized(raw@),
{
    let low = to_lower(raw);
    let prefix = version_prefix_str();
    if starts_with(low.as_str(), prefix) {
        low
    } else {
        String::from_str(prefix).concat(low.as_str())
    }
}

/// Normalizing an identifier that is already in canonical form (lower case,
/// with the prefix) gives it back unchanged.
pub proof fn lemma_normalize_idempotent(id: Seq<char>)
    requires
        lower_of(id) == id,
        has_prefix(id, version_prefix()),
    ensures
        normalized(id) == id,
{
}

/// Every normalized identifier carries the prefix; when lower-casing leaves
/// it as it is, normalizing it again changes nothing.
pub proof fn lemma_normalized_is_fixed_point(raw: Seq<char>)
    requires
        lower_of(normalized(raw)) == normalized(raw),
    ensures
        has_prefix(normalized(raw), version_prefix()),
        normalized(normalized(raw)) == normalized(raw),
{
    let low = lower_of(raw);
    let n = normalized(raw);
    if !has_prefix(low, version_prefix()) {
        assert(n.subrange(0, 8) =~= version_prefix());
    }
}

} // verus!
