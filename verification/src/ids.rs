//! Fresh identifiers for tabs.

use vstd::prelude::*;

verus! {

/// A lower-case hexadecimal digit.
pub open spec fn is_lower_hex(c: char) -> bool {
    ('0' <= c && c <= '9') || ('a' <= c && c <= 'f')
}

/// The shape of a tab id: 32 lower-case hexadecimal digits.
pub open spec fn is_tab_id(s: Seq<char>) -> bool {
    s.len() == 32 && forall|i: int| 0 <= i < 32 ==> is_lower_hex(#[trigger] s[i])
}

/// Calls `uuid::Uuid::new_v4` and writes the random UUID in its `simple` form (lower-case
/// hexadecimal, no hyphens).  Trusted: the contract claims only that form, which the `uuid`
/// crate's formatter gives; the value itself is random, so nothing else about it is stated.
#[verifier::external_body]
pub(crate) fn random_tab_id() -> (id: String)
    ensures
        is_tab_id(id@),
{
    uuid::Uuid::new_v4().simple().to_string()
}

} // verus!
