//! Small trusted shims: operations of std that vstd leaves unspecified,
//! and the order-id generator of the uuid crate.

use vstd::prelude::*;

verus! {

/// Relies on str's `PartialEq`: two string slices are equal exactly
/// when their character sequences are.
#[verifier::external_body]
pub fn str_eq(a: &str, b: &str) -> (r: bool)
    ensures
        r == (a@ == b@),
{
    a == b
}

/// Relies on uuid's `Uuid::new_v4` and its `Display` form: a fresh
/// random version-4 UUID rendered in the hyphenated format, which is
/// always 36 characters.  The value is random; nothing more is assumed
/// of it, so distinctness of ids is always a stated hypothesis, never a
/// proved fact.
#[verifier::external_body]
pub fn fresh_order_id() -> (r: String)
    ensures
        r@.len() == 36,
{
    uuid::Uuid::new_v4().to_string()
}

} // verus!
