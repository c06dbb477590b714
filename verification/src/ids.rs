//! Fresh identifiers for events, frames and dead-letter keys.

use vstd::prelude::*;
use crate::events::spec_is_uuid_text;

verus! {

/// Relies on uuid's `Uuid::new_v4` and its `Display` impl: a random
/// version-4 UUID rendered in the hyphenated lower-case text form.
/// The value is random; only its shape is stated.
#[verifier::external_body]
pub fn new_uuid() -> (r: String)
    ensures
        spec_is_uuid_text(r@),
{
    uuid::Uuid::new_v4().to_string()
}

} // verus!
