//! Randomness: fresh identifiers for nonces and subscription references.

use uuid::Uuid;
use vstd::prelude::*;

verus! {

/// A fresh random identifier, as its sixteen bytes and as its text.
///
/// Trusted: `uuid::Uuid::new_v4`, with `Uuid::as_bytes` and the
/// identifier's `Display` form. The contract gives the number of bytes and
/// claims nothing of their content or of the text.
#[verifier::external_body]
pub(crate) fn random_uuid() -> (id: (Vec<u8>, String))
    ensures
        id.0@.len() == 16,
{
    let id = Uuid::new_v4();
    (id.as_bytes().to_vec(), id.to_string())
}

} // verus!
