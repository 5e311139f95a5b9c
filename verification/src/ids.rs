//! Identifiers of new rows.

use vstd::prelude::*;

verus! {

/// A fresh random identifier for a new row.
///
/// Trusted: calls `uuid::Uuid::new_v4` and renders the result with
/// `to_string`. The value is random, so nothing is claimed of it.
#[verifier::external_body]
pub(crate) fn new_id() -> (id: String) {
    uuid::Uuid::new_v4().to_string()
}

} // verus!
