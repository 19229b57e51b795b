//! Fresh identifiers.

use vstd::prelude::*;

verus! {

/// Calls `uuid::Uuid::new_v4` and writes the result with hyphens. The identifier rests on chance;
/// all that is claimed is that it has 36 characters.
#[verifier::external_body]
pub(crate) fn fresh_id() -> (r: String)
    ensures
        r@.len() == 36,
{
    uuid::Uuid::new_v4().to_string()
}

} // verus!
