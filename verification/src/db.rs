//! The rows of the submission store.

use vstd::prelude::*;

verus! {

/// A persisted submission row, as read from the store.
pub struct RawSubmission {
    /// The submitted values as a JSON object keyed by field id.
    pub data: String,
    /// Human-readable timestamp captured at insert time.
    pub created_at: String,
}

} // verus!
