//! Errors reported by font selection.

use vstd::prelude::*;

verus! {

/// Why a selection query produced no font.
#[derive(Clone, Copy, Debug, PartialEq, Eq, Structural)]
pub enum SelectionError {
    /// No font resource, family or candidate satisfies the query.  Expected
    /// and recoverable; search-style operations absorb it per candidate and
    /// report it only when every candidate is exhausted.
    NotFound,
    /// The underlying font catalog could not complete an enumeration or a
    /// description.  Propagated to the caller unchanged.
    IoFailure,
}

} // verus!
