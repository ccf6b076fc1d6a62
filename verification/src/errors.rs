//! Errors of the catalog path: record validation and item construction.
//! Construction never defaults a missing gameplay field silently; each error
//! names what was missing or malformed.

use vstd::prelude::*;

verus! {

/// Why a record could not be validated or an item could not be built.
#[derive(Debug, Clone, PartialEq, Eq)]
pub enum ItemError {
    /// A mandatory field is absent on the named item: fatal for that item's
    /// construction, never silently defaulted.
    MissingField { field: String, item: String },
    /// A distance string did not parse after stripping its unit suffix.
    MalformedDistance { text: String },
    /// The item looked up is not in the catalog.
    MissingItem { name: String },
    /// A record lacks its disabled flag: malformed source data, distinct from
    /// "present but disabled".
    MissingDisabledFlag,
}

} // verus!
