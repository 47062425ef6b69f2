//! The error type for path resolution.  Canonicalizing against the
//! filesystem is the caller's edge; this is the record it reports failures
//! in.

use vstd::prelude::*;

verus! {

/// A path could not be resolved: the path tried and the report of the
/// lookup.
#[derive(Debug)]
pub struct PathResolutionError {
    pub path: String,
    pub message: String,
}

impl PathResolutionError {
    /// Bundles a failed path with the lookup's report.
    pub fn new(path: String, message: String) -> (r: Self)
        ensures
            r.path@ == path@,
            r.message@ == message@,
    {
        PathResolutionError { path, message }
    }
}

} // verus!
