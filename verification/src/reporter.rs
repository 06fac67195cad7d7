use vstd::prelude::*;
use crate::resources::FileResource;

verus! {

/// How one file ended.
#[derive(Debug, Clone, Copy, PartialEq, Eq, Structural)]
pub enum Status {
    /// The content was requested and written.
    Downloaded,
    /// The local file was current; nothing was requested.
    Skipped,
    /// The run was cancelled before the fetch had finished.
    Cancelled,
}

/// Observer of a run: called once for every file that ended without an
/// error, with the totals of the run.
pub trait Reporter {
    fn report(&self, file: FileResource, status: Status, total_files: usize, total_bytes: usize);
}

/// The reporter of a run that nobody watches: it ignores every call.
#[derive(Debug, Clone, Copy, PartialEq, Eq, Structural)]
pub struct Silent;

impl Reporter for Silent {
    fn report(&self, file: FileResource, status: Status, total_files: usize, total_bytes: usize) {
    }
}

} // verus!
