//! The ways in which tracing a build can fail.

use vstd::prelude::*;

verus! {

/// Why no aggregate was produced.
#[derive(Debug, Clone, PartialEq, Eq)]
pub enum BuildError {
    /// The root process exited with this nonzero code.
    BuildTerminatedWithCode(i32),
    /// The root process ended without an exit code.
    BuildTerminatedBySignal,
    /// Two collected records share a pid.
    DuplicateProcessIdentity,
    /// More than one collected record has no parent among the records.
    ProcessTreeIncomplete,
    /// An entry of the scratch directory could not be read, or did not parse
    /// as a record.
    RecordReadOrParseFailure { path: String, cause: String },
    /// The scratch directory itself could not be listed.
    ScratchDirectoryAccessFailure,
}

/// The model of a [`BuildError`].
pub enum BuildErrorView {
    BuildTerminatedWithCode(int),
    BuildTerminatedBySignal,
    DuplicateProcessIdentity,
    ProcessTreeIncomplete,
    RecordReadOrParseFailure { path: Seq<char>, cause: Seq<char> },
    ScratchDirectoryAccessFailure,
}

impl View for BuildError {
    type V = BuildErrorView;

    open spec fn view(&self) -> BuildErrorView {
        match *self {
            BuildError::BuildTerminatedWithCode(code) => BuildErrorView::BuildTerminatedWithCode(
                code as int,
            ),
            BuildError::BuildTerminatedBySignal => BuildErrorView::BuildTerminatedBySignal,
            BuildError::DuplicateProcessIdentity => BuildErrorView::DuplicateProcessIdentity,
            BuildError::ProcessTreeIncomplete => BuildErrorView::ProcessTreeIncomplete,
            BuildError::RecordReadOrParseFailure { path, cause } => {
                BuildErrorView::RecordReadOrParseFailure { path: path@, cause: cause@ }
            },
            BuildError::ScratchDirectoryAccessFailure => {
                BuildErrorView::ScratchDirectoryAccessFailure
            },
        }
    }
}

} // verus!
