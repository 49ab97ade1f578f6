//! Errors of the patch-series workflow.
use vstd::prelude::*;

verus! {

/// What went wrong in a step of the workflow.
#[derive(Debug, Clone, PartialEq, Eq)]
pub enum SeriesError {
    /// The version-control executable could not be started.
    LaunchFailure(String),
    /// The version-control executable ran and failed; its combined output.
    BackendFailure(String),
    /// The version directory already exists and replacing it was not asked for.
    VersionConflict(u64),
    /// An entry of a branch directory is neither a version nor the template.
    CorruptVersionStore(String),
    /// The first line of the cover letter does not start with `Title: `.
    MissingTitlePrefix,
    /// The cover letter has no line after its title.
    MissingTitleNewline,
    /// No generated cover letter was found in the version directory.
    CoverLetterNotFound,
    /// More than one generated cover letter was found in the version directory.
    AmbiguousCoverLetter,
    /// A file or directory of the version store could not be read or written.
    Io(String),
    /// A path cannot be represented as text.
    NotUtf8Path,
    /// The branch has no patch set yet.
    NoPatchSetForBranch(String),
    /// The next version number does not fit in 64 bits.
    VersionOverflow,
    /// The older version's patches did not apply on the interdiff base; the
    /// backend's message.
    ReplayFailed(String),
    /// The remote url does not start with the configured url base.
    RemoteOutsideUrlBase(String),
}

} // verus!
