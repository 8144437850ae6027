//! Error kinds of the orchestration and of the version-bump workflow.

use vstd::prelude::*;

verus! {

/// What can go wrong while orchestrating CI or bumping versions.
#[derive(Debug)]
pub enum CiError {
    /// A required folder (category root, project root) does not exist or is
    /// not a recognizable project.
    NotFound { path: String },
    /// A checked set holds an invalid project; `path` names the first one.
    GateFailure { path: String },
    /// A manifest did not contain the dependency line to rewrite.
    BumpVersion { path: String },
}

} // verus!
