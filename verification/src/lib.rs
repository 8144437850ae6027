//! Release-automation support: a verified model of the per-project CI
//! sequence (format, lint, test), its orchestration over a tree of
//! sub-projects, the validity verdict that gates a version bump, and the
//! manifest rewriting the bump performs.

pub mod bump_version;
pub mod ci;
pub mod errors;
pub mod out;
pub mod utils;
