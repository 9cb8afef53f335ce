//! What the workbench does with files dropped on its window.

use vstd::prelude::*;

use crate::project_models::{is_local_project_path, is_local_project_spec};

verus! {

/// The response to dropped files.
#[derive(Clone, Copy, Debug, PartialEq, Eq, Structural)]
pub enum DropAction {
    /// Nothing with a path was dropped.
    Ignore,
    /// Open the first path as a local project.
    OpenProject,
    /// Open the first path as a session bundle directory.
    OpenSession,
    /// Load the first path as the primary source and the second as its
    /// comparison.
    LoadPair,
    /// Load the first path as the comparison source.
    LoadComparison,
    /// Load the first path as the primary source.
    LoadPrimary,
}

/// The response to dropping `paths`, where `first_is_session_bundle` says
/// whether the first path is a directory holding a session manifest and
/// `comparison_context` whether the comparison workspace is showing: a
/// project file first, then a session bundle, then a pair of sources, then
/// one source for whichever side is in view.
pub open spec fn drop_action_spec(paths: Seq<String>, first_is_session_bundle: bool, comparison_context: bool) -> DropAction {
    if paths.len() == 0 {
        DropAction::Ignore
    } else if is_local_project_spec(paths[0]@) {
        DropAction::OpenProject
    } else if first_is_session_bundle {
        DropAction::OpenSession
    } else if paths.len() >= 2 {
        DropAction::LoadPair
    } else if comparison_context {
        DropAction::LoadComparison
    } else {
        DropAction::LoadPrimary
    }
}

/// Decides what to do with dropped files.
pub fn dropped_files_action(paths: &[String], first_is_session_bundle: bool, comparison_context: bool) -> (action: DropAction)
    ensures
        action == drop_action_spec(paths@, first_is_session_bundle, comparison_context),
{
    if paths.len() == 0 {
        return DropAction::Ignore;
    }
    if is_local_project_path(paths[0].as_str()) {
        return DropAction::OpenProject;
    }
    if first_is_session_bundle {
        return DropAction::OpenSession;
    }
    if paths.len() >= 2 {
        DropAction::LoadPair
    } else if comparison_context {
        DropAction::LoadComparison
    } else {
        DropAction::LoadPrimary
    }
}

} // verus!
