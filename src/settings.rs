//! Defaults of the application settings and the kinds of workspace.

use vstd::prelude::*;

verus! {

/// A workspace is a main checkout or a worktree of one.
#[derive(Clone, Copy, Debug, PartialEq, Eq, Structural)]
pub enum WorkspaceKind {
    Main,
    Worktree,
}

impl Default for WorkspaceKind {
    fn default() -> (r: WorkspaceKind)
        ensures
            r == WorkspaceKind::Main,
    {
        WorkspaceKind::Main
    }
}

impl WorkspaceKind {
    pub fn is_worktree(&self) -> (r: bool)
        ensures
            r == (*self == WorkspaceKind::Worktree),
    {
        match self {
            WorkspaceKind::Worktree => true,
            WorkspaceKind::Main => false,
        }
    }
}

/// The access mode used when the settings name none.
pub fn default_access_mode() -> (r: String)
    ensures
        r@ == "current"@,
{
    "current".to_string()
}

/// The permission mode used when the settings name none.
pub fn default_permission_mode() -> (r: String)
    ensures
        r@ == "default"@,
{
    "default".to_string()
}

} // verus!
