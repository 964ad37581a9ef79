//! Directory trees as values, and the rules about the directories an agent
//! works in.

pub mod freezer;
pub mod frozen;
pub mod laws;
pub mod raw_dir;
pub mod reference;

use crate::path;
use crate::text;
use vstd::prelude::*;

verus! {

/// The directory in which an agent checks out its worktrees.
pub const WORKTREE_DIR: &'static str = "wt";

/// What to do with an entry when hidden entries are removed.
#[derive(Debug, Clone, Copy, PartialEq, Eq, Structural)]
pub enum HiddenAction {
    /// Leave it as it is.
    Leave,
    /// Remove it, with everything in it.
    Remove,
    /// Go on into it.
    Enter,
}

/// Hidden entries go, except the git work record; directories that stay are
/// gone into.
pub open spec fn hidden_action_of(name: Seq<char>, is_dir: bool, keep_git: bool) -> HiddenAction {
    if keep_git && (name == ".git"@ || name == ".gitignore"@) {
        HiddenAction::Leave
    } else if text::has_prefix(name, "."@) {
        HiddenAction::Remove
    } else if is_dir {
        HiddenAction::Enter
    } else {
        HiddenAction::Leave
    }
}

/// Decides about one entry of an agent's working directory before it is frozen:
/// runtime artifacts like `.opencode/` never enter a tree. With `keep_git`, the
/// git work record (`.git` and the framework-written `.gitignore`) stays.
pub fn hidden_action(name: &str, is_dir: bool, keep_git: bool) -> (r: HiddenAction)
    ensures
        r == hidden_action_of(name@, is_dir, keep_git),
{
    if keep_git && (text::same(name, ".git") || text::same(name, ".gitignore")) {
        HiddenAction::Leave
    } else if text::starts_with(name, ".") {
        HiddenAction::Remove
    } else if is_dir {
        HiddenAction::Enter
    } else {
        HiddenAction::Leave
    }
}

/// Where the diagnostics directory is.
#[derive(Debug)]
pub struct DiagnosticsDir {
    pub path: String,
}

/// Why there is no diagnostics directory.
#[derive(Debug)]
pub enum DiagnosticsDirNewError {
    /// It exists and is not empty, or cannot be emptied.
    EmptyDir(String),
    /// It cannot be created or found.
    IoError(String),
}

/// The path is not relative to the diagnostics directory.
#[derive(Debug, Clone, Copy, PartialEq, Eq, Structural)]
pub struct InvalidInput;

impl DiagnosticsDir {
    pub fn path(&self) -> (r: &str)
        ensures
            r@ == self.path@,
    {
        self.path.as_str()
    }

    /// Converts the given path, which must be relative to the diagnostics
    /// directory, into an absolute path.
    pub fn to_absolute_path(&self, relative: &str) -> (r: Result<String, InvalidInput>)
        ensures
            (match r {
                Ok(p) => !path::is_absolute_path(relative@) && p@ == path::joined(
                    self.path@,
                    relative@,
                ),
                Err(_) => path::is_absolute_path(relative@),
            }),
    {
        if path::is_absolute(relative) {
            return Err(InvalidInput);
        }
        Ok(path::join(self.path.as_str(), relative))
    }
}

/// A symlink that has been frozen. What it points to is not frozen; it may not
/// exist, or be outside the diagnostics directory.
#[derive(Debug)]
pub struct Symlink {
    contents: String,
}

impl Symlink {
    pub closed spec fn target(&self) -> Seq<char> {
        self.contents@
    }

    /// The symlink that holds the given target path.
    pub fn new(contents: &str) -> (r: Symlink)
        ensures
            r.target() == contents@,
    {
        Symlink { contents: contents.to_owned() }
    }

    /// This symlink's target path.
    pub fn contents(&self) -> (r: &str)
        ensures
            r@ == self.target(),
    {
        self.contents.as_str()
    }
}

} // verus!
