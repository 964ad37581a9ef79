//! What is done with the working directory once an agent has finished.

use crate::path;
use vstd::prelude::*;

verus! {

/// One step after the agent has finished.
#[derive(Debug, PartialEq, Eq)]
pub enum FinishStep {
    /// Copy a file that the agent wrote out of the working directory.
    CopyOut(String, String),
    /// Append a file that the agent wrote to one outside the working directory.
    AppendOut(String, String),
    /// Tell that something is missing.
    Warn(String),
    /// The run has failed.
    Fail(String),
    /// Make the package a workspace of its own.
    AddWorkspace,
    /// Drop the binary targets of the package.
    RemoveBin,
    /// Name the library target of the package.
    SetLib(String),
    /// Make `driver` the binary target of the package.
    SetBinDriver,
    /// Write the edited manifest.
    SaveManifest,
    /// Drop the sources that a library does not need.
    StripForLib,
    /// Remove hidden files and directories.
    RemoveHidden,
    /// Discard the read-only references, reporting those that were edited.
    StripReferences,
    /// Remove a directory, if it is there.
    RemoveDir(String),
    /// Remove the build directories inside a directory, if it is there.
    StripBuildDirs(String),
    /// Tell which symlinks are left.
    ReportSymlinks,
    /// Take the working directory as the result.
    Freeze,
}

pub enum StepView {
    CopyOut(Seq<char>, Seq<char>),
    AppendOut(Seq<char>, Seq<char>),
    Warn(Seq<char>),
    Fail(Seq<char>),
    AddWorkspace,
    RemoveBin,
    SetLib(Seq<char>),
    SetBinDriver,
    SaveManifest,
    StripForLib,
    RemoveHidden,
    StripReferences,
    RemoveDir(Seq<char>),
    StripBuildDirs(Seq<char>),
    ReportSymlinks,
    Freeze,
}

impl FinishStep {
    pub open spec fn view(&self) -> StepView {
        match *self {
            FinishStep::CopyOut(a, b) => StepView::CopyOut(a@, b@),
            FinishStep::AppendOut(a, b) => StepView::AppendOut(a@, b@),
            FinishStep::Warn(m) => StepView::Warn(m@),
            FinishStep::Fail(m) => StepView::Fail(m@),
            FinishStep::AddWorkspace => StepView::AddWorkspace,
            FinishStep::RemoveBin => StepView::RemoveBin,
            FinishStep::SetLib(n) => StepView::SetLib(n@),
            FinishStep::SetBinDriver => StepView::SetBinDriver,
            FinishStep::SaveManifest => StepView::SaveManifest,
            FinishStep::StripForLib => StepView::StripForLib,
            FinishStep::RemoveHidden => StepView::RemoveHidden,
            FinishStep::StripReferences => StepView::StripReferences,
            FinishStep::RemoveDir(d) => StepView::RemoveDir(d@),
            FinishStep::StripBuildDirs(d) => StepView::StripBuildDirs(d@),
            FinishStep::ReportSymlinks => StepView::ReportSymlinks,
            FinishStep::Freeze => StepView::Freeze,
        }
    }
}

pub open spec fn step_views(v: Seq<FinishStep>) -> Seq<StepView> {
    v.map_values(|s: FinishStep| s.view())
}

pub broadcast proof fn step_views_push(v: Seq<FinishStep>, s: FinishStep)
    ensures
        #[trigger] step_views(v.push(s)) == step_views(v).push(s.view()),
{
    assert(step_views(v.push(s)) =~= step_views(v).push(s.view()));
}

/// A file goes out where it was written and a destination is configured.
pub open spec fn copy_out_of(
    exists_here: bool,
    dir: Seq<char>,
    name: Seq<char>,
    dest: Option<String>,
) -> Seq<StepView> {
    match dest {
        Some(d) => if exists_here {
            seq![StepView::CopyOut(path::joined(dir, name), d@)]
        } else {
            seq![]
        },
        None => seq![],
    }
}

/// Plans to copy a file out. Its absence is normal: the agent may skip the step
/// that writes it.
pub fn copy_out(
    steps: &mut Vec<FinishStep>,
    exists_here: bool,
    dir: &str,
    name: &str,
    dest: &Option<String>,
)
    ensures
        step_views(final(steps)@) == step_views(old(steps)@) + copy_out_of(
            exists_here,
            dir@,
            name@,
            *dest,
        ),
{
    broadcast use step_views_push;

    let ghost before = step_views(steps@);
    if let Some(d) = dest {
        if exists_here {
            steps.push(FinishStep::CopyOut(path::join(dir, name), d.clone()));
        }
    }
    assert(step_views(steps@) =~= before + copy_out_of(exists_here, dir@, name@, *dest));
}

} // verus!
