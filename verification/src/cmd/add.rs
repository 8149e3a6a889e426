//! `projj add`: where the repository goes and the steps that put it there.
use vstd::prelude::*;

use crate::git::{is_local_arg, spec_rel_path, RepoInfo};
use crate::paths::{path_join, spec_path_join};

verus! {

/// One step of adding a repository.
#[derive(Debug, Clone, Copy, PartialEq, Eq, Structural)]
pub enum AddStep {
    /// Run the `pre_add` hooks in the target directory.
    PreAddHooks,
    /// Move the local checkout to the target.
    MoveLocal,
    /// Clone the remote into the target.
    CloneRemote,
    /// Run the `post_add` hooks in the target directory.
    PostAddHooks,
}

/// Where the repository goes: `base/host/owner/repo`.
pub fn add_target(base: &str, info: &RepoInfo) -> (r: String)
    ensures
        r@ == spec_path_join(base@, spec_rel_path(info.host@, info.owner@, info.repo@)),
{
    path_join(base, &info.rel_path())
}

/// The steps of adding: where the target exists already only the
/// `post_add` hooks run; else the `pre_add` hooks, then the move (for a
/// local path argument) or the clone, then the `post_add` hooks.
pub open spec fn spec_add_steps(repo_arg: Seq<char>, target_exists: bool) -> Seq<AddStep> {
    if target_exists {
        seq![AddStep::PostAddHooks]
    } else if is_local_arg(repo_arg) {
        seq![AddStep::PreAddHooks, AddStep::MoveLocal, AddStep::PostAddHooks]
    } else {
        seq![AddStep::PreAddHooks, AddStep::CloneRemote, AddStep::PostAddHooks]
    }
}

/// The steps `projj add repo_arg` takes.
pub fn add_steps(repo_arg: &str, target_exists: bool) -> (r: Vec<AddStep>)
    ensures
        r@ == spec_add_steps(repo_arg@, target_exists),
{
    let mut steps: Vec<AddStep> = Vec::new();
    if target_exists {
        steps.push(AddStep::PostAddHooks);
    } else {
        steps.push(AddStep::PreAddHooks);
        let n = repo_arg.unicode_len();
        if n > 0 && (repo_arg.get_char(0) == '.' || repo_arg.get_char(0) == '/') {
            steps.push(AddStep::MoveLocal);
        } else {
            steps.push(AddStep::CloneRemote);
        }
        steps.push(AddStep::PostAddHooks);
    }
    assert(steps@ =~= spec_add_steps(repo_arg@, target_exists));
    steps
}

} // verus!
