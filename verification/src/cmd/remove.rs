//! `projj remove`: which repository the chosen path names, and the typed
//! confirmation that lets the removal go ahead.
use vstd::prelude::*;

use crate::repo_source::{spec_short_key, Repo};
use crate::text::str_eq;

verus! {

/// The first repository whose path is `path`.
pub fn position_by_path(repos: &[Repo], path: &str) -> (r: Option<usize>)
    ensures
        match r {
            Some(i) => i < repos@.len() && repos@[i as int].path@ == path@ && forall|j: int|
                0 <= j < i ==> #[trigger] repos@[j].path@ != path@,
            None => forall|j: int| 0 <= j < repos@.len() ==> #[trigger] repos@[j].path@ != path@,
        },
{
    let n = repos.len();
    let mut i: usize = 0;
    while i < n
        invariant
            n == repos@.len(),
            i <= n,
            forall|j: int| 0 <= j < i ==> #[trigger] repos@[j].path@ != path@,
        decreases n - i,
    {
        if str_eq(&repos[i].path, path) {
            return Some(i);
        }
        i += 1;
    }
    None
}

/// The removal goes ahead only where the typed text is exactly `owner/repo`.
pub fn confirms_removal(repo: &Repo, typed: &str) -> (r: bool)
    ensures
        r == (typed@ == spec_short_key(repo@)),
{
    let expected = repo.short_key();
    str_eq(typed, &expected)
}

} // verus!
