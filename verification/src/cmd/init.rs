//! `projj init`: the suggested base directory and the summary of the setup.
use vstd::prelude::*;

use crate::numbers::{decimal, decimal_string};
use crate::paths::{path_join, spec_path_join, strings_view};
use crate::text::join3;

verus! {

/// The base directory suggested at first setup: `~/projj` (`projj` where
/// there is no home directory).
pub fn default_base(home: Option<&str>) -> (r: String)
    ensures
        r@ == spec_path_join(
            match home {
                Some(h) => h@,
                None => Seq::empty(),
            },
            "projj"@,
        ),
{
    proof {
        reveal_strlit("");
    }
    match home {
        Some(h) => path_join(h, "projj"),
        None => path_join("", "projj"),
    }
}

/// The summary after setup: how many base directories and repositories
/// there are, then the number of hooks and of tasks where there are any.
pub open spec fn spec_summary_lines(bases: nat, repos: nat, hooks: nat, tasks: nat) -> Seq<Seq<char>> {
    let first = seq!["📊 "@ + decimal(bases) + " base directories, "@ + decimal(repos)
        + " repositories found"@];
    let with_hooks = if hooks > 0 {
        first.push("🪝 "@ + decimal(hooks) + " hooks configured"@)
    } else {
        first
    };
    if tasks > 0 {
        with_hooks.push("📜 "@ + decimal(tasks) + " tasks configured"@)
    } else {
        with_hooks
    }
}

/// The summary lines that `projj init` prints.
pub fn summary_lines(bases: usize, repos: usize, hooks: usize, tasks: usize) -> (r: Vec<String>)
    ensures
        strings_view(r@) == spec_summary_lines(bases as nat, repos as nat, hooks as nat, tasks as nat),
{
    let a = join3("📊 ", &decimal_string(bases), " base directories, ");
    let first = join3(&a, &decimal_string(repos), " repositories found");
    let mut lines: Vec<String> = Vec::new();
    lines.push(first);
    if hooks > 0 {
        lines.push(join3("🪝 ", &decimal_string(hooks), " hooks configured"));
    }
    if tasks > 0 {
        lines.push(join3("📜 ", &decimal_string(tasks), " tasks configured"));
    }
    assert(strings_view(lines@) =~= spec_summary_lines(
        bases as nat,
        repos as nat,
        hooks as nat,
        tasks as nat,
    ));
    lines
}

} // verus!
