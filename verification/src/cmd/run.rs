//! `projj run`: the command line that runs, the repositories `--match`
//! selects, and the progress line per repository.
use vstd::prelude::*;

use crate::color::{color, spec_color, DIM, RESET};
use crate::hook::{regex_error, regex_matches, Pattern};
use crate::numbers::{decimal, decimal_string};
use crate::paths::strings_view;
use crate::repo_source::{repos_view, spec_display_key, Repo, RepoView};
use crate::text::{join2, join3};

verus! {

/// The strings joined with single spaces between them (`[String]::join(" ")`).
pub open spec fn join_spaced(parts: Seq<Seq<char>>) -> Seq<char>
    decreases parts.len(),
{
    if parts.len() == 0 {
        Seq::empty()
    } else if parts.len() == 1 {
        parts[0]
    } else {
        join_spaced(parts.drop_last()) + " "@ + parts.last()
    }
}

/// The command that runs: the resolved task, followed by the extra
/// arguments separated by spaces where there are any.
pub open spec fn spec_command_line(resolved: Seq<char>, args: Seq<Seq<char>>) -> Seq<char> {
    if args.len() == 0 {
        resolved
    } else {
        resolved + " "@ + join_spaced(args)
    }
}

/// The command line of `projj run`: the resolved task and the arguments
/// given after `--`.
pub fn command_line(resolved: &str, args: &[String]) -> (r: String)
    ensures
        r@ == spec_command_line(resolved@, strings_view(args@)),
{
    let ghost av = strings_view(args@);
    let n = args.len();
    if n == 0 {
        return String::from_str(resolved);
    }
    let mut joined = args[0].clone();
    let mut i: usize = 1;
    assert(av.take(1).drop_last() =~= Seq::<Seq<char>>::empty());
    assert(join_spaced(av.take(1)) == av[0]);
    while i < n
        invariant
            n == args@.len(),
            av == strings_view(args@),
            1 <= i <= n,
            joined@ == join_spaced(av.take(i as int)),
        decreases n - i,
    {
        assert(av.take(i + 1).drop_last() =~= av.take(i as int));
        joined = join3(&joined, " ", &args[i]);
        i += 1;
    }
    assert(av.take(n as int) =~= av);
    join3(resolved, " ", &joined)
}

/// The `--match` test as a predicate.
pub open spec fn pattern_pred(pattern: Seq<char>) -> spec_fn(RepoView) -> bool {
    |r: RepoView| regex_matches(pattern, spec_display_key(r))
}

/// The repositories `--match` selects: all where no pattern is given, else
/// those whose `host/owner/repo` the pattern matches, in order; an invalid
/// pattern is an error that names the pattern and what is wrong with it.
pub fn filter_by_pattern(repos: &[Repo], pattern: Option<&str>) -> (r: Result<Vec<Repo>, String>)
    ensures
        match pattern {
            None => r matches Ok(v) && repos_view(v@) == repos_view(repos@),
            Some(p) => match regex_error(p@) {
                None => r matches Ok(v) && repos_view(v@) == repos_view(repos@).filter(
                    pattern_pred(p@),
                ),
                Some(t) => r matches Err(m) && m@ == invalid_pattern_prefix(p@) + t,
            },
        },
{
    let ghost rv = repos_view(repos@);
    let n = repos.len();
    match pattern {
        None => {
            let mut out: Vec<Repo> = Vec::new();
            let mut i: usize = 0;
            while i < n
                invariant
                    n == repos@.len(),
                    rv == repos_view(repos@),
                    i <= n,
                    repos_view(out@) == rv.take(i as int),
                decreases n - i,
            {
                let c = repos[i].clone();
                assert(c@ == rv[i as int]);
                let ghost before = repos_view(out@);
                out.push(c);
                assert(repos_view(out@) =~= before.push(rv[i as int]));
                assert(repos_view(out@) =~= rv.take(i + 1));
                i += 1;
            }
            assert(rv.take(n as int) =~= rv);
            Ok(out)
        },
        Some(p) => match Pattern::compile(p) {
            Err(e) => Err(invalid_pattern_message(p, &e)),
            Ok(re) => {
                let mut flags: Vec<bool> = Vec::new();
                let mut i: usize = 0;
                while i < n
                    invariant
                        n == repos@.len(),
                        rv == repos_view(repos@),
                        re@ == p@,
                        i <= n,
                        flags@.len() == i,
                        forall|j: int|
                            0 <= j < i ==> #[trigger] flags@[j] == regex_matches(
                                p@,
                                spec_display_key(rv[j]),
                            ),
                    decreases n - i,
                {
                    flags.push(re.is_match(&repos[i].display_key()));
                    i += 1;
                }
                proof {
                    lemma_flagged_filter(rv, flags@, p@);
                }
                Ok(keep_flagged(repos, &flags))
            },
        },
    }
}

/// The repositories whose flag (at the same position) is set, in order.
pub open spec fn flagged(repos: Seq<RepoView>, flags: Seq<bool>) -> Seq<RepoView>
    decreases repos.len(),
{
    if repos.len() == 0 || flags.len() == 0 {
        Seq::empty()
    } else {
        let before = flagged(repos.drop_last(), flags.drop_last());
        if flags.last() {
            before.push(repos.last())
        } else {
            before
        }
    }
}

/// Flags that say whether the pattern matches each repository select the
/// repositories that `--match` selects.
pub proof fn lemma_flagged_filter(repos: Seq<RepoView>, flags: Seq<bool>, pattern: Seq<char>)
    requires
        flags.len() == repos.len(),
        forall|i: int|
            0 <= i < repos.len() ==> #[trigger] flags[i] == regex_matches(pattern, spec_display_key(repos[i])),
    ensures
        flagged(repos, flags) == repos.filter(pattern_pred(pattern)),
    decreases repos.len(),
{
    reveal(Seq::filter);
    if repos.len() > 0 {
        let r2 = repos.drop_last();
        let f2 = flags.drop_last();
        assert forall|i: int| 0 <= i < r2.len() implies #[trigger] f2[i] == regex_matches(
            pattern,
            spec_display_key(r2[i]),
        ) by {
            assert(f2[i] == flags[i]);
            assert(r2[i] == repos[i]);
        }
        lemma_flagged_filter(r2, f2, pattern);
        assert(flags.last() == flags[flags.len() - 1]);
        assert(repos.last() == repos[repos.len() - 1]);
    }
}

/// The repositories whose flag is set: what `--match` keeps once it is known
/// for each repository whether the pattern matches it.
pub fn keep_flagged(repos: &[Repo], flags: &[bool]) -> (r: Vec<Repo>)
    requires
        flags@.len() == repos@.len(),
    ensures
        repos_view(r@) == flagged(repos_view(repos@), flags@),
{
    let ghost rv = repos_view(repos@);
    let mut out: Vec<Repo> = Vec::new();
    let n = repos.len();
    let mut i: usize = 0;
    while i < n
        invariant
            n == repos@.len(),
            n == flags@.len(),
            rv == repos_view(repos@),
            i <= n,
            repos_view(out@) == flagged(rv.take(i as int), flags@.take(i as int)),
        decreases n - i,
    {
        let ghost next = rv.take(i + 1);
        let ghost next_flags = flags@.take(i + 1);
        assert(next.drop_last() =~= rv.take(i as int));
        assert(next_flags.drop_last() =~= flags@.take(i as int));
        assert(next.last() == repos@[i as int]@);
        assert(next_flags.last() == flags@[i as int]);
        if flags[i] {
            out.push(repos[i].clone());
        }
        assert(repos_view(out@) =~= flagged(next, next_flags));
        i += 1;
    }
    assert(rv.take(n as int) =~= rv);
    assert(flags@.take(n as int) =~= flags@);
    out
}

/// The message for an invalid `--match` pattern, given the regex error.
pub fn invalid_pattern_message(pattern: &str, error: &str) -> (r: String)
    ensures
        r@ == invalid_pattern_prefix(pattern@) + error@,
{
    let prefix = join3("Invalid --match pattern '", pattern, "': ");
    join2(&prefix, error)
}

/// The start of the message for an invalid `--match` pattern.
pub open spec fn invalid_pattern_prefix(p: Seq<char>) -> Seq<char> {
    "Invalid --match pattern '"@ + p + "': "@
}

/// The line printed before running in repository `i` (counted from 0) of
/// `total`: `[i+1/total] 📦 host/owner/repo`, the counter dimmed.
pub open spec fn spec_progress_line(i: nat, total: nat, key: Seq<char>, color_on: bool) -> Seq<char> {
    spec_color(DIM@, color_on) + "["@ + decimal(i + 1) + "/"@ + decimal(total) + "]"@ + spec_color(
        RESET@,
        color_on,
    ) + " 📦 "@ + key
}

/// The progress line of `projj run --all`.
pub fn progress_line(i: usize, total: usize, key: &str, color_on: bool) -> (r: String)
    requires
        i < total,
    ensures
        r@ == spec_progress_line(i as nat, total as nat, key@, color_on),
{
    let a = join3(color(DIM, color_on), "[", &decimal_string(i + 1));
    let b = join3(&a, "/", &decimal_string(total));
    let c = join3(&b, "]", color(RESET, color_on));
    join3(&c, " 📦 ", key)
}

/// The repository `projj run --all` starts in: the first, where there is
/// one.
pub fn first_repo(total: usize) -> (r: Option<usize>)
    ensures
        r == (if total > 0 {
            Some(0usize)
        } else {
            None
        }),
{
    if total > 0 {
        Some(0)
    } else {
        None
    }
}

/// The line that reports a failure in one repository.
pub open spec fn failure_report(message: Seq<char>) -> Seq<char> {
    "  ❌ "@ + message
}

/// What follows once the command has finished in repository `i` of
/// `total`: a failure (its message) is reported, and the run goes on with
/// the next repository whatever the outcome, until none is left.
pub fn after_repo(i: usize, total: usize, failure: Option<&str>) -> (r: (Option<usize>, Option<String>))
    requires
        i < total,
    ensures
        r.0 == (if i + 1 < total {
            Some((i + 1) as usize)
        } else {
            None
        }),
        match failure {
            None => r.1 is None,
            Some(m) => r.1 matches Some(t) && t@ == failure_report(m@),
        },
{
    let next = if i + 1 < total {
        Some(i + 1)
    } else {
        None
    };
    let report = match failure {
        None => None,
        Some(m) => Some(join2("  ❌ ", m)),
    };
    (next, report)
}

} // verus!
