//! `projj list`: the repositories grouped by base directory and host, and
//! their total.
use vstd::prelude::*;

use crate::cmd::search::{
    color_slot, distinct_in_order, group_keys, group_keys_of, group_order,
    lemma_distinct_contains, slot_color, spec_group_key,
};
use crate::color::{color, spec_color, spec_group_color, DIM, RESET};
use crate::numbers::{decimal, decimal_string};
use crate::paths::strings_view;
use crate::repo_source::{repos_view, spec_git_url, spec_short_key, Repo, RepoView};
use crate::text::{join2, join3, str_eq};

verus! {

/// The header of the group that repository `i` belongs to.
pub open spec fn header_line(repos: Seq<RepoView>, i: int, multi: bool, color_on: bool) -> Seq<char> {
    let key = spec_group_key(repos[i], multi);
    spec_color(spec_group_color(color_slot(group_keys(repos, multi), key)), color_on) + " "@ + key
        + " "@ + spec_color(RESET@, color_on)
}

/// The line of one repository: `owner/repo` and the dimmed git URL.
pub open spec fn entry_line(r: RepoView, color_on: bool) -> Seq<char> {
    "    "@ + spec_short_key(r) + "  "@ + spec_color(DIM@, color_on) + spec_git_url(r) + spec_color(
        RESET@,
        color_on,
    )
}

/// Repository `i` opens a group: it is the first, or its group differs
/// from the one before it.
pub open spec fn starts_group(repos: Seq<RepoView>, i: int, multi: bool) -> bool {
    i == 0 || spec_group_key(repos[i - 1], multi) != spec_group_key(repos[i], multi)
}

/// The lines of the first `n` repositories: a header wherever a group
/// opens, then the repository's line.
pub open spec fn lines_upto(repos: Seq<RepoView>, n: int, multi: bool, color_on: bool) -> Seq<
    Seq<char>,
>
    decreases n,
{
    if n <= 0 {
        Seq::empty()
    } else {
        let before = lines_upto(repos, n - 1, multi, color_on);
        let with_header = if starts_group(repos, n - 1, multi) {
            before.push(header_line(repos, n - 1, multi, color_on))
        } else {
            before
        };
        with_header.push(entry_line(repos[n - 1], color_on))
    }
}

/// The last line: `Total: N repositories`.
pub open spec fn total_line(n: nat) -> Seq<char> {
    "Total: "@ + decimal(n) + " repositories"@
}

/// All lines of `projj list`.
pub open spec fn spec_list_lines(repos: Seq<RepoView>, multi: bool, color_on: bool) -> Seq<
    Seq<char>,
> {
    lines_upto(repos, repos.len() as int, multi, color_on).push(total_line(repos.len()))
}

/// The grouped, colored listing of `projj list`, line by line.
pub fn list_lines(repos: &[Repo], has_multiple_bases: bool, color_on: bool) -> (r: Vec<String>)
    ensures
        strings_view(r@) == spec_list_lines(repos_view(repos@), has_multiple_bases, color_on),
{
    let ghost rv = repos_view(repos@);
    let ghost gk = group_keys(rv, has_multiple_bases);
    let keys = group_keys_of(repos, has_multiple_bases);
    let groups = group_order(&keys);
    let n = repos.len();
    let mut lines: Vec<String> = Vec::new();
    let mut i: usize = 0;
    assert(strings_view(lines@) =~= lines_upto(rv, 0, has_multiple_bases, color_on));
    while i < n
        invariant
            n == repos@.len(),
            rv == repos_view(repos@),
            gk == group_keys(rv, has_multiple_bases),
            strings_view(keys@) == gk,
            strings_view(groups@) == distinct_in_order(gk),
            i <= n,
            strings_view(lines@) == lines_upto(rv, i as int, has_multiple_bases, color_on),
        decreases n - i,
    {
        let repo = &repos[i];
        let key = &keys[i];
        assert(key@ == gk[i as int]);
        assert(rv[i as int] == repo@);
        assert(key@ == spec_group_key(rv[i as int], has_multiple_bases));
        let ghost before = strings_view(lines@);
        let opens = i == 0 || !str_eq(&keys[i - 1], key);
        if i > 0 {
            assert(strings_view(keys@)[i - 1] == keys@[i - 1]@);
            assert(gk[i - 1] == spec_group_key(rv[i - 1], has_multiple_bases));
        }
        assert(opens == starts_group(rv, i as int, has_multiple_bases));
        if opens {
            proof {
                lemma_distinct_contains(gk, i as int);
                distinct_in_order(gk).index_of_first_ensures(key@);
                assert(distinct_in_order(gk).contains(key@));
            }
            let c = color(slot_color(&groups, key), color_on);
            let h = join3(&join3(c, " ", key), " ", color(RESET, color_on));
            assert(h@ =~= header_line(rv, i as int, has_multiple_bases, color_on));
            lines.push(h);
        }
        let a = join3("    ", &repo.short_key(), "  ");
        let b = join3(&a, color(DIM, color_on), &repo.git_url());
        let line = join2(&b, color(RESET, color_on));
        assert(line@ =~= entry_line(rv[i as int], color_on));
        lines.push(line);
        assert(strings_view(lines@) =~= lines_upto(rv, i + 1, has_multiple_bases, color_on));
        i += 1;
    }
    let total = join3("Total: ", &decimal_string(n), " repositories");
    lines.push(total);
    assert(strings_view(lines@) =~= spec_list_lines(rv, has_multiple_bases, color_on));
    lines
}

} // verus!
