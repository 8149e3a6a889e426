//! What `find` and `list` show of repositories: group keys, group colors,
//! the indexed lines handed to fzf, and reading fzf's answer back.
use vstd::prelude::*;

use crate::color::{group_color, spec_color, spec_group_color, color, DIM, RESET};
use crate::numbers::{decimal, decimal_string, parse_usize, spec_parse_usize};
use crate::paths::{file_name, spec_file_name, strings_view};
use crate::repo_source::{repos_view, spec_git_url, spec_short_key, Repo, RepoView};
use crate::text::{join2, join3, spec_split_once, spec_trim, split_once, str_eq, trim};

verus! {

// ── Group key ──

/// The group of a repository: its host, preceded by the name of its base
/// directory where there are several bases.
pub open spec fn spec_group_key(r: RepoView, has_multiple_bases: bool) -> Seq<char> {
    if has_multiple_bases {
        let base_name = match spec_file_name(r.base) {
            Some(n) => n,
            None => Seq::empty(),
        };
        base_name + "/"@ + r.host
    } else {
        r.host
    }
}

pub fn group_key_for(repo: &Repo, has_multiple_bases: bool) -> (r: String)
    ensures
        r@ == spec_group_key(repo@, has_multiple_bases),
{
    if has_multiple_bases {
        let base_name = match file_name(&repo.base) {
            Some(n) => n,
            None => String::new(),
        };
        join3(&base_name, "/", &repo.host)
    } else {
        repo.host.clone()
    }
}

// ── Group colors ──

/// The keys of `keys` without repetition, in the order of their first
/// occurrence.
pub open spec fn distinct_in_order(keys: Seq<Seq<char>>) -> Seq<Seq<char>>
    decreases keys.len(),
{
    if keys.len() == 0 {
        Seq::empty()
    } else {
        let d = distinct_in_order(keys.drop_last());
        if d.contains(keys.last()) {
            d
        } else {
            d.push(keys.last())
        }
    }
}

/// Every key shows up in the list of distinct keys.
pub proof fn lemma_distinct_contains(keys: Seq<Seq<char>>, i: int)
    requires
        0 <= i < keys.len(),
    ensures
        distinct_in_order(keys).contains(keys[i]),
    decreases keys.len(),
{
    let d = distinct_in_order(keys.drop_last());
    if i < keys.len() - 1 {
        lemma_distinct_contains(keys.drop_last(), i);
        assert(keys.drop_last()[i] == keys[i]);
        if !d.contains(keys.last()) {
            let j = choose|j: int| 0 <= j < d.len() && d[j] == keys[i];
            assert(d.push(keys.last())[j] == keys[i]);
        }
    } else if !d.contains(keys.last()) {
        assert(d.push(keys.last())[d.len() as int] == keys[i]);
    }
}

/// The group keys of a list of repositories.
pub open spec fn group_keys(repos: Seq<RepoView>, has_multiple_bases: bool) -> Seq<Seq<char>> {
    repos.map_values(|r: RepoView| spec_group_key(r, has_multiple_bases))
}

/// The color slot of a group: the place of its first repository among the
/// groups, in the order in which they first show up, counted round the colors.
pub open spec fn color_slot(keys: Seq<Seq<char>>, key: Seq<char>) -> int {
    match distinct_in_order(keys).index_of_first(key) {
        Some(j) => j % 5,
        None => 0,
    }
}

/// The group keys in the order in which they first show up.
pub fn group_order(keys: &Vec<String>) -> (r: Vec<String>)
    ensures
        strings_view(r@) == distinct_in_order(strings_view(keys@)),
{
    let ghost kv = strings_view(keys@);
    let mut out: Vec<String> = Vec::new();
    let n = keys.len();
    let mut i: usize = 0;
    assert(kv.take(0) =~= Seq::<Seq<char>>::empty());
    assert(strings_view(out@) =~= Seq::<Seq<char>>::empty());
    while i < n
        invariant
            n == keys@.len(),
            i <= n,
            kv == strings_view(keys@),
            strings_view(out@) == distinct_in_order(kv.take(i as int)),
        decreases n - i,
    {
        let ghost next = kv.take(i + 1);
        assert(next.drop_last() =~= kv.take(i as int));
        assert(next.last() == keys[i as int]@);
        let found = position_of(&out, &keys[i]);
        proof {
            strings_view(out@).index_of_first_ensures(keys[i as int]@);
        }
        if found.is_none() {
            let ghost before = strings_view(out@);
            out.push(keys[i].clone());
            assert(strings_view(out@) =~= before.push(keys[i as int]@));
        }
        i += 1;
    }
    assert(kv.take(n as int) =~= kv);
    out
}

/// The first position of `key` in `list`.
pub fn position_of(list: &Vec<String>, key: &String) -> (r: Option<usize>)
    ensures
        match r {
            Some(j) => strings_view(list@).index_of_first(key@) == Some(j as int),
            None => strings_view(list@).index_of_first(key@) is None,
        },
{
    let ghost lv = strings_view(list@);
    proof {
        lv.index_of_first_ensures(key@);
    }
    let n = list.len();
    let mut j: usize = 0;
    while j < n
        invariant
            n == list@.len(),
            lv == strings_view(list@),
            lv.len() == n,
            j <= n,
            forall|k: int| 0 <= k < j ==> lv[k] != key@,
            match lv.index_of_first(key@) {
                Some(index) => {
                    &&& lv.contains(key@)
                    &&& 0 <= index < lv.len()
                    &&& lv[index] == key@
                    &&& forall|k: int| 0 <= k < index < lv.len() ==> lv[k] != key@
                },
                None => { !lv.contains(key@) },
            },
        decreases n - j,
    {
        if str_eq(&list[j], key) {
            assert(lv[j as int] == key@);
            return Some(j);
        }
        j += 1;
    }
    None
}

/// The group key of every repository, in order.
pub fn group_keys_of(repos: &[Repo], has_multiple_bases: bool) -> (r: Vec<String>)
    ensures
        strings_view(r@) == group_keys(repos_view(repos@), has_multiple_bases),
{
    let ghost rv = repos_view(repos@);
    let ghost gk = group_keys(rv, has_multiple_bases);
    let n = repos.len();
    let mut keys: Vec<String> = Vec::new();
    let mut i: usize = 0;
    while i < n
        invariant
            n == repos@.len(),
            rv == repos_view(repos@),
            gk == group_keys(rv, has_multiple_bases),
            i <= n,
            strings_view(keys@) == gk.take(i as int),
        decreases n - i,
    {
        let k = group_key_for(&repos[i], has_multiple_bases);
        assert(rv[i as int] == repos@[i as int]@);
        assert(gk[i as int] == spec_group_key(rv[i as int], has_multiple_bases));
        let ghost before = strings_view(keys@);
        keys.push(k);
        assert(strings_view(keys@) =~= before.push(k@));
        assert(strings_view(keys@) =~= gk.take(i + 1));
        i += 1;
    }
    assert(gk.take(n as int) =~= gk);
    keys
}

/// The color of the group with key `key` among the groups `groups` (the
/// distinct keys in order of first showing up), where it is one of them.
pub fn slot_color(groups: &Vec<String>, key: &String) -> (r: &'static str)
    ensures
        strings_view(groups@).contains(key@) ==> r@ == spec_group_color(
            strings_view(groups@).index_of_first(key@).unwrap() % 5,
        ),
{
    proof {
        strings_view(groups@).index_of_first_ensures(key@);
    }
    let slot = match position_of(groups, key) {
        Some(j) => j,
        None => 0,
    };
    group_color(slot)
}

// ── Display builders ──

/// The line fzf gets for repository `i`: its index, a tab, the colored group
/// key, the `owner/repo` key and the dimmed git URL.
pub open spec fn indexed_item(i: int, repos: Seq<RepoView>, has_multiple_bases: bool) -> Seq<char> {
    let r = repos[i];
    let key = spec_group_key(r, has_multiple_bases);
    let color = spec_group_color(color_slot(group_keys(repos, has_multiple_bases), key));
    decimal(i as nat) + "\t"@ + color + " "@ + key + " "@ + RESET@ + " "@ + spec_short_key(r)
        + "  "@ + DIM@ + spec_git_url(r) + RESET@
}

/// Build indexed display items for fzf: `INDEX\tCOLORED_LINE` per repo.
pub fn build_indexed_items(repos: &[Repo], has_multiple_bases: bool) -> (r: Vec<String>)
    ensures
        r@.len() == repos@.len(),
        forall|i: int|
            0 <= i < repos@.len() ==> #[trigger] r@[i]@ == indexed_item(
                i,
                repos_view(repos@),
                has_multiple_bases,
            ),
{
    let ghost rv = repos_view(repos@);
    let ghost gk = group_keys(rv, has_multiple_bases);
    let n = repos.len();
    let keys = group_keys_of(repos, has_multiple_bases);
    let groups = group_order(&keys);
    let mut items: Vec<String> = Vec::new();
    let mut i: usize = 0;
    while i < n
        invariant
            n == repos@.len(),
            rv == repos_view(repos@),
            gk == group_keys(rv, has_multiple_bases),
            strings_view(keys@) == gk,
            strings_view(groups@) == distinct_in_order(gk),
            i <= n,
            items@.len() == i,
            forall|j: int| 0 <= j < i ==> #[trigger] items@[j]@ == indexed_item(j, rv, has_multiple_bases),
        decreases n - i,
    {
        let repo = &repos[i];
        let key = &keys[i];
        assert(key@ == gk[i as int]);
        proof {
            lemma_distinct_contains(gk, i as int);
            distinct_in_order(gk).index_of_first_ensures(key@);
        }
        let color = slot_color(&groups, key);
        let idx = decimal_string(i);
        let a = join3(&idx, "\t", color);
        let b = join3(&a, " ", key);
        let c = join3(&b, " ", RESET);
        let d = join3(&c, " ", &repo.short_key());
        let e = join3(&d, "  ", DIM);
        let f = join3(&e, &repo.git_url(), RESET);
        assert(f@ =~= indexed_item(i as int, rv, has_multiple_bases));
        items.push(f);
        i += 1;
    }
    items
}

/// The two lines shown for a single match: the colored group key, then the
/// indented `owner/repo` key with the dimmed git URL.
pub open spec fn spec_repo_info_lines(r: RepoView, has_multiple_bases: bool, color_on: bool) -> (
    Seq<char>,
    Seq<char>,
) {
    (
        spec_color(spec_group_color(0), color_on) + " "@ + spec_group_key(r, has_multiple_bases)
            + " "@ + spec_color(RESET@, color_on),
        "    "@ + spec_short_key(r) + "  "@ + spec_color(DIM@, color_on) + spec_git_url(r)
            + spec_color(RESET@, color_on),
    )
}

/// The lines that tell the user which single repository matched.
pub fn repo_info_lines(repo: &Repo, has_multiple_bases: bool, color_on: bool) -> (r: (
    String,
    String,
))
    ensures
        (r.0@, r.1@) == spec_repo_info_lines(repo@, has_multiple_bases, color_on),
{
    let key = group_key_for(repo, has_multiple_bases);
    let first = join3(&join3(color(group_color(0), color_on), " ", &key), " ", color(RESET, color_on));
    let a = join3("    ", &repo.short_key(), "  ");
    let b = join3(&a, color(DIM, color_on), &repo.git_url());
    let second = join2(&b, color(RESET, color_on));
    (first, second)
}

// ── Reading fzf's answer ──

/// The first tab-separated field of a line (all of it where it has no tab).
pub open spec fn first_field(line: Seq<char>) -> Seq<char> {
    match spec_split_once(line, '\t') {
        Some((a, _)) => a,
        None => line,
    }
}

/// The index at the front of the line fzf printed for the chosen item.
pub open spec fn spec_selected_index(output: Seq<char>) -> Option<nat> {
    spec_parse_usize(first_field(spec_trim(output)))
}

/// Parse the index from the line fzf returned (`INDEX\tDISPLAY`).
pub fn selected_index(output: &str) -> (r: Option<usize>)
    ensures
        match r {
            Some(i) => spec_selected_index(output@) == Some(i as nat),
            None => spec_selected_index(output@) is None,
        },
{
    let line = trim(output);
    match split_once(&line, '\t') {
        Some((first, _)) => parse_usize(&first),
        None => parse_usize(&line),
    }
}

/// The display part of an indexed item: what follows its first tab.
pub open spec fn spec_display_part(item: Seq<char>) -> Option<Seq<char>> {
    match spec_split_once(item, '\t') {
        Some((_, d)) => Some(d),
        None => None,
    }
}

/// Strip the index prefix of an item, for a list without fzf.
pub fn display_part(item: &str) -> (r: Option<String>)
    ensures
        match r {
            Some(d) => spec_display_part(item@) == Some(d@),
            None => spec_display_part(item@) is None,
        },
{
    match split_once(item, '\t') {
        Some((_, d)) => Some(d),
        None => None,
    }
}

/// The choice fzf printed: its output trimmed, where anything is left.
pub open spec fn spec_selection_text(output: Seq<char>) -> Option<Seq<char>> {
    if spec_trim(output).len() == 0 {
        None
    } else {
        Some(spec_trim(output))
    }
}

/// The selected item from fzf's output; nothing where it printed only blanks.
pub fn selection_text(output: &str) -> (r: Option<String>)
    ensures
        match r {
            Some(t) => spec_selection_text(output@) == Some(t@),
            None => spec_selection_text(output@) is None,
        },
{
    let t = trim(output);
    if t.unicode_len() == 0 {
        None
    } else {
        Some(t)
    }
}

/// What a selection among `n` choices comes to before anyone is asked.
pub enum Preselect {
    /// No choices: nothing is selected.
    Nothing,
    /// One choice: it is selected without asking.
    Only,
    /// Several choices: the user picks.
    Ask,
}

/// Select from choices: none and one need no asking.
pub fn preselect(n: usize) -> (r: Preselect)
    ensures
        n == 0 <==> r is Nothing,
        n == 1 <==> r is Only,
        n > 1 <==> r is Ask,
{
    if n == 0 {
        Preselect::Nothing
    } else if n == 1 {
        Preselect::Only
    } else {
        Preselect::Ask
    }
}

} // verus!
