//! Properties that tie several functions of the library together.
use vstd::prelude::*;

use crate::cmd::search::{first_field, indexed_item, spec_selected_index};
use crate::color::RESET;
use crate::git::{spec_parse_repo, spec_rel_path, spec_ssh_url, ParseRepoError, RepoInfoView};
use crate::paths::spec_path_join;
use crate::numbers::{decimal, law_parse_decimal, lemma_decimal};
use crate::hook::{
    is_script, pos_le, projj_names, projj_vars, spec_context_url, spec_key_parts, step_from,
    HookContext, HookRun, HookStep,
};
use crate::table::{
    last_setting, lemma_last_setting_absent, lemma_last_setting_concat, lemma_last_setting_distinct,
    Table,
};
use crate::cmd::run::{join_spaced, spec_command_line};
use crate::config::{spec_resolve_name, Config};
use crate::hook::{hook_steps, step_resolved};
use crate::repo_source::{
    keyed_matches, spec_find_keyed,
    exact_pred, is_exact_match, is_hidden, is_partial_match, partial_pred, repos_of_entries,
    spec_display_key, spec_find, spec_git_url, RepoView, ScanEntryView,
};
use crate::text::{
    has_suffix, trim_start_char,
    has_infix, has_prefix, is_white_space, lowercase, lemma_first_char_not_prefix, lemma_no_prefix,
    lemma_rsplit_once_none, lemma_split_once_concat, lemma_trim_unchanged,
    lemma_without_suffix_concat, spec_trim,
};

verus! {

/// A host as it appears in a URL: not empty, without `/` and without a port.
pub open spec fn plain_host(h: Seq<char>) -> bool {
    h.len() > 0 && !h.contains('/') && !h.contains(':')
}

/// An owner that the short form accepts: not empty, without `/`, `.`, `:`
/// or `@`.
pub open spec fn plain_owner(o: Seq<char>) -> bool {
    o.len() > 0 && !o.contains('/') && !o.contains('.') && !o.contains(':') && !o.contains('@')
}

/// `https://host/owner/repo.git`.
pub open spec fn spec_https_url(h: Seq<char>, o: Seq<char>, r: Seq<char>) -> Seq<char> {
    "https://"@ + h + "/"@ + o + "/"@ + r + ".git"@
}

/// The short form `owner/repo`.
pub open spec fn spec_short_arg(o: Seq<char>, r: Seq<char>) -> Seq<char> {
    o + "/"@ + r
}

/// A parse that succeeded with the given host, owner and repo.
pub open spec fn parses_to(
    res: Result<RepoInfoView, ParseRepoError>,
    h: Seq<char>,
    o: Seq<char>,
    r: Seq<char>,
) -> bool {
    res matches Ok(i) && i.host == h && i.owner == o && i.repo == r
}

/// One repo, one location: the SSH URL, the HTTPS URL and the short form
/// (on its default platform) of the same repository all give the same host,
/// owner and repo, so the same `host/owner/repo` directory. In particular
/// the clone URL that the short form makes parses back to where it came
/// from.
pub proof fn law_one_repo_one_location(
    h: Seq<char>,
    o: Seq<char>,
    r: Seq<char>,
    platform: Seq<char>,
)
    requires
        plain_host(h),
        plain_owner(o),
        r.len() > 0,
    ensures
        parses_to(spec_parse_repo(spec_ssh_url(h, o, r), platform), h, o, r),
        parses_to(spec_parse_repo(spec_https_url(h, o, r), platform), h, o, r),
        parses_to(spec_parse_repo(spec_short_arg(o, r), h), h, o, r),
{
    reveal_strlit("git@");
    reveal_strlit(":");
    reveal_strlit("/");
    reveal_strlit(".git");
    reveal_strlit("https://");
    reveal_strlit("http://");
    reveal_strlit("ssh://");
    lemma_rsplit_once_none(h, ':');
    // git@host:owner/repo.git
    let s = spec_ssh_url(h, o, r);
    assert(s[0] == 'g');
    lemma_first_char_not_prefix(s, "ssh://"@);
    assert(s.subrange(0, 4) =~= "git@"@);
    assert(has_prefix(s, "git@"@));
    let tail = o + seq!['/'] + r + ".git"@;
    assert(s.subrange(4, s.len() as int) =~= h + seq![':'] + tail);
    lemma_split_once_concat(h, ':', tail);
    assert(tail =~= (o + seq!['/'] + r) + ".git"@);
    lemma_without_suffix_concat(o + seq!['/'] + r, ".git"@);
    lemma_split_once_concat(o, '/', r);
    // https://host/owner/repo.git
    let t = spec_https_url(h, o, r);
    assert(t[0] == 'h');
    lemma_first_char_not_prefix(t, "ssh://"@);
    lemma_first_char_not_prefix(t, "git@"@);
    assert(t.subrange(0, 8) =~= "https://"@);
    let path = o + seq!['/'] + (r + ".git"@);
    assert(t.subrange(8, t.len() as int) =~= h + seq!['/'] + path);
    lemma_split_once_concat(h, '/', path);
    lemma_split_once_concat(o, '/', r + ".git"@);
    lemma_without_suffix_concat(r, ".git"@);
    // owner/repo
    let u = spec_short_arg(o, r);
    assert(u =~= o + seq!['/'] + r);
    assert(u[0] == o[0]);
    assert(o.contains(o[0]));
    lemma_no_prefix(o, r, "ssh://"@, 3);
    lemma_no_prefix(o, r, "git@"@, 3);
    lemma_no_prefix(o, r, "https://"@, 5);
    lemma_no_prefix(o, r, "http://"@, 4);
    lemma_split_once_concat(o, '/', r);
}

/// What fzf hands back for a chosen line leads to the repository that line
/// was built for: the index read from the front of item `i` is `i`.
pub proof fn law_selected_item_index(repos: Seq<RepoView>, has_multiple_bases: bool, i: int)
    requires
        0 <= i < repos.len(),
        i <= usize::MAX,
    ensures
        spec_selected_index(indexed_item(i, repos, has_multiple_bases)) == Some(i as nat),
{
    reveal_strlit("\t");
    reveal_strlit("\x1b[0m");
    let item = indexed_item(i, repos, has_multiple_bases);
    let d = decimal(i as nat);
    lemma_decimal(i as nat);
    law_parse_decimal(i as nat);
    assert(item.subrange(0, d.len() as int) =~= d);
    assert(item[d.len() as int] == '\t');
    let rest = item.subrange(d.len() + 1int, item.len() as int);
    assert(item =~= d + seq!['\t'] + rest);
    assert(!d.contains('\t')) by {
        if d.contains('\t') {
            let k = choose|k: int| 0 <= k < d.len() && d[k] == '\t';
            assert('0' <= d[k] && d[k] <= '9');
        }
    }
    lemma_split_once_concat(d, '\t', rest);
    assert(first_field(item) == d);
    assert(item[0] == d[0]);
    assert('0' <= d[0] && d[0] <= '9');
    assert(RESET@ == "\x1b[0m"@);
    assert(item.last() == 'm');
    assert(!is_white_space(item[0]));
    lemma_trim_unchanged(item);
    assert(spec_trim(item) == item);
}

/// Search ignores case: keywords with the same lower-case form find the
/// same repositories in the same order.
pub proof fn law_find_case_insensitive(repos: Seq<RepoView>, k1: Seq<char>, k2: Seq<char>)
    requires
        lowercase(k1) == lowercase(k2),
    ensures
        spec_find(repos, k1) == spec_find(repos, k2),
{
    assert(exact_pred(k1) =~= exact_pred(k2));
    assert(partial_pred(k1) =~= partial_pred(k2));
}

/// Search finds every repository whose `host/owner/repo` contains the
/// keyword or ends with `/keyword` (ignoring case), finds nothing else, and
/// lists the exact matches before the partial ones.
pub proof fn law_find_matches(repos: Seq<RepoView>, keyword: Seq<char>)
    ensures
        forall|j: int|
            0 <= j < repos.len() && (is_exact_match(repos[j], keyword) || has_infix(
                lowercase(spec_display_key(repos[j])),
                lowercase(keyword),
            )) ==> #[trigger] spec_find(repos, keyword).contains(repos[j]),
        forall|k: int|
            0 <= k < spec_find(repos, keyword).len() ==> repos.contains(
                #[trigger] spec_find(repos, keyword)[k],
            ) && (is_exact_match(spec_find(repos, keyword)[k], keyword) || is_partial_match(
                spec_find(repos, keyword)[k],
                keyword,
            )),
        forall|a: int, b: int|
            0 <= a < b < spec_find(repos, keyword).len() && is_partial_match(
                #[trigger] spec_find(repos, keyword)[a],
                keyword,
            ) ==> !is_exact_match(#[trigger] spec_find(repos, keyword)[b], keyword),
{
    broadcast use vstd::seq_lib::group_filter_ensures;

    let e = repos.filter(exact_pred(keyword));
    let p = repos.filter(partial_pred(keyword));
    let res = spec_find(repos, keyword);
    assert(res == e + p);
    assert forall|j: int|
        0 <= j < repos.len() && (is_exact_match(repos[j], keyword) || has_infix(
            lowercase(spec_display_key(repos[j])),
            lowercase(keyword),
        )) implies #[trigger] res.contains(repos[j]) by {
        if is_exact_match(repos[j], keyword) {
            assert(exact_pred(keyword)(repos[j]));
            assert(e.contains(repos[j]));
            let x = choose|x: int| 0 <= x < e.len() && e[x] == repos[j];
            assert(res[x] == repos[j]);
        } else {
            assert(partial_pred(keyword)(repos[j]));
            assert(p.contains(repos[j]));
            let x = choose|x: int| 0 <= x < p.len() && p[x] == repos[j];
            assert(res[e.len() + x] == repos[j]);
        }
    }
    assert forall|k: int| 0 <= k < res.len() implies repos.contains(#[trigger] res[k]) && (
    is_exact_match(res[k], keyword) || is_partial_match(res[k], keyword)) by {
        if k < e.len() {
            assert(res[k] == e[k]);
            assert(exact_pred(keyword)(e[k]));
            assert(e.contains(e[k]));
            repos.lemma_filter_contains_rev(exact_pred(keyword), e[k]);
        } else {
            assert(res[k] == p[k - e.len()]);
            assert(partial_pred(keyword)(p[k - e.len()]));
            assert(p.contains(p[k - e.len()]));
            repos.lemma_filter_contains_rev(partial_pred(keyword), p[k - e.len()]);
        }
    }
    assert forall|a: int, b: int|
        0 <= a < b < res.len() && is_partial_match(#[trigger] res[a], keyword) implies !is_exact_match(
        #[trigger] res[b],
        keyword,
    ) by {
        if a < e.len() {
            assert(res[a] == e[a]);
            assert(exact_pred(keyword)(e[a]));
        }
        assert(res[b] == p[b - e.len()]);
        assert(partial_pred(keyword)(p[b - e.len()]));
    }
}

/// A hook run for a repository is told its host, owner and name exactly as
/// the repository's `host/owner/repo` key holds them, and the same git URL
/// that the repository has (where the host and owner have no `/`).
pub proof fn law_hook_context_of_repo(r: RepoView)
    requires
        r.host.len() > 0,
        !r.host.contains('/'),
        !r.owner.contains('/'),
    ensures
        spec_key_parts(spec_display_key(r)) == (r.host, r.owner, r.name),
        spec_context_url(r.host, r.owner, r.name) == spec_git_url(r),
{
    reveal_strlit("/");
    let key = spec_display_key(r);
    let rest = r.owner + seq!['/'] + r.name;
    assert(key =~= r.host + seq!['/'] + rest);
    lemma_split_once_concat(r.host, '/', rest);
    lemma_split_once_concat(r.owner, '/', r.name);
    assert(spec_context_url(r.host, r.owner, r.name) =~= spec_git_url(r));
}

/// A name that can stand as one level of a repository's directory: not
/// empty, not hidden and without `/`.
pub open spec fn plain_level(n: Seq<char>) -> bool {
    n.len() > 0 && !is_hidden(n) && !n.contains('/')
}

/// What `add` writes, a scan reads back: the repository checked out at
/// `base/host/owner/repo` (the target of `add`) is found by scanning, as
/// that very repository, at that path, under the key `host/owner/repo`.
pub proof fn law_added_repo_is_found(base: Seq<char>, host: Seq<char>, owner: Seq<char>, repo: Seq<char>)
    requires
        plain_level(host),
        plain_level(owner),
        repo.len() > 0,
        !is_hidden(repo),
        repo[0] != '/',
    ensures
        repos_of_entries(
            seq![ScanEntryView { base, host, owner, name: repo, has_git: true }],
        ) == seq![
            RepoView {
                path: spec_path_join(base, spec_rel_path(host, owner, repo)),
                base,
                host,
                owner,
                name: repo,
            },
        ],
        spec_display_key(
            RepoView {
                path: spec_path_join(base, spec_rel_path(host, owner, repo)),
                base,
                host,
                owner,
                name: repo,
            },
        ) == spec_rel_path(host, owner, repo),
{
    reveal_strlit("/");
    let e = ScanEntryView { base, host, owner, name: repo, has_git: true };
    let entries = seq![e];
    assert(entries.filter(crate::repo_source::repo_entry_pred()) =~= entries) by {
        reveal(Seq::filter);
        assert(entries.drop_last() =~= Seq::<ScanEntryView>::empty());
    }
    assert(host[0] != '/') by {
        assert(host.contains(host[0]));
    }
    assert(owner[0] != '/') by {
        assert(owner.contains(owner[0]));
    }
    assert(host.last() != '/') by {
        assert(host.contains(host[host.len() - 1]));
    }
    assert(owner.last() != '/') by {
        assert(owner.contains(owner[owner.len() - 1]));
    }
    let bh = spec_path_join(base, host);
    let bho = spec_path_join(bh, owner);
    let rel = spec_rel_path(host, owner, repo);
    assert(rel[0] == host[0]);
    let b2 = if base.len() == 0 || base.last() == '/' {
        base
    } else {
        base + seq!['/']
    };
    assert(bh =~= b2 + host);
    assert(bh.last() == host.last());
    assert(bho =~= b2 + host + seq!['/'] + owner);
    assert(bho.last() == owner.last());
    assert(spec_path_join(bho, repo) =~= b2 + host + seq!['/'] + owner + seq!['/'] + repo);
    assert(spec_path_join(base, rel) =~= b2 + rel);
    assert(spec_path_join(bho, repo) =~= spec_path_join(base, rel));
    let r = RepoView { path: spec_path_join(base, rel), base, host, owner, name: repo };
    assert(repos_of_entries(entries) =~= seq![r]);
    assert(spec_display_key(r) =~= rel);
}

/// A hook cannot change the context it is told: in the environment its
/// scripts run with (the hook's `env`, then the context's variables), each
/// `PROJJ_*` variable has the value the context gives it, whatever the
/// hook's `env` sets, and every other name has the value the hook's `env`
/// gives it, where it gives one.
pub proof fn law_hook_env_settings(env: Table, ctx: HookContext, name: Seq<char>)
    ensures
        forall|k: int|
            0 <= k < projj_vars(ctx).len() ==> last_setting(
                env.entries_view() + projj_vars(ctx),
                #[trigger] projj_vars(ctx)[k].0,
            ) == Some(projj_vars(ctx)[k].1),
        !projj_names().contains(name) ==> last_setting(env.entries_view() + projj_vars(ctx), name)
            == (if env@.contains_key(name) {
            Some(env@[name])
        } else {
            None
        }),
{
    reveal_strlit("PROJJ_EVENT");
    reveal_strlit("PROJJ_REPO_PATH");
    reveal_strlit("PROJJ_REPO_HOST");
    reveal_strlit("PROJJ_REPO_OWNER");
    reveal_strlit("PROJJ_REPO_NAME");
    reveal_strlit("PROJJ_REPO_URL");
    let p = projj_vars(ctx);
    let e = env.entries_view();
    assert forall|i: int, j: int| 0 <= i < j < p.len() implies #[trigger] p[i].0 != #[trigger] p[j].0 by {
        assert(p[i].0.len() != p[j].0.len() || p[i].0[7] != p[j].0[7] || p[i].0[11] != p[j].0[11]);
    }
    assert forall|k: int| 0 <= k < p.len() implies last_setting(e + p, #[trigger] p[k].0) == Some(
        p[k].1,
    ) by {
        lemma_last_setting_concat(e, p, p[k].0);
        lemma_last_setting_distinct(p, k);
    }
    if !projj_names().contains(name) {
        assert forall|i: int| 0 <= i < p.len() implies #[trigger] p[i].0 != name by {
            assert(p[i].0 == projj_names()[i]);
        }
        lemma_last_setting_absent(p, name);
        lemma_last_setting_concat(e, p, name);
        env.lemma_entries_settings(name);
    }
}

/// A hook run goes through the plan in order and skips nothing: from any
/// position, the next step is the first script at or after it, and the run
/// is done only where no script is left. With `next_step` (which moves on
/// from a script that succeeded and stops at one that failed), every script
/// of every matching hook runs once, in order, up to the first failure.
pub proof fn law_hook_steps_in_order(runs: Seq<HookRun>, k: int, j: int)
    requires
        0 <= k,
        0 <= j,
        runs.len() <= usize::MAX,
        forall|a: int| 0 <= a < runs.len() ==> #[trigger] runs[a].scripts@.len() <= usize::MAX,
    ensures
        match step_from(runs, k, j) {
            HookStep::Run { hook, script } => {
                &&& is_script(runs, hook as int, script as int)
                &&& pos_le(k, j, hook as int, script as int)
                &&& forall|a: int, b: int|
                    #[trigger] is_script(runs, a, b) && pos_le(k, j, a, b) ==> pos_le(
                        hook as int,
                        script as int,
                        a,
                        b,
                    )
            },
            HookStep::Done => forall|a: int, b: int|
                #[trigger] is_script(runs, a, b) ==> !pos_le(k, j, a, b),
            HookStep::Failed(_) => false,
        },
    decreases runs.len() - k,
{
    if k < runs.len() {
        if j < runs[k].scripts@.len() {
            assert(runs[k].scripts@.len() <= usize::MAX);
        } else {
            law_hook_steps_in_order(runs, k + 1, 0);
            assert forall|a: int, b: int| #[trigger] is_script(runs, a, b) && pos_le(k, j, a, b)
                implies pos_le(k + 1, 0, a, b) by {
            }
        }
    }
}

// ── search: what counts as an exact match ──

/// Each repository beside its key.
pub open spec fn pairs_of(repos: Seq<RepoView>, keys: Seq<Seq<char>>) -> Seq<(RepoView, Seq<char>)> {
    Seq::new(repos.len(), |i: int| (repos[i], keys[i]))
}

/// The key ends with `/` followed by the keyword without its leading
/// slashes.
pub open spec fn ends_with_slash_keyword(kw: Seq<char>) -> spec_fn((RepoView, Seq<char>)) -> bool {
    |p: (RepoView, Seq<char>)| has_suffix(p.1, seq!['/'] + trim_start_char(kw, '/'))
}

/// The key holds the keyword but does not end with `/` and the keyword.
pub open spec fn only_contains_keyword(kw: Seq<char>) -> spec_fn((RepoView, Seq<char>)) -> bool {
    |p: (RepoView, Seq<char>)| !has_suffix(p.1, seq!['/'] + trim_start_char(kw, '/')) && has_infix(p.1, kw)
}

/// The repository of a pair.
pub open spec fn pair_repo() -> spec_fn((RepoView, Seq<char>)) -> RepoView {
    |p: (RepoView, Seq<char>)| p.0
}

proof fn lemma_keyed_matches_filter(repos: Seq<RepoView>, keys: Seq<Seq<char>>, kw: Seq<char>)
    requires
        keys.len() == repos.len(),
    ensures
        keyed_matches(repos, keys, kw, true) == pairs_of(repos, keys).filter(
            ends_with_slash_keyword(kw),
        ).map_values(pair_repo()),
        keyed_matches(repos, keys, kw, false) == pairs_of(repos, keys).filter(
            only_contains_keyword(kw),
        ).map_values(pair_repo()),
    decreases repos.len(),
{
    reveal(Seq::filter);
    let ps = pairs_of(repos, keys);
    if repos.len() == 0 {
        assert(ps =~= Seq::<(RepoView, Seq<char>)>::empty());
        assert(ps.filter(ends_with_slash_keyword(kw)) =~= Seq::<(RepoView, Seq<char>)>::empty());
        assert(ps.filter(only_contains_keyword(kw)) =~= Seq::<(RepoView, Seq<char>)>::empty());
    } else {
        lemma_keyed_matches_filter(repos.drop_last(), keys.drop_last(), kw);
        assert(pairs_of(repos.drop_last(), keys.drop_last()) =~= ps.drop_last());
        assert(ps.last() == (repos.last(), keys.last()));
        let e0 = ps.drop_last().filter(ends_with_slash_keyword(kw));
        let p0 = ps.drop_last().filter(only_contains_keyword(kw));
        assert(e0.push(ps.last()).map_values(pair_repo()) =~= e0.map_values(pair_repo()).push(
            repos.last(),
        ));
        assert(p0.push(ps.last()).map_values(pair_repo()) =~= p0.map_values(pair_repo()).push(
            repos.last(),
        ));
    }
}

/// Exact matches first, and only real ones: given each repository's
/// lower-cased key and the lower-cased keyword, search lists first the
/// repositories whose key ends with `/` and the keyword (leading slashes of
/// the keyword dropped), in order, then those whose key merely contains the
/// keyword (such as `.../tiny-projj` for `projj`), in order, and nothing
/// else.
pub proof fn law_find_exact_first(repos: Seq<RepoView>, keys: Seq<Seq<char>>, kw: Seq<char>)
    requires
        keys.len() == repos.len(),
    ensures
        spec_find_keyed(repos, keys, kw) == pairs_of(repos, keys).filter(
            ends_with_slash_keyword(kw),
        ).map_values(pair_repo()) + pairs_of(repos, keys).filter(only_contains_keyword(kw)).map_values(
            pair_repo(),
        ),
{
    lemma_keyed_matches_filter(repos, keys, kw);
}

/// The lower-cased `host/owner/repo` of each repository.
pub open spec fn lowered_keys(repos: Seq<RepoView>) -> Seq<Seq<char>> {
    repos.map_values(|r: RepoView| lowercase(spec_display_key(r)))
}

/// Search by keyword lists first the repositories whose lower-cased
/// `host/owner/repo` ends with `/` and the lower-cased keyword (leading
/// slashes dropped), then those whose key merely contains it, each group in
/// the order of the list, and nothing else.
pub proof fn law_find_exact_first_by_keyword(repos: Seq<RepoView>, kw: Seq<char>)
    ensures
        spec_find(repos, kw) == pairs_of(repos, lowered_keys(repos)).filter(
            ends_with_slash_keyword(lowercase(kw)),
        ).map_values(pair_repo()) + pairs_of(repos, lowered_keys(repos)).filter(
            only_contains_keyword(lowercase(kw)),
        ).map_values(pair_repo()),
{
    let keys = lowered_keys(repos);
    crate::repo_source::lemma_keyed_matches(repos, keys, kw);
    lemma_keyed_matches_filter(repos, keys, lowercase(kw));
}

// ── SSH URLs: the `.git` suffix is optional ──

/// `git@host:owner/repo`, without `.git`.
pub open spec fn spec_ssh_url_bare(h: Seq<char>, o: Seq<char>, r: Seq<char>) -> Seq<char> {
    "git@"@ + h + ":"@ + o + "/"@ + r
}

/// `owner/repo` ends with `.git` only where the repo does: `.git` holds no
/// `/`.
proof fn lemma_no_git_suffix(o: Seq<char>, r: Seq<char>)
    requires
        !has_suffix(r, ".git"@),
    ensures
        !has_suffix(o + seq!['/'] + r, ".git"@),
{
    reveal_strlit(".git");
    let s = o + seq!['/'] + r;
    let g = ".git"@;
    if has_suffix(s, g) {
        if r.len() >= 4 {
            assert(s.subrange(s.len() - 4, s.len() as int) =~= r.subrange(r.len() - 4, r.len() as int));
        } else {
            let k = o.len() as int;
            assert(s[k] == '/');
            let i = k - (s.len() - 4);
            assert(0 <= i < 4);
            assert(s.subrange(s.len() - 4, s.len() as int)[i] == s[k]);
            assert(g[i] != '/');
        }
    }
}

/// The `.git` suffix of an SSH URL is optional: `git@host:owner/repo` and
/// `git@host:owner/repo.git` both parse to that host, owner and repo, each
/// keeping the URL it was given to clone from.
pub proof fn law_ssh_git_suffix_optional(
    h: Seq<char>,
    o: Seq<char>,
    r: Seq<char>,
    platform: Seq<char>,
)
    requires
        !h.contains(':'),
        !o.contains('/'),
        !has_suffix(r, ".git"@),
    ensures
        spec_parse_repo(spec_ssh_url_bare(h, o, r), platform) == Ok::<RepoInfoView, ParseRepoError>(
            RepoInfoView { host: h, owner: o, repo: r, clone_url: spec_ssh_url_bare(h, o, r) },
        ),
        spec_parse_repo(spec_ssh_url(h, o, r), platform) == Ok::<RepoInfoView, ParseRepoError>(
            RepoInfoView { host: h, owner: o, repo: r, clone_url: spec_ssh_url(h, o, r) },
        ),
{
    reveal_strlit("git@");
    reveal_strlit(":");
    reveal_strlit("/");
    reveal_strlit(".git");
    reveal_strlit("ssh://");
    lemma_rsplit_once_none(h, ':');
    let s = spec_ssh_url_bare(h, o, r);
    assert(s[0] == 'g');
    lemma_first_char_not_prefix(s, "ssh://"@);
    assert(s.subrange(0, 4) =~= "git@"@);
    let tail = o + seq!['/'] + r;
    assert(s.subrange(4, s.len() as int) =~= h + seq![':'] + tail);
    lemma_split_once_concat(h, ':', tail);
    lemma_no_git_suffix(o, r);
    lemma_split_once_concat(o, '/', r);
    let t = spec_ssh_url(h, o, r);
    assert(t[0] == 'g');
    lemma_first_char_not_prefix(t, "ssh://"@);
    assert(t.subrange(0, 4) =~= "git@"@);
    let tail2 = o + seq!['/'] + r + ".git"@;
    assert(t.subrange(4, t.len() as int) =~= h + seq![':'] + tail2);
    lemma_split_once_concat(h, ':', tail2);
    assert(tail2 =~= (o + seq!['/'] + r) + ".git"@);
    lemma_without_suffix_concat(o + seq!['/'] + r, ".git"@);
}

// ── hooks: a hook's tasks run ──

/// A hook runs its tasks: whatever scripts satisfy what `hook_scripts`
/// promises, a hook without a `command` has one script per task, the k-th
/// being its k-th task resolved as a task name (through the `tasks` table
/// and the tasks directory); a hook with a `command` has that command,
/// resolved as a script name, in front of them.
pub proof fn law_hook_runs_its_tasks(config: Config, h: crate::config::HookEntry, scripts: Seq<Seq<char>>)
    requires
        scripts.len() == hook_steps(h).len(),
        forall|k: int| 0 <= k < scripts.len() ==> step_resolved(config, hook_steps(h)[k], #[trigger] scripts[k]),
    ensures
        h.command is None ==> scripts.len() == h.tasks@.len(),
        h.command is None ==> forall|k: int|
            0 <= k < h.tasks@.len() ==> step_resolved(config, (false, h.tasks@[k]@), #[trigger] scripts[k]),
        h.command is Some ==> scripts.len() == 1 + h.tasks@.len(),
        h.command matches Some(c) ==> step_resolved(config, (true, c@), scripts[0]),
        h.command is Some ==> forall|k: int|
            0 <= k < h.tasks@.len() ==> step_resolved(
                config,
                (false, h.tasks@[k]@),
                #[trigger] scripts[k + 1],
            ),
{
    let steps = hook_steps(h);
    let tv = crate::paths::strings_view(h.tasks@);
    let tasks = tv.map_values(|t: Seq<char>| (false, t));
    assert(tasks.len() == h.tasks@.len());
    match h.command {
        Some(c) => {
            assert(steps == seq![(true, c@)] + tasks);
            assert(step_resolved(config, steps[0], scripts[0]));
            assert forall|k: int| 0 <= k < h.tasks@.len() implies step_resolved(
                config,
                (false, h.tasks@[k]@),
                #[trigger] scripts[k + 1],
            ) by {
                assert(tv[k] == h.tasks@[k]@);
                assert(steps[k + 1] == (false, h.tasks@[k]@));
                assert(step_resolved(config, steps[k + 1], scripts[k + 1]));
            }
        },
        None => {
            assert(steps == tasks);
            assert forall|k: int| 0 <= k < h.tasks@.len() implies step_resolved(
                config,
                (false, h.tasks@[k]@),
                #[trigger] scripts[k],
            ) by {
                assert(tv[k] == h.tasks@[k]@);
                assert(steps[k] == (false, h.tasks@[k]@));
                assert(step_resolved(config, steps[k], scripts[k]));
            }
        },
    }
}

// ── `projj run`: the arguments after `--` ──

/// Appending an argument appends it to the command line after a space, and
/// with no arguments the command line is the resolved task: so every
/// argument, the only one too, reaches the command (`resolved + " " + a`
/// for a single `a`).
pub proof fn law_command_line_appends(resolved: Seq<char>, args: Seq<Seq<char>>, a: Seq<char>)
    ensures
        spec_command_line(resolved, Seq::empty()) == resolved,
        spec_command_line(resolved, args.push(a)) == spec_command_line(resolved, args) + " "@ + a,
        spec_command_line(resolved, seq![a]) == resolved + " "@ + a,
{
    reveal_strlit(" ");
    let t = args.push(a);
    assert(t.drop_last() =~= args);
    assert(t.last() == a);
    if args.len() == 0 {
        assert(join_spaced(t) == a);
    } else {
        assert(join_spaced(t) == join_spaced(args) + " "@ + a);
    }
    assert(seq![a].len() == 1);
    assert(join_spaced(seq![a]) == a);
}

// ── names of scripts and tasks ──

/// The lookup of a script or task name: the table's value where the table
/// has the name; else, for a name without space or `/` (whatever else it
/// holds, `-` included) whose file is in the directory, that file; else the
/// name itself.
pub proof fn law_resolve_name(
    table: Map<Seq<char>, Seq<char>>,
    name: Seq<char>,
    dir: Seq<char>,
    found: bool,
)
    ensures
        table.contains_key(name) ==> spec_resolve_name(table, name, dir, found) == table[name],
        !table.contains_key(name) && !name.contains(' ') && !name.contains('/') && found
            ==> spec_resolve_name(table, name, dir, found) == spec_path_join(dir, name),
        !table.contains_key(name) && (name.contains(' ') || name.contains('/') || !found)
            ==> spec_resolve_name(table, name, dir, found) == name,
{
}

} // verus!
