//! The repositories found under the base directories, and keyword search
//! among them.
use vstd::prelude::*;

use crate::paths::{
    lemma_path_lt_order, path_join, path_less, path_lt, spec_path_join, strings_view,
};
use crate::text::{
    contains_str, ends_with, has_infix, has_suffix, join2, join3, lowercase, to_lowercase,
    trim_start_char, trim_start_matches_char,
};

verus! {

broadcast use vstd::seq_lib::group_to_multiset_ensures;

/// A repository checked out at `base/host/owner/name`.
#[derive(Debug)]
pub struct Repo {
    pub path: String,
    pub base: String,
    pub host: String,
    pub owner: String,
    pub name: String,
}

/// The strings of a `Repo`, as character sequences.
pub struct RepoView {
    pub path: Seq<char>,
    pub base: Seq<char>,
    pub host: Seq<char>,
    pub owner: Seq<char>,
    pub name: Seq<char>,
}

impl View for Repo {
    type V = RepoView;

    open spec fn view(&self) -> RepoView {
        RepoView {
            path: self.path@,
            base: self.base@,
            host: self.host@,
            owner: self.owner@,
            name: self.name@,
        }
    }
}

impl Clone for Repo {
    fn clone(&self) -> (r: Self)
        ensures
            r == *self,
    {
        Repo {
            path: self.path.clone(),
            base: self.base.clone(),
            host: self.host.clone(),
            owner: self.owner.clone(),
            name: self.name.clone(),
        }
    }
}

/// The views of a list of repositories.
pub open spec fn repos_view(s: Seq<Repo>) -> Seq<RepoView> {
    s.map_values(|r: Repo| r@)
}

/// `owner/name`.
pub open spec fn spec_short_key(r: RepoView) -> Seq<char> {
    r.owner + "/"@ + r.name
}

/// `host/owner/name`.
pub open spec fn spec_display_key(r: RepoView) -> Seq<char> {
    r.host + "/"@ + r.owner + "/"@ + r.name
}

/// `git@host:owner/name.git`.
pub open spec fn spec_git_url(r: RepoView) -> Seq<char> {
    "git@"@ + r.host + ":"@ + r.owner + "/"@ + r.name + ".git"@
}

impl Repo {
    /// owner/repo
    pub fn short_key(&self) -> (r: String)
        ensures
            r@ == spec_short_key(self@),
    {
        join3(&self.owner, "/", &self.name)
    }

    /// host/owner/repo
    pub fn display_key(&self) -> (r: String)
        ensures
            r@ == spec_display_key(self@),
    {
        join3(&join3(&self.host, "/", &self.owner), "/", &self.name)
    }

    /// Construct git URL from path components
    pub fn git_url(&self) -> (r: String)
        ensures
            r@ == spec_git_url(self@),
    {
        let a = join3("git@", &self.host, ":");
        let b = join3(&a, &self.owner, "/");
        join3(&b, &self.name, ".git")
    }
}

// ── keyword search ──

/// A lower-cased key ends with `/` and the lower-cased keyword without its
/// leading slashes.
pub open spec fn key_exact(key_lower: Seq<char>, keyword_lower: Seq<char>) -> bool {
    has_suffix(key_lower, seq!['/'] + trim_start_char(keyword_lower, '/'))
}

/// A lower-cased key is no exact match but contains the lower-cased keyword.
pub open spec fn key_partial(key_lower: Seq<char>, keyword_lower: Seq<char>) -> bool {
    !key_exact(key_lower, keyword_lower) && has_infix(key_lower, keyword_lower)
}

/// The lower-cased `host/owner/name` of `r` ends with `/keyword`.
pub open spec fn is_exact_match(r: RepoView, keyword: Seq<char>) -> bool {
    key_exact(lowercase(spec_display_key(r)), lowercase(keyword))
}

/// `r` is no exact match, but its lower-cased `host/owner/name` contains the
/// lower-cased keyword.
pub open spec fn is_partial_match(r: RepoView, keyword: Seq<char>) -> bool {
    key_partial(lowercase(spec_display_key(r)), lowercase(keyword))
}

/// The exact-match test as a predicate.
pub open spec fn exact_pred(keyword: Seq<char>) -> spec_fn(RepoView) -> bool {
    |r: RepoView| is_exact_match(r, keyword)
}

/// The partial-match test as a predicate.
pub open spec fn partial_pred(keyword: Seq<char>) -> spec_fn(RepoView) -> bool {
    |r: RepoView| is_partial_match(r, keyword)
}

/// What `find` gives back: the exact matches in their order, then the
/// partial matches in theirs.
pub open spec fn spec_find(repos: Seq<RepoView>, keyword: Seq<char>) -> Seq<RepoView> {
    repos.filter(exact_pred(keyword)) + repos.filter(partial_pred(keyword))
}

/// The repositories whose key (at the same position in `keys`) passes the
/// exact (`exact`) or the partial test for `keyword_lower`, in order.
pub open spec fn keyed_matches(
    repos: Seq<RepoView>,
    keys: Seq<Seq<char>>,
    keyword_lower: Seq<char>,
    exact: bool,
) -> Seq<RepoView>
    decreases repos.len(),
{
    if repos.len() == 0 || keys.len() == 0 {
        Seq::empty()
    } else {
        let before = keyed_matches(repos.drop_last(), keys.drop_last(), keyword_lower, exact);
        let key = keys.last();
        let hit = if exact {
            key_exact(key, keyword_lower)
        } else {
            key_partial(key, keyword_lower)
        };
        if hit {
            before.push(repos.last())
        } else {
            before
        }
    }
}

/// `find` once the lower-case forms are known: the exact matches, then the
/// partial ones.
pub open spec fn spec_find_keyed(
    repos: Seq<RepoView>,
    keys: Seq<Seq<char>>,
    keyword_lower: Seq<char>,
) -> Seq<RepoView> {
    keyed_matches(repos, keys, keyword_lower, true) + keyed_matches(repos, keys, keyword_lower, false)
}

/// With each key the lower-cased `host/owner/name` of its repository, the
/// keyed matches are the matches of the keyword.
pub proof fn lemma_keyed_matches(repos: Seq<RepoView>, keys: Seq<Seq<char>>, keyword: Seq<char>)
    requires
        keys.len() == repos.len(),
        forall|i: int| 0 <= i < repos.len() ==> #[trigger] keys[i] == lowercase(spec_display_key(repos[i])),
    ensures
        keyed_matches(repos, keys, lowercase(keyword), true) == repos.filter(exact_pred(keyword)),
        keyed_matches(repos, keys, lowercase(keyword), false) == repos.filter(partial_pred(keyword)),
    decreases repos.len(),
{
    reveal(Seq::filter);
    if repos.len() > 0 {
        let r2 = repos.drop_last();
        let k2 = keys.drop_last();
        assert forall|i: int| 0 <= i < r2.len() implies #[trigger] k2[i] == lowercase(
            spec_display_key(r2[i]),
        ) by {
            assert(k2[i] == keys[i]);
            assert(r2[i] == repos[i]);
        }
        lemma_keyed_matches(r2, k2, keyword);
        assert(keys.last() == keys[keys.len() - 1]);
        assert(repos.last() == repos[repos.len() - 1]);
    }
}

/// Find repos once the lower-case forms are known: `keys[i]` is the
/// lower-cased `host/owner/repo` of `repos[i]`, `keyword_lower` the
/// lower-cased keyword. Exact matches first, then partial matches.
pub fn find_keyed(repos: &[Repo], keys: &[String], keyword_lower: &str) -> (r: Vec<Repo>)
    requires
        keys@.len() == repos@.len(),
    ensures
        repos_view(r@) == spec_find_keyed(repos_view(repos@), strings_view(keys@), keyword_lower@),
{
    let trimmed = trim_start_matches_char(keyword_lower, '/');
    let keyword_suffix = join2("/", &trimmed);
    proof {
        reveal_strlit("/");
        assert(keyword_suffix@ =~= seq!['/'] + trim_start_char(keyword_lower@, '/'));
    }
    let ghost all = repos_view(repos@);
    let ghost kv = strings_view(keys@);
    let mut exact: Vec<Repo> = Vec::new();
    let mut partial: Vec<Repo> = Vec::new();
    let n = repos.len();
    let mut i: usize = 0;
    while i < n
        invariant
            n == repos@.len(),
            n == keys@.len(),
            i <= n,
            all == repos_view(repos@),
            kv == strings_view(keys@),
            keyword_suffix@ == seq!['/'] + trim_start_char(keyword_lower@, '/'),
            repos_view(exact@) == keyed_matches(
                all.take(i as int),
                kv.take(i as int),
                keyword_lower@,
                true,
            ),
            repos_view(partial@) == keyed_matches(
                all.take(i as int),
                kv.take(i as int),
                keyword_lower@,
                false,
            ),
        decreases n - i,
    {
        let repo = &repos[i];
        let key = &keys[i];
        let ghost next = all.take(i + 1);
        let ghost next_keys = kv.take(i + 1);
        assert(next.drop_last() =~= all.take(i as int));
        assert(next_keys.drop_last() =~= kv.take(i as int));
        assert(next.last() == repo@);
        assert(next_keys.last() == key@);
        if ends_with(key, &keyword_suffix) {
            exact.push(repo.clone());
        } else if contains_str(key, keyword_lower) {
            partial.push(repo.clone());
        }
        assert(repos_view(exact@) =~= keyed_matches(next, next_keys, keyword_lower@, true));
        assert(repos_view(partial@) =~= keyed_matches(next, next_keys, keyword_lower@, false));
        i += 1;
    }
    assert(all.take(n as int) =~= all);
    assert(kv.take(n as int) =~= kv);
    let ghost ev = repos_view(exact@);
    let ghost pv = repos_view(partial@);
    exact.append(&mut partial);
    assert(repos_view(exact@) =~= ev + pv);
    exact
}

/// Find repos matching a keyword (case-insensitive).
///
/// Returns all matches. Exact matches (ends with /keyword) are sorted first,
/// followed by partial matches (contains keyword).
pub fn find(repos: &[Repo], keyword: &str) -> (r: Vec<Repo>)
    ensures
        repos_view(r@) == spec_find(repos_view(repos@), keyword@),
{
    let ghost rv = repos_view(repos@);
    let kw_lower = to_lowercase(keyword);
    let mut keys: Vec<String> = Vec::new();
    let n = repos.len();
    let mut i: usize = 0;
    while i < n
        invariant
            n == repos@.len(),
            rv == repos_view(repos@),
            i <= n,
            keys@.len() == i,
            forall|j: int| 0 <= j < i ==> #[trigger] keys@[j]@ == lowercase(spec_display_key(rv[j])),
        decreases n - i,
    {
        keys.push(to_lowercase(&repos[i].display_key()));
        i += 1;
    }
    proof {
        let kv = strings_view(keys@);
        assert forall|j: int| 0 <= j < rv.len() implies #[trigger] kv[j] == lowercase(
            spec_display_key(rv[j]),
        ) by {
            assert(kv[j] == keys@[j]@);
        }
        lemma_keyed_matches(rv, kv, keyword@);
    }
    find_keyed(repos, &keys, &kw_lower)
}

// ── scanning ──

/// A directory three levels below a base directory, `base/host/owner/name`,
/// as the walk over the disk found it, with whether it holds `.git`.
#[derive(Debug)]
pub struct ScanEntry {
    pub base: String,
    pub host: String,
    pub owner: String,
    pub name: String,
    pub has_git: bool,
}

/// The strings of a `ScanEntry`, as character sequences.
pub struct ScanEntryView {
    pub base: Seq<char>,
    pub host: Seq<char>,
    pub owner: Seq<char>,
    pub name: Seq<char>,
    pub has_git: bool,
}

impl View for ScanEntry {
    type V = ScanEntryView;

    open spec fn view(&self) -> ScanEntryView {
        ScanEntryView {
            base: self.base@,
            host: self.host@,
            owner: self.owner@,
            name: self.name@,
            has_git: self.has_git,
        }
    }
}

/// The views of a list of scan entries.
pub open spec fn entries_view(s: Seq<ScanEntry>) -> Seq<ScanEntryView> {
    s.map_values(|e: ScanEntry| e@)
}

/// A hidden name starts with `.`.
pub open spec fn is_hidden(name: Seq<char>) -> bool {
    name.len() > 0 && name[0] == '.'
}

/// A directory name starts with `.`, so the walk leaves it out.
pub fn is_hidden_name(name: &str) -> (r: bool)
    ensures
        r == is_hidden(name@),
{
    name.unicode_len() > 0 && name.get_char(0) == '.'
}

/// An entry is a repository: no level is hidden and it holds `.git`.
pub open spec fn is_repo_entry(e: ScanEntryView) -> bool {
    !is_hidden(e.host) && !is_hidden(e.owner) && !is_hidden(e.name) && e.has_git
}

/// The repository that an entry stands for.
pub open spec fn repo_of_entry(e: ScanEntryView) -> RepoView {
    RepoView {
        path: spec_path_join(spec_path_join(spec_path_join(e.base, e.host), e.owner), e.name),
        base: e.base,
        host: e.host,
        owner: e.owner,
        name: e.name,
    }
}

/// The repositories of a list of entries, in the order of the entries.
pub open spec fn repos_of_entries(entries: Seq<ScanEntryView>) -> Seq<RepoView> {
    entries.filter(repo_entry_pred()).map_values(entry_to_repo())
}

/// `is_repo_entry` as a predicate.
pub open spec fn repo_entry_pred() -> spec_fn(ScanEntryView) -> bool {
    |e: ScanEntryView| is_repo_entry(e)
}

/// `repo_of_entry` as a function value.
pub open spec fn entry_to_repo() -> spec_fn(ScanEntryView) -> RepoView {
    |e: ScanEntryView| repo_of_entry(e)
}

/// No repository comes after one whose path sorts after its own.
pub open spec fn sorted_by_path(s: Seq<RepoView>) -> bool {
    forall|i: int, j: int| 0 <= i < j < s.len() ==> !path_lt(#[trigger] s[j].path, #[trigger] s[i].path)
}

/// Inserting at a position adds the element to the multiset.
pub proof fn lemma_insert_to_multiset<A>(s: Seq<A>, k: int, a: A)
    requires
        0 <= k <= s.len(),
    ensures
        s.insert(k, a).to_multiset() =~= s.to_multiset().insert(a),
{
    let t = s.insert(k, a);
    assert(t.remove(k) =~= s);
    assert(t[k] == a);
    assert(t.remove(k).to_multiset() =~= t.to_multiset().remove(a));
    assert(t.contains(a));
    assert(t.to_multiset().count(a) > 0);
}

/// The repositories sorted by path (`a.path.cmp(&b.path)`); the list holds
/// the same repositories as before.
pub fn sort_by_path(v: Vec<Repo>) -> (r: Vec<Repo>)
    ensures
        sorted_by_path(repos_view(r@)),
        repos_view(r@).to_multiset() == repos_view(v@).to_multiset(),
{
    let ghost vv = repos_view(v@);
    let mut out: Vec<Repo> = Vec::new();
    let n = v.len();
    let mut i: usize = 0;
    assert(vv.take(0) =~= Seq::<RepoView>::empty());
    assert(repos_view(out@) =~= Seq::<RepoView>::empty());
    while i < n
        invariant
            n == v@.len(),
            i <= n,
            vv == repos_view(v@),
            sorted_by_path(repos_view(out@)),
            repos_view(out@).to_multiset() == vv.take(i as int).to_multiset(),
        decreases n - i,
    {
        let x = v[i].clone();
        let mut k: usize = 0;
        let ghost ov = repos_view(out@);
        while k < out.len() && !path_less(&x.path, &out[k].path)
            invariant
                ov == repos_view(out@),
                k <= out@.len(),
                forall|j: int| 0 <= j < k ==> !path_lt(x@.path, #[trigger] ov[j].path),
            decreases out@.len() - k,
        {
            k += 1;
        }
        let ghost before = ov;
        out.insert(k, x);
        let ghost after = repos_view(out@);
        assert(after =~= before.insert(k as int, x@));
        assert(sorted_by_path(after)) by {
            assert forall|a: int, b: int| 0 <= a < b < after.len() implies !path_lt(
                #[trigger] after[b].path,
                #[trigger] after[a].path,
            ) by {
                if b < k {
                } else if b == k {
                    assert(after[a] == before[a]);
                } else if a == k {
                    assert(after[b] == before[b - 1]);
                    assert(path_lt(x@.path, before[k as int].path));
                    lemma_path_lt_order(before[b - 1].path, x@.path, before[k as int].path);
                    if k < b - 1 {
                        assert(!path_lt(before[b - 1].path, before[k as int].path));
                    } else {
                        lemma_path_lt_order(x@.path, before[k as int].path, x@.path);
                    }
                } else if a < k {
                    assert(after[a] == before[a]);
                    assert(after[b] == before[b - 1]);
                } else {
                    assert(after[a] == before[a - 1]);
                    assert(after[b] == before[b - 1]);
                }
            }
        }
        proof {
            lemma_insert_to_multiset(before, k as int, x@);
            assert(vv.take(i + 1) =~= vv.take(i as int).push(vv[i as int]));
        }
        i += 1;
    }
    assert(vv.take(n as int) =~= vv);
    out
}

/// Scan the walked directories for git repositories: the entries whose three
/// names are not hidden and which hold `.git`, each at
/// `base/host/owner/name`, sorted by path.
pub fn scan(entries: &[ScanEntry]) -> (r: Vec<Repo>)
    ensures
        sorted_by_path(repos_view(r@)),
        repos_view(r@).to_multiset() == repos_of_entries(entries_view(entries@)).to_multiset(),
{
    let ghost ev = entries_view(entries@);
    let mut found: Vec<Repo> = Vec::new();
    let n = entries.len();
    let mut i: usize = 0;
    while i < n
        invariant
            n == entries@.len(),
            i <= n,
            ev == entries_view(entries@),
            repos_view(found@) == repos_of_entries(ev.take(i as int)),
        decreases n - i,
    {
        let e = &entries[i];
        let ghost next = ev.take(i + 1);
        assert(next.drop_last() =~= ev.take(i as int));
        assert(next.last() == e@);
        proof {
            reveal(Seq::filter);
        }
        if !is_hidden_name(&e.host) && !is_hidden_name(&e.owner) && !is_hidden_name(&e.name)
            && e.has_git {
            let path = path_join(&path_join(&path_join(&e.base, &e.host), &e.owner), &e.name);
            let repo = Repo {
                path,
                base: e.base.clone(),
                host: e.host.clone(),
                owner: e.owner.clone(),
                name: e.name.clone(),
            };
            let ghost old_found = repos_view(found@);
            found.push(repo);
            assert(next.filter(repo_entry_pred()) == ev.take(i as int).filter(repo_entry_pred()).push(e@));
            assert(repos_view(found@) =~= old_found.push(repo_of_entry(e@)));
            assert(repos_view(found@) =~= repos_of_entries(next));
        } else {
            assert(next.filter(repo_entry_pred()) == ev.take(i as int).filter(repo_entry_pred()));
        }
        assert(repos_view(found@) =~= repos_of_entries(next));
        i += 1;
    }
    assert(ev.take(n as int) =~= ev);
    sort_by_path(found)
}

} // verus!
