//! Hooks: which configured hooks an event runs for a repository, and the
//! context and environment they are given.
use vstd::prelude::*;

use crate::config::{spec_in_config_dir, spec_resolve_name, Config, HookEntry};
use crate::paths::strings_view;
use crate::task::resolve;
use crate::git::spec_ssh_url;
use crate::table::{pairs_view, Table};
use crate::text::{join2, join3, spec_split_once, split_once, str_eq};

verus! {

/// `regex_lite::Regex`, declared so that a compiled regex can be held in a
/// field and carried through; nothing inside it is visible here.
#[verifier::external_type_specification]
#[verifier::external_body]
pub struct ExRegex(regex_lite::Regex);

/// What `regex_lite::Regex::new(pattern)` reports: nothing where the
/// pattern compiles, else the text of its error.
pub uninterp spec fn regex_error(pattern: Seq<char>) -> Option<Seq<char>>;

/// Whether the regex compiled from `pattern` matches somewhere in `text`
/// (`regex_lite::Regex::is_match`).
pub uninterp spec fn regex_matches(pattern: Seq<char>, text: Seq<char>) -> bool;

/// A compiled regular expression together with the pattern it came from.
pub(crate) struct Pattern {
    source: String,
    re: regex_lite::Regex,
}

impl View for Pattern {
    type V = Seq<char>;

    closed spec fn view(&self) -> Seq<char> {
        self.source@
    }
}

impl Pattern {
    /// Calls `regex_lite::Regex::new(pattern)`. Whether it compiles, and the
    /// `Display` text of its error where it does not, are named
    /// `regex_error` of the pattern: they depend on the pattern alone. The
    /// `Pattern` remembers the pattern it was compiled from.
    #[verifier::external_body]
    pub(crate) fn compile(pattern: &str) -> (r: Result<Pattern, String>)
        ensures
            match r {
                Ok(p) => regex_error(pattern@) is None && p@ == pattern@,
                Err(e) => regex_error(pattern@) == Some(e@),
            },
    {
        match regex_lite::Regex::new(pattern) {
            Ok(re) => Ok(Pattern { source: pattern.to_string(), re }),
            Err(e) => Err(e.to_string()),
        }
    }

    /// Calls `regex_lite::Regex::is_match(text)` on the compiled regex; the
    /// answer is named `regex_matches` of the pattern and the text.
    #[verifier::external_body]
    pub(crate) fn is_match(&self, text: &str) -> (r: bool)
        ensures
            r == regex_matches(self@, text@),
    {
        self.re.is_match(text)
    }
}

/// The pattern matches all repositories without compiling: absent, empty or `*`.
pub open spec fn matches_all(matcher: Option<Seq<char>>) -> bool {
    match matcher {
        None => true,
        Some(p) => p.len() == 0 || p == seq!['*'],
    }
}

/// `repo_key` matches a matcher regex. None/empty/`*` = match all; an
/// invalid regex matches nothing.
pub open spec fn spec_matches_repo(matcher: Option<Seq<char>>, repo_key: Seq<char>) -> bool {
    match matcher {
        None => true,
        Some(p) => matches_all(matcher) || (regex_error(p) is None && regex_matches(p, repo_key)),
    }
}

/// The view of an optional string slice.
pub open spec fn opt_str_view(o: Option<&str>) -> Option<Seq<char>> {
    match o {
        Some(s) => Some(s@),
        None => None,
    }
}

/// The view of an optional string.
pub open spec fn opt_string_view(o: Option<String>) -> Option<Seq<char>> {
    match o {
        Some(s) => Some(s@),
        None => None,
    }
}

/// Check if `repo_key` matches a matcher regex. None/empty = match all.
pub fn matches_repo(matcher: Option<&str>, repo_key: &str) -> (r: bool)
    ensures
        r == spec_matches_repo(opt_str_view(matcher), repo_key@),
{
    match matcher {
        None => true,
        Some(p) => {
            let n = p.unicode_len();
            if n == 0 || (n == 1 && p.get_char(0) == '*') {
                assert(n == 1 && p@[0] == '*' ==> p@ =~= seq!['*']);
                true
            } else {
                assert(p@ != seq!['*']) by {
                    if p@ == seq!['*'] {
                        assert(p@.len() == 1 && p@[0] == '*');
                    }
                }
                match Pattern::compile(p) {
                    Ok(re) => re.is_match(repo_key),
                    Err(_) => false,
                }
            }
        },
    }
}

/// The hook runs for `event` on `repo_key`.
pub open spec fn hook_applies(h: HookEntry, event: Seq<char>, repo_key: Seq<char>) -> bool {
    h.event@ == event && spec_matches_repo(opt_string_view(h.matcher), repo_key)
}

/// The positions, in order, of the hooks of `config` that run for `event`
/// on the repository `repo_key`.
pub fn matching_hooks(config: &Config, event: &str, repo_key: &str) -> (r: Vec<usize>)
    ensures
        forall|k: int|
            0 <= k < r@.len() ==> #[trigger] r@[k] < config.hooks@.len() && hook_applies(
                config.hooks@[r@[k] as int],
                event@,
                repo_key@,
            ),
        forall|a: int, b: int| 0 <= a < b < r@.len() ==> #[trigger] r@[a] < #[trigger] r@[b],
        forall|i: int|
            0 <= i < config.hooks@.len() && hook_applies(config.hooks@[i], event@, repo_key@)
                ==> r@.contains(i as usize),
{
    let n = config.hooks.len();
    let mut out: Vec<usize> = Vec::new();
    let mut i: usize = 0;
    while i < n
        invariant
            n == config.hooks@.len(),
            i <= n,
            forall|k: int|
                0 <= k < out@.len() ==> #[trigger] out@[k] < i && hook_applies(
                    config.hooks@[out@[k] as int],
                    event@,
                    repo_key@,
                ),
            forall|a: int, b: int| 0 <= a < b < out@.len() ==> #[trigger] out@[a] < #[trigger] out@[b],
            forall|j: int|
                0 <= j < i && hook_applies(config.hooks@[j], event@, repo_key@) ==> out@.contains(
                    j as usize,
                ),
        decreases n - i,
    {
        let h = &config.hooks[i];
        let applies = str_eq(&h.event, event) && match &h.matcher {
            Some(m) => matches_repo(Some(m.as_str()), repo_key),
            None => matches_repo(None, repo_key),
        };
        if applies {
            let ghost old_out = out@;
            out.push(i);
            assert forall|j: int|
                0 <= j < i + 1 && hook_applies(config.hooks@[j], event@, repo_key@) implies out@.contains(
                j as usize,
            ) by {
                if j < i {
                    let k = choose|k: int| 0 <= k < old_out.len() && old_out[k] == j as usize;
                    assert(out@[k] == j as usize);
                } else {
                    assert(out@[old_out.len() as int] == i);
                }
            }
        }
        i += 1;
    }
    out
}

/// What a hook learns of the repository.
#[derive(Debug)]
pub struct HookRepoInfo {
    pub path: String,
    pub host: String,
    pub owner: String,
    pub name: String,
    pub git_url: String,
}

/// Repo context passed to hooks via stdin JSON and env vars.
#[derive(Debug)]
pub struct HookContext {
    pub event: String,
    pub repo: HookRepoInfo,
}

/// `host/owner/name` split into its three parts (the name keeps any further
/// slashes); a key with fewer than two slashes is all name.
pub open spec fn spec_key_parts(key: Seq<char>) -> (Seq<char>, Seq<char>, Seq<char>) {
    match spec_split_once(key, '/') {
        Some((a, rest)) => match spec_split_once(rest, '/') {
            Some((b, c)) => (a, b, c),
            None => (Seq::empty(), Seq::empty(), key),
        },
        None => (Seq::empty(), Seq::empty(), key),
    }
}

/// The SSH URL of the repository, or empty where the key has no host.
pub open spec fn spec_context_url(host: Seq<char>, owner: Seq<char>, name: Seq<char>) -> Seq<char> {
    if host.len() == 0 {
        Seq::empty()
    } else {
        spec_ssh_url(host, owner, name)
    }
}

/// The context of `event` for the repository `repo_key` checked out at `cwd`.
pub open spec fn context_of(
    ctx: HookContext,
    event: Seq<char>,
    repo_key: Seq<char>,
    cwd: Seq<char>,
) -> bool {
    let (host, owner, name) = spec_key_parts(repo_key);
    &&& ctx.event@ == event
    &&& ctx.repo.path@ == cwd
    &&& ctx.repo.host@ == host
    &&& ctx.repo.owner@ == owner
    &&& ctx.repo.name@ == name
    &&& ctx.repo.git_url@ == spec_context_url(host, owner, name)
}

/// Build the repo context of a hook run from repo_key (host/owner/name).
pub fn hook_context(event: &str, repo_key: &str, cwd: &str) -> (r: HookContext)
    ensures
        context_of(r, event@, repo_key@, cwd@),
{
    let (host, owner, name) = match split_once(repo_key, '/') {
        Some((a, rest)) => match split_once(&rest, '/') {
            Some((b, c)) => (a, b, c),
            None => (String::new(), String::new(), String::from_str(repo_key)),
        },
        None => (String::new(), String::new(), String::from_str(repo_key)),
    };
    let git_url = if host.unicode_len() == 0 {
        String::new()
    } else {
        let a = join3("git@", &host, ":");
        let b = join3(&a, &owner, "/");
        join3(&b, &name, ".git")
    };
    HookContext {
        event: String::from_str(event),
        repo: HookRepoInfo { path: String::from_str(cwd), host, owner, name, git_url },
    }
}

/// The names of the `PROJJ_*` variables, in the order they are set.
pub open spec fn projj_names() -> Seq<Seq<char>> {
    seq![
        "PROJJ_EVENT"@,
        "PROJJ_REPO_PATH"@,
        "PROJJ_REPO_HOST"@,
        "PROJJ_REPO_OWNER"@,
        "PROJJ_REPO_NAME"@,
        "PROJJ_REPO_URL"@,
    ]
}

/// The `PROJJ_*` variables of a context, in the order they are set.
pub open spec fn projj_vars(ctx: HookContext) -> Seq<(Seq<char>, Seq<char>)> {
    seq![
        ("PROJJ_EVENT"@, ctx.event@),
        ("PROJJ_REPO_PATH"@, ctx.repo.path@),
        ("PROJJ_REPO_HOST"@, ctx.repo.host@),
        ("PROJJ_REPO_OWNER"@, ctx.repo.owner@),
        ("PROJJ_REPO_NAME"@, ctx.repo.name@),
        ("PROJJ_REPO_URL"@, ctx.repo.git_url@),
    ]
}

/// One variable setting: `name` and a copy of `value`.
fn var(name: &str, value: &String) -> (r: (String, String))
    ensures
        r.0@ == name@,
        r.1@ == value@,
{
    (String::from_str(name), value.clone())
}

/// The environment a hook runs with, set in this order (a later setting of
/// a name wins): the hook's own `env`, then the `PROJJ_*` variables of the
/// context.
pub fn hook_env(env: &Table, ctx: &HookContext) -> (r: Vec<(String, String)>)
    ensures
        pairs_view(r@) == env.entries_view() + projj_vars(*ctx),
{
    let mut out = env.entries();
    let ghost first = pairs_view(out@);
    assert(first == env.entries_view());
    out.push(var("PROJJ_EVENT", &ctx.event));
    out.push(var("PROJJ_REPO_PATH", &ctx.repo.path));
    out.push(var("PROJJ_REPO_HOST", &ctx.repo.host));
    out.push(var("PROJJ_REPO_OWNER", &ctx.repo.owner));
    out.push(var("PROJJ_REPO_NAME", &ctx.repo.name));
    out.push(var("PROJJ_REPO_URL", &ctx.repo.git_url));
    assert(pairs_view(out@) =~= first + projj_vars(*ctx));
    out
}

// ── the plan of a hook run ──

/// What a hook runs, in order: its `command` as a script name where it has
/// one (`true`), then each of its `tasks` as a task name (`false`).
pub open spec fn hook_steps(h: HookEntry) -> Seq<(bool, Seq<char>)> {
    let tasks = strings_view(h.tasks@).map_values(|t: Seq<char>| (false, t));
    match h.command {
        Some(c) => seq![(true, c@)] + tasks,
        None => tasks,
    }
}

/// `script` is what one step resolves to: a script name through the
/// `scripts` table and `~/.projj/hooks/`, a task name through the `tasks`
/// table and `~/.projj/tasks/`, else the name as a raw command.
pub open spec fn step_resolved(config: Config, step: (bool, Seq<char>), script: Seq<char>) -> bool {
    if step.0 {
        exists|h: Option<Seq<char>>, found: bool|
            script == spec_resolve_name(config.scripts@, step.1, spec_in_config_dir(h, "hooks"@), found)
    } else {
        exists|h: Option<Seq<char>>, found: bool|
            script == spec_resolve_name(config.tasks@, step.1, spec_in_config_dir(h, "tasks"@), found)
    }
}

/// The scripts of one hook, resolved, in the order they run.
pub fn hook_scripts(config: &Config, h: &HookEntry) -> (r: Vec<String>)
    ensures
        r@.len() == hook_steps(*h).len(),
        forall|k: int|
            0 <= k < r@.len() ==> step_resolved(*config, hook_steps(*h)[k], #[trigger] r@[k]@),
{
    let ghost steps = hook_steps(*h);
    let ghost tv = strings_view(h.tasks@);
    let mut out: Vec<String> = Vec::new();
    let offset: usize = match &h.command {
        Some(c) => {
            let s = config.resolve_script(c);
            assert(steps[0] == (true, c@));
            proof {
                let (wh, wf) = choose|wh: Option<Seq<char>>, wf: bool|
                    s@ == spec_resolve_name(config.scripts@, c@, spec_in_config_dir(wh, "hooks"@), wf);
                assert(s@ == spec_resolve_name(config.scripts@, steps[0].1, spec_in_config_dir(wh, "hooks"@), wf));
            }
            out.push(s);
            assert(out@[0] == s);
            1
        },
        None => 0,
    };
    assert(steps.len() == offset + tv.len());
    let n = h.tasks.len();
    let mut i: usize = 0;
    while i < n
        invariant
            n == h.tasks@.len(),
            tv == strings_view(h.tasks@),
            steps == hook_steps(*h),
            steps.len() == offset + n,
            offset <= 1,
            i <= n,
            out@.len() == offset + i,
            forall|j: int| 0 <= j < offset + i ==> step_resolved(*config, steps[j], #[trigger] out@[j]@),
            forall|j: int| 0 <= j < n ==> #[trigger] steps[offset + j] == (false, tv[j]),
        decreases n - i,
    {
        let t = resolve(config, &h.tasks[i]);
        assert(tv[i as int] == h.tasks@[i as int]@);
        assert(steps[offset + i] == (false, tv[i as int]));
        proof {
            let (wh, wf) = choose|wh: Option<Seq<char>>, wf: bool|
                t@ == spec_resolve_name(config.tasks@, h.tasks@[i as int]@, spec_in_config_dir(wh, "tasks"@), wf);
            assert(t@ == spec_resolve_name(config.tasks@, steps[offset + i].1, spec_in_config_dir(wh, "tasks"@), wf));
            assert(step_resolved(*config, steps[offset + i], t@));
        }
        let ghost before = out@;
        out.push(t);
        assert forall|j: int| 0 <= j < offset + i + 1 implies step_resolved(
            *config,
            steps[j],
            #[trigger] out@[j]@,
        ) by {
            if j < offset + i {
                assert(out@[j] == before[j]);
            } else {
                assert(out@[j] == t);
            }
        }
        i += 1;
    }
    out
}

/// One hook to run: its place among the configured hooks, its scripts in
/// order, and the environment they run with.
#[derive(Debug)]
pub struct HookRun {
    pub hook: usize,
    pub scripts: Vec<String>,
    pub env: Vec<(String, String)>,
}

/// `run` is the plan of hook `i` of `config` in the context `ctx`.
pub open spec fn run_of(config: Config, run: HookRun, ctx: HookContext) -> bool {
    let h = config.hooks@[run.hook as int];
    &&& run.hook < config.hooks@.len()
    &&& run.scripts@.len() == hook_steps(h).len()
    &&& forall|k: int|
        0 <= k < run.scripts@.len() ==> step_resolved(config, hook_steps(h)[k], #[trigger] run.scripts@[k]@)
    &&& pairs_view(run.env@) == h.env.entries_view() + projj_vars(ctx)
}

/// What running the hooks of `event` for `repo_key` in `cwd` comes to: the
/// context handed to every script, and, in the order of the configuration,
/// one run for each hook whose event is `event` and whose matcher matches
/// `repo_key`.
pub fn plan_hooks(config: &Config, event: &str, repo_key: &str, cwd: &str) -> (r: (
    Vec<HookRun>,
    HookContext,
))
    ensures
        context_of(r.1, event@, repo_key@, cwd@),
        forall|k: int| 0 <= k < r.0@.len() ==> run_of(*config, #[trigger] r.0@[k], r.1),
        forall|k: int|
            0 <= k < r.0@.len() ==> hook_applies(
                config.hooks@[#[trigger] r.0@[k].hook as int],
                event@,
                repo_key@,
            ),
        forall|a: int, b: int|
            0 <= a < b < r.0@.len() ==> #[trigger] r.0@[a].hook < #[trigger] r.0@[b].hook,
        forall|i: int|
            0 <= i < config.hooks@.len() && hook_applies(config.hooks@[i], event@, repo_key@)
                ==> exists|k: int| 0 <= k < r.0@.len() && #[trigger] r.0@[k].hook == i,
{
    let idx = matching_hooks(config, event, repo_key);
    let ctx = hook_context(event, repo_key, cwd);
    let hook_count = config.hooks.len();
    let mut runs: Vec<HookRun> = Vec::new();
    let n = idx.len();
    let mut k: usize = 0;
    while k < n
        invariant
            n == idx@.len(),
            k <= n,
            runs@.len() == k,
            forall|j: int| 0 <= j < k ==> #[trigger] runs@[j].hook == idx@[j],
            forall|j: int| 0 <= j < k ==> run_of(*config, #[trigger] runs@[j], ctx),
            forall|j: int| 0 <= j < idx@.len() ==> #[trigger] idx@[j] < config.hooks@.len(),
        decreases n - k,
    {
        let i = idx[k];
        let h = &config.hooks[i];
        let scripts = hook_scripts(config, h);
        let env = hook_env(&h.env, &ctx);
        let run = HookRun { hook: i, scripts, env };
        assert(run_of(*config, run, ctx));
        runs.push(run);
        k += 1;
    }
    proof {
        assert forall|i: int|
            0 <= i < config.hooks@.len() && hook_applies(config.hooks@[i], event@, repo_key@)
                implies exists|k: int| 0 <= k < runs@.len() && #[trigger] runs@[k].hook == i by {
            assert(i < hook_count);
            assert(idx@.contains(i as usize));
            let w = choose|w: int| 0 <= w < idx@.len() && idx@[w] == i as usize;
            assert(runs@[w].hook == idx@[w]);
            assert(runs@[w].hook == i);
        }
    }
    (runs, ctx)
}

/// How a finished command is answered: success, or failure with its exit
/// code (`-1` where it was killed by a signal and has none).
pub fn exit_status_result(success: bool, code: Option<i32>) -> (r: Result<(), i32>)
    ensures
        success ==> r is Ok,
        !success ==> r == Err::<(), i32>(
            match code {
                Some(c) => c,
                None => -1i32,
            },
        ),
{
    if success {
        Ok(())
    } else {
        match code {
            Some(c) => Err(c),
            None => Err(-1),
        }
    }
}

// ── running a plan ──

/// Where a hook run stands: the next script to run (the `script`-th of run
/// `hook` of the plan), all done, or stopped by a script that failed with
/// the given exit code.
#[derive(Debug, Clone, Copy, PartialEq, Eq, Structural)]
pub enum HookStep {
    Run { hook: usize, script: usize },
    Done,
    Failed(i32),
}

/// Run `k` of the plan has a `j`-th script.
pub open spec fn is_script(runs: Seq<HookRun>, k: int, j: int) -> bool {
    0 <= k < runs.len() && 0 <= j < runs[k].scripts@.len()
}

/// Position `(k, j)` comes no later than `(a, b)`: run by run, and within a
/// run script by script.
pub open spec fn pos_le(k: int, j: int, a: int, b: int) -> bool {
    k < a || (k == a && j <= b)
}

/// The first script at or after position `(k, j)`, or `Done` where there is
/// none.
pub open spec fn step_from(runs: Seq<HookRun>, k: int, j: int) -> HookStep
    decreases runs.len() - k,
{
    if k >= runs.len() || k < 0 {
        HookStep::Done
    } else if 0 <= j < runs[k].scripts@.len() {
        HookStep::Run { hook: k as usize, script: j as usize }
    } else {
        step_from(runs, k + 1, 0)
    }
}

/// The first script at or after position `(k, j)`.
fn find_step(runs: &Vec<HookRun>, k: usize, j: usize) -> (r: HookStep)
    requires
        k <= runs@.len(),
    ensures
        r == step_from(runs@, k as int, j as int),
{
    let n = runs.len();
    let mut a = k;
    let mut b = j;
    while a < n
        invariant
            n == runs@.len(),
            k <= a <= n,
            step_from(runs@, a as int, b as int) == step_from(runs@, k as int, j as int),
        decreases n - a,
    {
        if b < runs[a].scripts.len() {
            return HookStep::Run { hook: a, script: b };
        }
        a += 1;
        b = 0;
    }
    HookStep::Done
}

/// Where running a plan starts: its first script, or `Done` where it has
/// none.
pub fn first_step(runs: &Vec<HookRun>) -> (r: HookStep)
    ensures
        r == step_from(runs@, 0, 0),
{
    find_step(runs, 0, 0)
}

/// What follows once script `script` of run `hook` has finished: on
/// success the next script of the plan (or `Done`), on failure a stop with
/// its exit code (`-1` where it has none), so that no later script runs.
pub fn next_step(runs: &Vec<HookRun>, hook: usize, script: usize, success: bool, code: Option<i32>) -> (r: HookStep)
    requires
        is_script(runs@, hook as int, script as int),
    ensures
        success ==> r == step_from(runs@, hook as int, script + 1),
        !success ==> r == HookStep::Failed(
            match code {
                Some(c) => c,
                None => -1i32,
            },
        ),
{
    let count = runs[hook].scripts.len();
    assert(script < count);
    match exit_status_result(success, code) {
        Ok(()) => find_step(runs, hook, script + 1),
        Err(c) => HookStep::Failed(c),
    }
}

} // verus!
