//! The configuration: base directories, default platform, named scripts and
//! tasks, and hooks; where its files live under `~/.projj`.
use vstd::prelude::*;

use crate::paths::{path_join, spec_path_join, strings_view};
use crate::table::Table;
use crate::text::{
    contains_char, has_prefix, path_exists, spec_strip_prefix, starts_with, strip_prefix,
};

verus! {

/// One hook: on `event`, for the repositories whose `host/owner/repo` the
/// `matcher` regex matches (all where it is absent), run `command` (a
/// script name or shell command) where there is one, then each of `tasks`
/// in order, with `env` added to the environment.
#[derive(Debug)]
pub struct HookEntry {
    pub event: String,
    pub matcher: Option<String>,
    pub command: Option<String>,
    pub tasks: Vec<String>,
    pub env: Table,
}

/// One base directory or several.
#[derive(Debug)]
pub enum BaseDir {
    Single(String),
    Multiple(Vec<String>),
}

/// The whole configuration file.
#[derive(Debug)]
pub struct Config {
    pub base: BaseDir,
    pub platform: String,
    pub scripts: Table,
    pub tasks: Table,
    pub hooks: Vec<HookEntry>,
}

/// The platform of short `owner/repo` arguments when the file names none.
pub fn default_platform() -> (r: String)
    ensures
        r@ == "github.com"@,
{
    String::from_str("github.com")
}

/// The base directories, in order.
pub open spec fn spec_base_dirs(base: BaseDir) -> Seq<Seq<char>> {
    match base {
        BaseDir::Single(s) => seq![s@],
        BaseDir::Multiple(v) => strings_view(v@),
    }
}

/// Where a configured base path points: `~` is the home directory, `~/rest`
/// is under it, a path starting with `.` is under the configuration
/// directory, anything else stays as written.
pub open spec fn spec_resolve_path(s: Seq<char>, home: Seq<char>, config_dir: Seq<char>) -> Seq<
    char,
> {
    if s == seq!['~'] {
        home
    } else if has_prefix(s, seq!['~', '/']) {
        spec_path_join(home, s.subrange(2, s.len() as int))
    } else if s.len() > 0 && s[0] == '.' {
        spec_path_join(config_dir, s)
    } else {
        s
    }
}

/// The configuration directory `~/.projj`, given the home directory where
/// there is one (the current directory `.` where there is none).
pub open spec fn spec_config_dir(home: Option<Seq<char>>) -> Seq<char> {
    spec_path_join(
        match home {
            Some(h) => h,
            None => seq!['.'],
        },
        ".projj"@,
    )
}

/// A file or directory directly in the configuration directory.
pub open spec fn spec_in_config_dir(home: Option<Seq<char>>, name: Seq<char>) -> Seq<char> {
    spec_path_join(spec_config_dir(home), name)
}

/// Calls `dirs::home_dir` and turns the path into a string
/// (`to_string_lossy`). The answer comes from the environment (`$HOME`, the
/// password database), so nothing is stated of it.
#[verifier::external_body]
fn home_dir() -> Option<String> {
    dirs::home_dir().map(|p| p.to_string_lossy().to_string())
}

/// `~/.projj` for the home directory `home`.
pub fn config_dir_for(home: Option<&str>) -> (r: String)
    ensures
        r@ == spec_config_dir(
            match home {
                Some(h) => Some(h@),
                None => None,
            },
        ),
{
    proof {
        reveal_strlit(".");
    }
    match home {
        Some(h) => path_join(h, ".projj"),
        None => path_join(".", ".projj"),
    }
}

/// The home directory where there is one, else the empty path.
pub open spec fn home_or_empty(h: Option<Seq<char>>) -> Seq<char> {
    match h {
        Some(x) => x,
        None => Seq::empty(),
    }
}

/// The view of an optional string.
pub open spec fn opt_view(o: Option<String>) -> Option<Seq<char>> {
    match o {
        Some(s) => Some(s@),
        None => None,
    }
}

/// The configuration directory `~/.projj`.
pub fn config_dir() -> (r: String)
    ensures
        exists|h: Option<Seq<char>>| r@ == spec_config_dir(h),
{
    let home = home_dir();
    let r = match &home {
        Some(h) => config_dir_for(Some(h.as_str())),
        None => config_dir_for(None),
    };
    assert(r@ == spec_config_dir(opt_view(home)));
    r
}

/// `~/.projj/hooks`, where named hook scripts live.
pub fn hooks_dir() -> (r: String)
    ensures
        exists|h: Option<Seq<char>>| r@ == spec_in_config_dir(h, "hooks"@),
{
    let d = config_dir();
    let r = path_join(&d, "hooks");
    proof {
        let h = choose|h: Option<Seq<char>>| d@ == spec_config_dir(h);
        assert(r@ == spec_in_config_dir(h, "hooks"@));
    }
    r
}

/// `~/.projj/config.toml`.
pub fn config_path() -> (r: String)
    ensures
        exists|h: Option<Seq<char>>| r@ == spec_in_config_dir(h, "config.toml"@),
{
    let d = config_dir();
    let r = path_join(&d, "config.toml");
    proof {
        let h = choose|h: Option<Seq<char>>| d@ == spec_config_dir(h);
        assert(r@ == spec_in_config_dir(h, "config.toml"@));
    }
    r
}

/// Whether `~/.projj/config.toml` is there, on the disk as it is now.
pub fn config_exists() -> bool {
    path_exists(&config_path())
}

/// Resolve one configured base path (see `spec_resolve_path`).
pub fn resolve_path(s: &str, home: &str, config_dir: &str) -> (r: String)
    ensures
        r@ == spec_resolve_path(s@, home@, config_dir@),
{
    proof {
        reveal_strlit("~/");
    }
    let n = s.unicode_len();
    if n == 1 && s.get_char(0) == '~' {
        assert(s@ =~= seq!['~']);
        String::from_str(home)
    } else {
        assert(s@ != seq!['~']) by {
            if s@ == seq!['~'] {
                assert(s@.len() == 1 && s@[0] == '~');
            }
        }
        match strip_prefix(s, "~/") {
            Some(rest) => {
                assert("~/"@ =~= seq!['~', '/']);
                path_join(home, &rest)
            },
            None => {
                assert("~/"@ =~= seq!['~', '/']);
                if n > 0 && s.get_char(0) == '.' {
                    path_join(config_dir, s)
                } else {
                    String::from_str(s)
                }
            },
        }
    }
}

/// Configuration at the views of its parts that resolving touches.
pub open spec fn same_but_base(a: Config, b: Config) -> bool {
    &&& a.platform == b.platform
    &&& a.scripts == b.scripts
    &&& a.tasks == b.tasks
    &&& a.hooks == b.hooks
}

/// `base` after resolving every path in it against `home` and `config_dir`.
pub open spec fn base_resolved(
    before: BaseDir,
    after: BaseDir,
    home: Seq<char>,
    config_dir: Seq<char>,
) -> bool {
    match (before, after) {
        (BaseDir::Single(s), BaseDir::Single(t)) => t@ == spec_resolve_path(s@, home, config_dir),
        (BaseDir::Multiple(v), BaseDir::Multiple(w)) => w@.len() == v@.len() && forall|i: int|
            0 <= i < v@.len() ==> #[trigger] w@[i]@ == spec_resolve_path(v@[i]@, home, config_dir),
        _ => false,
    }
}

impl Config {
    /// A fresh configuration: one base directory, the given default platform,
    /// no scripts or tasks, and one hook that runs the task `zoxide` after
    /// `add`.
    pub fn initial(base: String, platform: String) -> (r: Config)
        ensures
            r.base == BaseDir::Single(base),
            r.platform == platform,
            r.scripts@ == Map::<Seq<char>, Seq<char>>::empty(),
            r.tasks@ == Map::<Seq<char>, Seq<char>>::empty(),
            r.hooks@.len() == 1,
            r.hooks@[0].event@ == "post_add"@,
            r.hooks@[0].matcher is None,
            r.hooks@[0].command is None,
            strings_view(r.hooks@[0].tasks@) == seq!["zoxide"@],
            r.hooks@[0].env@ == Map::<Seq<char>, Seq<char>>::empty(),
    {
        let hook = HookEntry {
            event: String::from_str("post_add"),
            matcher: None,
            command: None,
            tasks: vec![String::from_str("zoxide")],
            env: Table::new(),
        };
        assert(strings_view(hook.tasks@) =~= seq!["zoxide"@]);
        let mut hooks: Vec<HookEntry> = Vec::new();
        hooks.push(hook);
        Config { base: BaseDir::Single(base), platform, scripts: Table::new(), tasks: Table::new(), hooks }
    }

    /// The base directories, in order.
    pub fn base_dirs(&self) -> (r: Vec<String>)
        ensures
            strings_view(r@) == spec_base_dirs(self.base),
    {
        match &self.base {
            BaseDir::Single(s) => {
                let mut v: Vec<String> = Vec::new();
                v.push(s.clone());
                assert(strings_view(v@) =~= seq![s@]);
                v
            },
            BaseDir::Multiple(v) => {
                let mut out: Vec<String> = Vec::new();
                let n = v.len();
                let mut i: usize = 0;
                while i < n
                    invariant
                        n == v@.len(),
                        i <= n,
                        out@ == v@.take(i as int),
                    decreases n - i,
                {
                    out.push(v[i].clone());
                    assert(out@ =~= v@.take(i + 1));
                    i += 1;
                }
                assert(out@ =~= v@);
                out
            },
        }
    }

    /// Choose a base directory: the only one directly (`Ok`); where there
    /// are several (or none), the list to ask the user from (`Err`).
    pub fn choose_base(&self) -> (r: Result<String, Vec<String>>)
        ensures
            spec_base_dirs(self.base).len() == 1 ==> (r matches Ok(d) && d@ == spec_base_dirs(
                self.base,
            )[0]),
            spec_base_dirs(self.base).len() != 1 ==> (r matches Err(v) && strings_view(v@)
                == spec_base_dirs(self.base)),
    {
        let dirs = self.base_dirs();
        if dirs.len() == 1 {
            let d = dirs[0].clone();
            assert(strings_view(dirs@)[0] == dirs@[0]@);
            Ok(d)
        } else {
            Err(dirs)
        }
    }

    /// Resolve every base path against the given home and configuration
    /// directories.
    pub fn resolve_paths_in(&mut self, home: &str, config_dir: &str)
        ensures
            base_resolved(old(self).base, final(self).base, home@, config_dir@),
            same_but_base(*old(self), *final(self)),
    {
        let new_base = match &self.base {
            BaseDir::Single(s) => BaseDir::Single(resolve_path(s, home, config_dir)),
            BaseDir::Multiple(v) => {
                let mut out: Vec<String> = Vec::new();
                let n = v.len();
                let mut i: usize = 0;
                while i < n
                    invariant
                        n == v@.len(),
                        i <= n,
                        out@.len() == i,
                        forall|j: int|
                            0 <= j < i ==> #[trigger] out@[j]@ == spec_resolve_path(
                                v@[j]@,
                                home@,
                                config_dir@,
                            ),
                    decreases n - i,
                {
                    out.push(resolve_path(&v[i], home, config_dir));
                    i += 1;
                }
                BaseDir::Multiple(out)
            },
        };
        self.base = new_base;
    }

    /// Resolve every base path against the user's home directory (empty
    /// where there is none) and the configuration directory `~/.projj` of
    /// that same home, as found in the environment now.
    pub fn resolve_paths(&mut self)
        ensures
            exists|h: Option<Seq<char>>|
                base_resolved(
                    old(self).base,
                    final(self).base,
                    home_or_empty(h),
                    #[trigger] spec_config_dir(h),
                ),
            same_but_base(*old(self), *final(self)),
    {
        let home = home_dir();
        let (home_text, dir) = match &home {
            Some(h) => (h.clone(), config_dir_for(Some(h.as_str()))),
            None => (String::new(), config_dir_for(None)),
        };
        assert(home_text@ == home_or_empty(opt_view(home)));
        assert(dir@ == spec_config_dir(opt_view(home)));
        self.resolve_paths_in(&home_text, &dir);
    }

    /// Resolve a script name with three-level lookup:
    /// 1. `scripts` table in config
    /// 2. Executable file in `~/.projj/hooks/`
    /// 3. Raw command as-is
    pub fn resolve_script(&self, name: &str) -> (r: String)
        ensures
            exists|h: Option<Seq<char>>, found: bool|
                r@ == spec_resolve_name(self.scripts@, name@, spec_in_config_dir(h, "hooks"@), found),
    {
        let dir = hooks_dir();
        let r = resolve_name(&self.scripts, name, &dir);
        proof {
            let h = choose|h: Option<Seq<char>>| dir@ == spec_in_config_dir(h, "hooks"@);
            let found = choose|found: bool| r@ == spec_resolve_name(self.scripts@, name@, dir@, found);
            assert(r@ == spec_resolve_name(self.scripts@, name@, spec_in_config_dir(h, "hooks"@), found));
        }
        r
    }
}

/// A name that may stand for a file in a script directory: no space, no `/`.
pub open spec fn is_simple_name(name: Seq<char>) -> bool {
    !name.contains(' ') && !name.contains('/')
}

/// The three-level lookup of a script or task name: its value in `table`;
/// else, for a simple name whose file in `dir` exists (`found`), that file's
/// path; else the name itself as a raw command.
pub open spec fn spec_resolve_name(
    table: Map<Seq<char>, Seq<char>>,
    name: Seq<char>,
    dir: Seq<char>,
    found: bool,
) -> Seq<char> {
    if table.contains_key(name) {
        table[name]
    } else if is_simple_name(name) && found {
        spec_path_join(dir, name)
    } else {
        name
    }
}

/// The lookup once it is known whether the file `dir/name` is there
/// (`found`): the table's value, else that file for a simple name, else the
/// name as a raw command.
pub fn resolve_name_found(table: &Table, name: &str, dir: &str, found: bool) -> (r: String)
    ensures
        r@ == spec_resolve_name(table@, name@, dir@, found),
{
    match table.get(name) {
        Some(v) => v,
        None => {
            if found && !contains_char(name, ' ') && !contains_char(name, '/') {
                path_join(dir, name)
            } else {
                String::from_str(name)
            }
        },
    }
}

/// The lookup of `name` in `table`, then as a file in `dir` (looked up on
/// the disk only for a simple name that the table lacks), then as a raw
/// command.
pub fn resolve_name(table: &Table, name: &str, dir: &str) -> (r: String)
    ensures
        exists|found: bool| r@ == spec_resolve_name(table@, name@, dir@, found),
{
    let in_table = table.get(name).is_some();
    let found = if !in_table && !contains_char(name, ' ') && !contains_char(name, '/') {
        path_exists(&path_join(dir, name))
    } else {
        false
    };
    resolve_name_found(table, name, dir, found)
}

} // verus!
