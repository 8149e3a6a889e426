//! Tasks: named commands from the `[tasks]` table or `~/.projj/tasks/`.
use vstd::prelude::*;

use crate::config::{
    config_dir, resolve_name, spec_config_dir, spec_in_config_dir, spec_resolve_name, Config,
};
use crate::paths::path_join;

verus! {

/// Directory for task scripts: `~/.projj/tasks/`
pub fn tasks_dir() -> (r: String)
    ensures
        exists|h: Option<Seq<char>>| r@ == spec_in_config_dir(h, "tasks"@),
{
    let d = config_dir();
    let r = path_join(&d, "tasks");
    proof {
        let h = choose|h: Option<Seq<char>>| d@ == spec_config_dir(h);
        assert(r@ == spec_in_config_dir(h, "tasks"@));
    }
    r
}

/// Resolve a task name with three-level lookup:
/// 1. `[tasks]` table in config
/// 2. Executable file in `~/.projj/tasks/`
/// 3. Raw command as-is
pub fn resolve(config: &Config, name: &str) -> (r: String)
    ensures
        exists|h: Option<Seq<char>>, found: bool|
            r@ == spec_resolve_name(config.tasks@, name@, spec_in_config_dir(h, "tasks"@), found),
{
    let dir = tasks_dir();
    let r = resolve_name(&config.tasks, name, &dir);
    proof {
        let h = choose|h: Option<Seq<char>>| dir@ == spec_in_config_dir(h, "tasks"@);
        let found = choose|found: bool| r@ == spec_resolve_name(config.tasks@, name@, dir@, found);
        assert(r@ == spec_resolve_name(config.tasks@, name@, spec_in_config_dir(h, "tasks"@), found));
    }
    r
}

} // verus!
