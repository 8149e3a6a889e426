# projj

Keeps git checkouts under `base/host/owner/repo`, finds them again by
keyword, and runs tasks and hooks in them.

- `src/` is the library, written in Verus: parsing repository arguments,
  where a checkout goes, scanning and sorting what is on disk, keyword
  search, the configuration's lookups (scripts, tasks, hooks), hook plans
  and their environment, and every line the commands print. Each function
  carries a contract that Verus proves; `src/laws.rs` states the properties
  that tie several functions together.
- `app/` is the command-line program around it: argument parsing, the
  configuration file, walking directories, running git, fzf, shell commands
  and hooks.
- `tests/` runs the library on concrete values.
