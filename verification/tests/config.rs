use projj::config::{
    config_dir, config_dir_for, config_exists, config_path, default_platform, hooks_dir,
    resolve_name, resolve_name_found, resolve_path, BaseDir, Config,
};
use projj::table::Table;

fn config_with(base: BaseDir, scripts: Table) -> Config {
    Config {
        base,
        platform: "github.com".to_string(),
        scripts,
        tasks: Table::new(),
        hooks: vec![],
    }
}

#[test]
fn test_base_dirs_single() {
    let config = config_with(BaseDir::Single("/tmp/projj".to_string()), Table::new());
    assert_eq!(config.base_dirs(), vec!["/tmp/projj".to_string()]);
}

#[test]
fn test_base_dirs_multiple() {
    let config = config_with(
        BaseDir::Multiple(vec!["/tmp/a".to_string(), "/tmp/b".to_string()]),
        Table::new(),
    );
    assert_eq!(config.base_dirs().len(), 2);
}

#[test]
fn test_resolve_script_from_table() {
    let mut scripts = Table::new();
    scripts.insert("clean".to_string(), "rm -rf node_modules".to_string());
    let config = config_with(BaseDir::Single("/tmp".to_string()), scripts);
    assert_eq!(config.resolve_script("clean"), "rm -rf node_modules");
}

#[test]
fn test_resolve_script_raw_command() {
    let config = config_with(BaseDir::Single("/tmp".to_string()), Table::new());
    assert_eq!(config.resolve_script("git status"), "git status");
}

#[test]
fn test_resolve_script_from_hooks_dir() {
    let config = config_with(BaseDir::Single("/tmp".to_string()), Table::new());
    // "myhook" is a simple name, but no such file is in the hooks directory
    assert_eq!(config.resolve_script("myhook"), "myhook");
}

#[test]
fn test_config_dir_and_paths() {
    let dir = config_dir();
    assert!(dir.ends_with(".projj"));
    assert!(hooks_dir().ends_with("hooks"));
    assert!(config_path().ends_with("config.toml"));
}

#[test]
fn test_config_exists_false() {
    let _ = config_exists();
}

#[test]
fn resolve_name_finds_file_in_dir() {
    let dir = tempfile::tempdir().unwrap();
    let parent = dir.path().parent().unwrap().to_string_lossy().to_string();
    let name = dir.path().file_name().unwrap().to_string_lossy().to_string();
    let r = resolve_name(&Table::new(), &name, &parent);
    assert_eq!(r, dir.path().to_string_lossy().to_string());
}

#[test]
fn resolve_name_table_wins_over_file() {
    let dir = tempfile::tempdir().unwrap();
    let parent = dir.path().parent().unwrap().to_string_lossy().to_string();
    let name = dir.path().file_name().unwrap().to_string_lossy().to_string();
    let mut t = Table::new();
    t.insert(name.clone(), "rm -rf node_modules".to_string());
    assert_eq!(resolve_name(&t, &name, &parent), "rm -rf node_modules");
}

#[test]
fn resolve_name_not_simple_is_raw() {
    let dir = tempfile::tempdir().unwrap();
    let grand = dir.path().parent().unwrap().parent().unwrap().to_string_lossy().to_string();
    let parent_name = dir.path().parent().unwrap().file_name().unwrap().to_string_lossy().to_string();
    let name = dir.path().file_name().unwrap().to_string_lossy().to_string();
    let two = format!("{parent_name}/{name}");
    assert_eq!(resolve_name(&Table::new(), &two, &grand), two);
}

#[test]
fn config_dir_for_home() {
    assert_eq!(config_dir_for(Some("/home/u")), "/home/u/.projj");
    assert_eq!(config_dir_for(None), "./.projj");
}

#[test]
fn resolve_path_cases() {
    assert_eq!(resolve_path("~", "/home/u", "/home/u/.projj"), "/home/u");
    assert_eq!(resolve_path("~/projj", "/home/u", "/home/u/.projj"), "/home/u/projj");
    assert_eq!(resolve_path("/absolute/path", "/home/u", "/c"), "/absolute/path");
    assert_eq!(resolve_path("./data", "/home/u", "/home/u/.projj"), "/home/u/.projj/./data");
    assert_eq!(resolve_path("data", "/home/u", "/c"), "data");
}

#[test]
fn resolve_paths_in_multiple() {
    let mut config = config_with(
        BaseDir::Multiple(vec!["~/a".to_string(), "/b".to_string()]),
        Table::new(),
    );
    config.resolve_paths_in("/home/u", "/home/u/.projj");
    assert_eq!(config.base_dirs(), vec!["/home/u/a".to_string(), "/b".to_string()]);
    assert_eq!(config.platform, "github.com");
}

#[test]
fn resolve_paths_in_single() {
    let mut config = config_with(BaseDir::Single("~".to_string()), Table::new());
    config.resolve_paths_in("/home/u", "/home/u/.projj");
    assert_eq!(config.base_dirs(), vec!["/home/u".to_string()]);
}

#[test]
fn initial_config() {
    let c = Config::initial("/tmp/projj".to_string(), "gitlab.com".to_string());
    assert_eq!(c.base_dirs(), vec!["/tmp/projj".to_string()]);
    assert_eq!(c.platform, "gitlab.com");
    assert!(c.scripts.is_empty());
    assert!(c.tasks.is_empty());
    assert_eq!(c.hooks.len(), 1);
    assert_eq!(c.hooks[0].event, "post_add");
    assert_eq!(c.hooks[0].matcher, None);
    assert_eq!(c.hooks[0].command, None);
    assert_eq!(c.hooks[0].tasks, vec!["zoxide".to_string()]);
}

#[test]
fn default_platform_is_github() {
    assert_eq!(default_platform(), "github.com");
}

#[test]
fn table_insert_replaces() {
    let mut t = Table::new();
    assert!(t.is_empty());
    t.insert("a".to_string(), "1".to_string());
    t.insert("b".to_string(), "2".to_string());
    t.insert("a".to_string(), "3".to_string());
    assert_eq!(t.len(), 2);
    assert_eq!(t.get("a"), Some("3".to_string()));
    assert_eq!(t.get("b"), Some("2".to_string()));
    assert_eq!(t.get("c"), None);
    let e = t.entries();
    assert_eq!(e.len(), 2);
}

#[test]
fn test_choose_base_single() {
    let config = config_with(BaseDir::Single("/tmp/projj".to_string()), Table::new());
    let base = config.choose_base().unwrap();
    assert_eq!(base, "/tmp/projj");
}

#[test]
fn choose_base_several_asks() {
    let config = config_with(
        BaseDir::Multiple(vec!["/tmp/a".to_string(), "/tmp/b".to_string()]),
        Table::new(),
    );
    assert_eq!(
        config.choose_base().unwrap_err(),
        vec!["/tmp/a".to_string(), "/tmp/b".to_string()]
    );
}

#[test]
fn resolve_name_found_cases() {
    let mut t = Table::new();
    t.insert("clean".to_string(), "rm -rf node_modules".to_string());
    assert_eq!(resolve_name_found(&t, "clean", "/d", true), "rm -rf node_modules");
    assert_eq!(resolve_name_found(&t, "mytask", "/d", true), "/d/mytask");
    assert_eq!(resolve_name_found(&t, "mytask", "/d", false), "mytask");
    assert_eq!(resolve_name_found(&t, "git status", "/d", true), "git status");
    assert_eq!(resolve_name_found(&t, "a/b", "/d", true), "a/b");
}

fn home() -> std::path::PathBuf {
    dirs::home_dir().unwrap()
}

#[test]
fn test_resolve_paths_tilde() {
    let mut config = config_with(BaseDir::Single("~/projj".to_string()), Table::new());
    config.resolve_paths();
    assert_eq!(
        config.base_dirs(),
        vec![home().join("projj").to_string_lossy().to_string()]
    );
}

#[test]
fn test_resolve_paths_bare_tilde() {
    let mut config = config_with(BaseDir::Single("~".to_string()), Table::new());
    config.resolve_paths();
    assert_eq!(config.base_dirs(), vec![home().to_string_lossy().to_string()]);
}

#[test]
fn test_resolve_paths_absolute() {
    let mut config = config_with(BaseDir::Single("/absolute/path".to_string()), Table::new());
    config.resolve_paths();
    assert_eq!(config.base_dirs(), vec!["/absolute/path".to_string()]);
}

#[test]
fn test_resolve_paths_relative() {
    let mut config = config_with(BaseDir::Single("./data".to_string()), Table::new());
    config.resolve_paths();
    let expected = std::path::PathBuf::from(config_dir()).join("./data");
    assert_eq!(config.base_dirs(), vec![expected.to_string_lossy().to_string()]);
}

#[test]
fn test_resolve_paths_multiple() {
    let mut config = config_with(
        BaseDir::Multiple(vec!["~/a".to_string(), "/b".to_string()]),
        Table::new(),
    );
    config.resolve_paths();
    assert_eq!(config.base_dirs()[0], home().join("a").to_string_lossy().to_string());
    assert_eq!(config.base_dirs()[1], "/b".to_string());
}
