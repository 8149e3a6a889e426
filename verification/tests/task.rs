use projj::config::{BaseDir, Config};
use projj::table::Table;
use projj::task::{resolve, tasks_dir};

fn make_config() -> Config {
    Config {
        base: BaseDir::Single("/tmp".to_string()),
        platform: "github.com".to_string(),
        scripts: Table::new(),
        tasks: Table::new(),
        hooks: vec![],
    }
}

#[test]
fn test_resolve_from_table() {
    let mut config = make_config();
    config
        .tasks
        .insert("clean".to_string(), "rm -rf node_modules".to_string());
    assert_eq!(resolve(&config, "clean"), "rm -rf node_modules");
}

#[test]
fn test_resolve_raw_command() {
    let config = make_config();
    assert_eq!(resolve(&config, "git status"), "git status");
}

#[test]
fn test_resolve_from_tasks_dir() {
    let config = make_config();
    // the tasks directory is not a temporary one here, so the name stays raw
    assert_eq!(resolve(&config, "mytask"), "mytask");
}

#[test]
fn test_tasks_dir() {
    assert!(tasks_dir().ends_with("tasks"));
}

#[test]
fn resolve_ignores_scripts_table() {
    let mut config = make_config();
    config.scripts.insert("clean".to_string(), "from scripts".to_string());
    assert_eq!(resolve(&config, "clean"), "clean");
}
