use projj::config::{BaseDir, Config, HookEntry};
use projj::hook::{
    exit_status_result, hook_context, hook_env, hook_scripts, matches_repo, matching_hooks,
    first_step, next_step, plan_hooks, HookRun, HookStep,
};
use projj::table::Table;

#[test]
fn test_matches_repo_none() {
    assert!(matches_repo(None, "github.com/popomore/projj"));
}

#[test]
fn test_matches_repo_empty() {
    assert!(matches_repo(Some(""), "github.com/popomore/projj"));
}

#[test]
fn test_matches_repo_wildcard() {
    assert!(matches_repo(Some("*"), "github.com/popomore/projj"));
}

#[test]
fn test_matches_repo_exact_host() {
    assert!(matches_repo(Some("github\\.com"), "github.com/popomore/projj"));
    assert!(!matches_repo(Some("gitlab\\.com"), "github.com/popomore/projj"));
}

#[test]
fn test_matches_repo_owner_pattern() {
    assert!(matches_repo(Some("github\\.com/SeeleAI"), "github.com/SeeleAI/agent"));
    assert!(!matches_repo(Some("github\\.com/SeeleAI"), "github.com/popomore/projj"));
}

#[test]
fn test_matches_repo_multi_pattern() {
    let pattern = "gitlab\\.alibaba|code\\.alipay";
    assert!(matches_repo(Some(pattern), "gitlab.alibaba-inc.com/team/repo"));
    assert!(matches_repo(Some(pattern), "code.alipay.com/team/repo"));
    assert!(!matches_repo(Some(pattern), "github.com/team/repo"));
}

#[test]
fn test_matches_repo_invalid_regex() {
    assert!(!matches_repo(Some("[invalid"), "github.com/popomore/projj"));
}

#[test]
fn matches_repo_anchored_and_invalid() {
    assert!(matches_repo(Some("^git"), "github.com/a/b"));
    assert!(!matches_repo(Some("^git"), "a/github"));
    assert!(!matches_repo(Some("("), "github.com/a/b"));
}

fn hook(event: &str, matcher: Option<&str>, command: &str) -> HookEntry {
    HookEntry {
        event: event.to_string(),
        matcher: matcher.map(|m| m.to_string()),
        command: Some(command.to_string()),
        tasks: vec![],
        env: Table::new(),
    }
}

fn config_with_hooks(hooks: Vec<HookEntry>) -> Config {
    Config {
        base: BaseDir::Single("/tmp".to_string()),
        platform: "github.com".to_string(),
        scripts: Table::new(),
        tasks: Table::new(),
        hooks,
    }
}

#[test]
fn matching_hooks_filters_event_and_matcher() {
    let config = config_with_hooks(vec![
        hook("post_add", Some("gitlab\\.com"), "echo a"),
        hook("post_add", None, "echo b"),
        hook("pre_remove", None, "echo c"),
        hook("post_add", Some("github\\.com"), "echo d"),
    ]);
    assert_eq!(
        matching_hooks(&config, "post_add", "github.com/popomore/projj"),
        vec![1, 3]
    );
    assert_eq!(
        matching_hooks(&config, "other", "github.com/popomore/projj"),
        Vec::<usize>::new()
    );
}

#[test]
fn matching_hooks_none_configured() {
    let config = config_with_hooks(vec![]);
    assert!(matching_hooks(&config, "post_add", "github.com/popomore/projj").is_empty());
}

#[test]
fn hook_context_full_key() {
    let ctx = hook_context("post_add", "github.com/popomore/projj", "/tmp/x");
    assert_eq!(ctx.event, "post_add");
    assert_eq!(ctx.repo.path, "/tmp/x");
    assert_eq!(ctx.repo.host, "github.com");
    assert_eq!(ctx.repo.owner, "popomore");
    assert_eq!(ctx.repo.name, "projj");
    assert_eq!(ctx.repo.git_url, "git@github.com:popomore/projj.git");
}

#[test]
fn hook_context_simple_key() {
    let ctx = hook_context("post_add", "simple-key", "/tmp");
    assert_eq!(ctx.repo.host, "");
    assert_eq!(ctx.repo.owner, "");
    assert_eq!(ctx.repo.name, "simple-key");
    assert_eq!(ctx.repo.git_url, "");
}

#[test]
fn hook_context_two_parts_is_all_name() {
    let ctx = hook_context("post_add", "a/b", "/tmp");
    assert_eq!(ctx.repo.host, "");
    assert_eq!(ctx.repo.name, "a/b");
}

#[test]
fn hook_context_name_keeps_slashes() {
    let ctx = hook_context("post_add", "h/o/n/m", "/tmp");
    assert_eq!(ctx.repo.host, "h");
    assert_eq!(ctx.repo.owner, "o");
    assert_eq!(ctx.repo.name, "n/m");
}

#[test]
fn hook_env_order() {
    let mut env = Table::new();
    env.insert("MY_VAR".to_string(), "hello".to_string());
    let ctx = hook_context("post_add", "github.com/popomore/projj", "/tmp");
    let vars = hook_env(&env, &ctx);
    assert_eq!(vars.len(), 7);
    assert_eq!(vars[0], ("MY_VAR".to_string(), "hello".to_string()));
    assert_eq!(vars[1], ("PROJJ_EVENT".to_string(), "post_add".to_string()));
    assert_eq!(vars[2], ("PROJJ_REPO_PATH".to_string(), "/tmp".to_string()));
    assert_eq!(vars[3], ("PROJJ_REPO_HOST".to_string(), "github.com".to_string()));
    assert_eq!(vars[4], ("PROJJ_REPO_OWNER".to_string(), "popomore".to_string()));
    assert_eq!(vars[5], ("PROJJ_REPO_NAME".to_string(), "projj".to_string()));
    assert_eq!(
        vars[6],
        ("PROJJ_REPO_URL".to_string(), "git@github.com:popomore/projj.git".to_string())
    );
}

#[test]
fn exit_status_cases() {
    assert_eq!(exit_status_result(true, Some(0)), Ok(()));
    assert_eq!(exit_status_result(false, Some(1)), Err(1));
    assert_eq!(exit_status_result(false, None), Err(-1));
}

#[test]
fn hook_scripts_command_then_tasks() {
    let mut config = config_with_hooks(vec![]);
    config.scripts.insert("clean".to_string(), "rm -rf node_modules".to_string());
    config.tasks.insert("update".to_string(), "git pull".to_string());
    let h = HookEntry {
        event: "post_add".to_string(),
        matcher: None,
        command: Some("clean".to_string()),
        tasks: vec!["update".to_string(), "echo done".to_string(), "clean".to_string()],
        env: Table::new(),
    };
    assert_eq!(
        hook_scripts(&config, &h),
        vec![
            "rm -rf node_modules".to_string(),
            "git pull".to_string(),
            "echo done".to_string(),
            "clean".to_string(),
        ]
    );
}

#[test]
fn plan_hooks_runs_matching_in_order() {
    let mut env = Table::new();
    env.insert("MY_VAR".to_string(), "hello".to_string());
    let mut second = hook("post_add", Some("github\\.com"), "echo b");
    second.env = env;
    let config = config_with_hooks(vec![
        hook("post_add", Some("gitlab\\.com"), "echo a"),
        second,
        hook("pre_add", None, "echo c"),
        hook("post_add", None, "echo d"),
    ]);
    let (runs, ctx) = plan_hooks(&config, "post_add", "github.com/popomore/projj", "/tmp/x");
    assert_eq!(ctx.repo.owner, "popomore");
    assert_eq!(ctx.repo.path, "/tmp/x");
    assert_eq!(runs.len(), 2);
    assert_eq!(runs[0].hook, 1);
    assert_eq!(runs[0].scripts, vec!["echo b".to_string()]);
    assert_eq!(runs[0].env[0], ("MY_VAR".to_string(), "hello".to_string()));
    assert_eq!(runs[0].env.len(), 7);
    assert_eq!(runs[1].hook, 3);
    assert_eq!(runs[1].scripts, vec!["echo d".to_string()]);
    assert_eq!(runs[1].env.len(), 6);
}

#[test]
fn plan_hooks_nothing_for_other_event() {
    let config = config_with_hooks(vec![hook("post_add", None, "true")]);
    let (runs, _) = plan_hooks(&config, "post_remove", "simple-key", "/tmp");
    assert!(runs.is_empty());
}

fn last_setting<'a>(vars: &'a [(String, String)], name: &str) -> Option<&'a str> {
    vars.iter().rev().find(|(k, _)| k == name).map(|(_, v)| v.as_str())
}

#[test]
fn hook_env_context_wins_over_hook_env() {
    let mut env = Table::new();
    env.insert("PROJJ_REPO_HOST".to_string(), "evil".to_string());
    env.insert("GIT_USER_NAME".to_string(), "popomore".to_string());
    let ctx = hook_context("post_add", "github.com/popomore/projj", "/tmp");
    let vars = hook_env(&env, &ctx);
    assert_eq!(last_setting(&vars, "PROJJ_REPO_HOST"), Some("github.com"));
    assert_eq!(last_setting(&vars, "GIT_USER_NAME"), Some("popomore"));
    assert_eq!(last_setting(&vars, "OTHER"), None);
}

fn plan_run(hook: usize, scripts: &[&str]) -> HookRun {
    HookRun {
        hook,
        scripts: scripts.iter().map(|s| s.to_string()).collect(),
        env: vec![],
    }
}

#[test]
fn hook_steps_run_in_order_and_stop_on_failure() {
    let runs = vec![plan_run(0, &["a", "b"]), plan_run(2, &[]), plan_run(3, &["c"])];
    assert_eq!(first_step(&runs), HookStep::Run { hook: 0, script: 0 });
    assert_eq!(next_step(&runs, 0, 0, true, Some(0)), HookStep::Run { hook: 0, script: 1 });
    assert_eq!(next_step(&runs, 0, 1, true, Some(0)), HookStep::Run { hook: 2, script: 0 });
    assert_eq!(next_step(&runs, 2, 0, true, Some(0)), HookStep::Done);
    assert_eq!(next_step(&runs, 0, 1, false, Some(3)), HookStep::Failed(3));
    assert_eq!(next_step(&runs, 0, 0, false, None), HookStep::Failed(-1));
}

#[test]
fn hook_steps_empty_plan_is_done() {
    assert_eq!(first_step(&vec![]), HookStep::Done);
    assert_eq!(first_step(&vec![plan_run(0, &[])]), HookStep::Done);
}
