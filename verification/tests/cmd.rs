use projj::cmd::add::{add_steps, add_target, AddStep};
use projj::cmd::init::{default_base, summary_lines};
use projj::cmd::list::list_lines;
use projj::cmd::remove::{confirms_removal, position_by_path};
use projj::cmd::run::{
    after_repo, command_line, filter_by_pattern, first_repo, invalid_pattern_message, keep_flagged,
    progress_line,
};
use projj::cmd::search::{
    build_indexed_items, display_part, group_key_for, group_order, position_of, preselect,
    repo_info_lines, selected_index, selection_text, Preselect,
};
use projj::color::{color, group_color, DIM, RESET};
use projj::git::parse_repo;
use projj::repo_source::Repo;

const BLUE: &str = "\x1b[48;5;24m\x1b[97m";
const GREEN: &str = "\x1b[48;5;22m\x1b[97m";

fn repo_at(base: &str, host: &str, owner: &str, name: &str) -> Repo {
    Repo {
        path: format!("{base}/{host}/{owner}/{name}"),
        base: base.to_string(),
        host: host.to_string(),
        owner: owner.to_string(),
        name: name.to_string(),
    }
}

// ── search ──

#[test]
fn group_key_single_and_multiple_bases() {
    let r = repo_at("/home/u/code", "github.com", "a", "b");
    assert_eq!(group_key_for(&r, false), "github.com");
    assert_eq!(group_key_for(&r, true), "code/github.com");
}

#[test]
fn group_order_first_occurrence() {
    let keys = vec!["b".to_string(), "a".to_string(), "b".to_string(), "c".to_string()];
    assert_eq!(
        group_order(&keys),
        vec!["b".to_string(), "a".to_string(), "c".to_string()]
    );
    assert_eq!(position_of(&keys, &"b".to_string()), Some(0));
    assert_eq!(position_of(&keys, &"c".to_string()), Some(3));
    assert_eq!(position_of(&keys, &"z".to_string()), None);
}

#[test]
fn indexed_items_format_and_colors() {
    let repos = vec![
        repo_at("/b", "github.com", "popomore", "projj"),
        repo_at("/b", "gitlab.com", "o", "r"),
        repo_at("/b", "github.com", "x", "y"),
    ];
    let items = build_indexed_items(&repos, false);
    assert_eq!(items.len(), 3);
    assert_eq!(
        items[0],
        format!(
            "0\t{BLUE} github.com {RESET} popomore/projj  {DIM}git@github.com:popomore/projj.git{RESET}"
        )
    );
    assert!(items[1].starts_with(&format!("1\t{GREEN} gitlab.com ")));
    assert!(items[2].starts_with(&format!("2\t{BLUE} github.com ")));
}

#[test]
fn info_lines_with_and_without_color() {
    let r = repo_at("/b", "github.com", "popomore", "projj");
    let (a, b) = repo_info_lines(&r, false, true);
    assert_eq!(a, format!("{BLUE} github.com {RESET}"));
    assert_eq!(b, format!("    popomore/projj  {DIM}git@github.com:popomore/projj.git{RESET}"));
    let (a, b) = repo_info_lines(&r, false, false);
    assert_eq!(a, " github.com ");
    assert_eq!(b, "    popomore/projj  git@github.com:popomore/projj.git");
}

#[test]
fn selected_index_parsing() {
    assert_eq!(selected_index("12\tsomething\n"), Some(12));
    assert_eq!(selected_index("  3  "), Some(3));
    assert_eq!(selected_index("x\ty"), None);
    assert_eq!(selected_index(""), None);
    assert_eq!(selected_index("+7\tz"), Some(7));
}

#[test]
fn display_part_and_selection_text() {
    assert_eq!(display_part("3\tabc\tdef"), Some("abc\tdef".to_string()));
    assert_eq!(display_part("abc"), None);
    assert_eq!(selection_text("  hello \n"), Some("hello".to_string()));
    assert_eq!(selection_text(" \n\t"), None);
}

#[test]
fn preselect_counts() {
    assert!(matches!(preselect(0), Preselect::Nothing));
    assert!(matches!(preselect(1), Preselect::Only));
    assert!(matches!(preselect(5), Preselect::Ask));
}

#[test]
fn group_colors_cycle() {
    assert_eq!(group_color(0), BLUE);
    assert_eq!(group_color(5), BLUE);
    assert_eq!(group_color(1), GREEN);
    assert_eq!(color(DIM, true), DIM);
    assert_eq!(color(DIM, false), "");
}

// ── run ──

#[test]
fn command_line_with_args() {
    assert_eq!(command_line("echo", &[]), "echo");
    assert_eq!(
        command_line("echo", &["a".to_string(), "b c".to_string()]),
        "echo a b c"
    );
}

#[test]
fn filter_by_pattern_cases() {
    let repos = vec![
        repo_at("/b", "github.com", "teamA", "repo1"),
        repo_at("/b", "github.com", "teamB", "repo2"),
    ];
    assert_eq!(filter_by_pattern(&repos, None).unwrap().len(), 2);
    let only = filter_by_pattern(&repos, Some("teamA")).unwrap();
    assert_eq!(only.len(), 1);
    assert_eq!(only[0].short_key(), "teamA/repo1");
    let err = filter_by_pattern(&repos, Some("[invalid")).unwrap_err();
    assert!(err.starts_with("Invalid --match pattern '[invalid': "));
}

#[test]
fn progress_line_format() {
    assert_eq!(
        progress_line(0, 2, "github.com/a/b", false),
        "[1/2] 📦 github.com/a/b"
    );
    assert_eq!(
        progress_line(1, 2, "k", true),
        format!("{DIM}[2/2]{RESET} 📦 k")
    );
}

// ── add ──

#[test]
fn add_target_path() {
    let info = parse_repo("popomore/projj", "github.com").unwrap();
    assert_eq!(add_target("/base", &info), "/base/github.com/popomore/projj");
}

#[test]
fn add_steps_cases() {
    assert_eq!(add_steps("popomore/projj", true), vec![AddStep::PostAddHooks]);
    assert_eq!(
        add_steps("popomore/projj", false),
        vec![AddStep::PreAddHooks, AddStep::CloneRemote, AddStep::PostAddHooks]
    );
    assert_eq!(
        add_steps("./myrepo", false),
        vec![AddStep::PreAddHooks, AddStep::MoveLocal, AddStep::PostAddHooks]
    );
    assert_eq!(
        add_steps("/abs/myrepo", false),
        vec![AddStep::PreAddHooks, AddStep::MoveLocal, AddStep::PostAddHooks]
    );
}

// ── list ──

#[test]
fn list_lines_grouped_no_color() {
    let repos = vec![
        repo_at("/b", "github.com", "popomore", "projj"),
        repo_at("/b", "github.com", "SeeleAI", "agent"),
        repo_at("/b", "gitlab.com", "o", "r"),
    ];
    let lines = list_lines(&repos, false, false);
    assert_eq!(
        lines,
        vec![
            " github.com ".to_string(),
            "    popomore/projj  git@github.com:popomore/projj.git".to_string(),
            "    SeeleAI/agent  git@github.com:SeeleAI/agent.git".to_string(),
            " gitlab.com ".to_string(),
            "    o/r  git@gitlab.com:o/r.git".to_string(),
            "Total: 3 repositories".to_string(),
        ]
    );
}

#[test]
fn list_lines_multiple_bases() {
    let repos = vec![
        repo_at("/tmp/x", "github.com", "a", "repo1"),
        repo_at("/tmp/y", "gitlab.com", "b", "repo2"),
    ];
    let lines = list_lines(&repos, true, true);
    assert_eq!(lines[0], format!("{BLUE} x/github.com {RESET}"));
    assert_eq!(lines[2], format!("{GREEN} y/gitlab.com {RESET}"));
    assert_eq!(lines[4], "Total: 2 repositories");
}

#[test]
fn list_lines_empty() {
    assert_eq!(list_lines(&[], false, true), vec!["Total: 0 repositories".to_string()]);
}

// ── remove ──

#[test]
fn removal_confirmation() {
    let repos = vec![
        repo_at("/b", "github.com", "testowner", "testrepo"),
        repo_at("/b", "gitlab.com", "o", "r"),
    ];
    assert!(confirms_removal(&repos[0], "testowner/testrepo"));
    assert!(!confirms_removal(&repos[0], "wrong-name"));
    assert!(!confirms_removal(&repos[0], "testowner/testrepo "));
    assert_eq!(position_by_path(&repos, "/b/gitlab.com/o/r"), Some(1));
    assert_eq!(position_by_path(&repos, "/b/x"), None);
}

// ── init ──

#[test]
fn init_default_base_and_summary() {
    assert_eq!(default_base(Some("/home/u")), "/home/u/projj");
    assert_eq!(default_base(None), "projj");
    assert_eq!(
        summary_lines(1, 3, 0, 0),
        vec!["📊 1 base directories, 3 repositories found".to_string()]
    );
    assert_eq!(
        summary_lines(2, 0, 1, 5),
        vec![
            "📊 2 base directories, 0 repositories found".to_string(),
            "🪝 1 hooks configured".to_string(),
            "📜 5 tasks configured".to_string(),
        ]
    );
}

#[test]
fn keep_flagged_keeps_order() {
    let repos = vec![
        repo_at("/b", "github.com", "a", "1"),
        repo_at("/b", "github.com", "b", "2"),
        repo_at("/b", "github.com", "c", "3"),
    ];
    let kept = keep_flagged(&repos, &[true, false, true]);
    assert_eq!(kept.len(), 2);
    assert_eq!(kept[0].owner, "a");
    assert_eq!(kept[1].owner, "c");
    assert!(keep_flagged(&repos, &[false, false, false]).is_empty());
}

#[test]
fn invalid_pattern_message_text() {
    assert_eq!(
        invalid_pattern_message("[x", "unclosed class"),
        "Invalid --match pattern '[x': unclosed class"
    );
}

#[test]
fn run_all_goes_on_after_failure() {
    assert_eq!(first_repo(0), None);
    assert_eq!(first_repo(3), Some(0));
    assert_eq!(after_repo(0, 3, None), (Some(1), None));
    assert_eq!(
        after_repo(1, 3, Some("Command failed with exit code: 1")),
        (Some(2), Some("  ❌ Command failed with exit code: 1".to_string()))
    );
    assert_eq!(after_repo(2, 3, Some("x")), (None, Some("  ❌ x".to_string())));
}
