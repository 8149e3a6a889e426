use projj::repo_source::{
    find, find_keyed, is_hidden_name, scan, sort_by_path, Repo, ScanEntry,
};

fn make_repo(host: &str, owner: &str, name: &str) -> Repo {
    Repo {
        path: format!("/base/{host}/{owner}/{name}"),
        base: "/base".to_string(),
        host: host.to_string(),
        owner: owner.to_string(),
        name: name.to_string(),
    }
}

fn entry(base: &str, host: &str, owner: &str, name: &str, has_git: bool) -> ScanEntry {
    ScanEntry {
        base: base.to_string(),
        host: host.to_string(),
        owner: owner.to_string(),
        name: name.to_string(),
        has_git,
    }
}

#[test]
fn test_repo_display_key() {
    let repo = make_repo("github.com", "popomore", "projj");
    assert_eq!(repo.display_key(), "github.com/popomore/projj");
}

#[test]
fn test_repo_short_key() {
    let repo = make_repo("github.com", "popomore", "projj");
    assert_eq!(repo.short_key(), "popomore/projj");
}

#[test]
fn test_repo_git_url() {
    let repo = make_repo("github.com", "popomore", "projj");
    assert_eq!(repo.git_url(), "git@github.com:popomore/projj.git");
}

#[test]
fn test_find_exact_match() {
    let repos = vec![
        make_repo("github.com", "popomore", "projj"),
        make_repo("github.com", "popomore", "tiny-projj"),
    ];
    let result = find(&repos, "projj");
    assert_eq!(result.len(), 2);
    assert_eq!(result[0].name, "projj");
    assert_eq!(result[1].name, "tiny-projj");
}

#[test]
fn repo_source_test_find_case_insensitive() {
    let repos = vec![make_repo("github.com", "popomore", "Projj")];
    let result = find(&repos, "projj");
    assert_eq!(result.len(), 1);
}

#[test]
fn test_find_owner_repo() {
    let repos = vec![
        make_repo("github.com", "popomore", "projj"),
        make_repo("github.com", "other", "projj"),
    ];
    let result = find(&repos, "popomore/projj");
    assert_eq!(result.len(), 1);
    assert_eq!(result[0].owner, "popomore");
}

#[test]
fn repo_source_test_find_no_match() {
    let repos = vec![make_repo("github.com", "popomore", "projj")];
    let result = find(&repos, "nonexistent");
    assert!(result.is_empty());
}

#[test]
fn test_find_partial_match() {
    let repos = vec![
        make_repo("github.com", "popomore", "projj"),
        make_repo("github.com", "SeeleAI", "projj-tools"),
    ];
    let result = find(&repos, "projj");
    assert_eq!(result.len(), 2);
    assert_eq!(result[0].name, "projj");
    assert_eq!(result[1].name, "projj-tools");
}

#[test]
fn find_partial_before_exact_in_input_still_exact_first() {
    let repos = vec![
        make_repo("github.com", "a", "projj-tools"),
        make_repo("github.com", "b", "projj"),
    ];
    let result = find(&repos, "projj");
    assert_eq!(result.len(), 2);
    assert_eq!(result[0].name, "projj");
    assert_eq!(result[1].name, "projj-tools");
}

#[test]
fn find_leading_slash_keyword() {
    let repos = vec![make_repo("github.com", "popomore", "projj")];
    let result = find(&repos, "/projj");
    assert_eq!(result.len(), 1);
}

#[test]
fn find_by_host_is_partial() {
    let repos = vec![
        make_repo("github.com", "a", "x"),
        make_repo("gitlab.com", "b", "y"),
    ];
    let result = find(&repos, "GITLAB");
    assert_eq!(result.len(), 1);
    assert_eq!(result[0].host, "gitlab.com");
}

#[test]
fn hidden_names() {
    assert!(is_hidden_name(".git"));
    assert!(is_hidden_name(".hidden"));
    assert!(!is_hidden_name("projj"));
    assert!(!is_hidden_name(""));
}

#[test]
fn scan_with_repos() {
    let entries = vec![entry("/base", "github.com", "popomore", "projj", true)];
    let repos = scan(&entries);
    assert_eq!(repos.len(), 1);
    assert_eq!(repos[0].host, "github.com");
    assert_eq!(repos[0].owner, "popomore");
    assert_eq!(repos[0].name, "projj");
    assert_eq!(repos[0].path, "/base/github.com/popomore/projj");
    assert_eq!(repos[0].base, "/base");
}

#[test]
fn scan_skips_hidden_and_non_git() {
    let entries = vec![
        entry("/b", ".hidden", "owner", "repo", true),
        entry("/b", "github.com", ".hidden", "repo", true),
        entry("/b", "github.com", "owner", ".hidden", true),
        entry("/b", "github.com", "owner", "repo", false),
    ];
    assert!(scan(&entries).is_empty());
}

#[test]
fn scan_empty() {
    assert!(scan(&[]).is_empty());
}

#[test]
fn scan_multiple_bases_sorted() {
    let entries = vec![
        entry("/t2", "gitlab.com", "b", "repo2", true),
        entry("/t1", "github.com", "a", "repo1", true),
    ];
    let repos = scan(&entries);
    assert_eq!(repos.len(), 2);
    assert_eq!(repos[0].path, "/t1/github.com/a/repo1");
    assert_eq!(repos[1].path, "/t2/gitlab.com/b/repo2");
}

#[test]
fn sort_by_path_orders_by_components() {
    // "a-b" sorts after "a" as a path: the component "a" ends first
    let v = vec![
        Repo {
            path: "/b/a-b/r".to_string(),
            base: "/b".to_string(),
            host: "a-b".to_string(),
            owner: "o".to_string(),
            name: "r".to_string(),
        },
        Repo {
            path: "/b/a/r".to_string(),
            base: "/b".to_string(),
            host: "a".to_string(),
            owner: "o".to_string(),
            name: "r".to_string(),
        },
    ];
    let s = sort_by_path(v);
    assert_eq!(s[0].path, "/b/a/r");
    assert_eq!(s[1].path, "/b/a-b/r");
}

#[test]
fn find_keyed_uses_given_keys() {
    let repos = vec![
        make_repo("github.com", "a", "x"),
        make_repo("github.com", "b", "y"),
        make_repo("github.com", "c", "z"),
    ];
    // the keys decide, whatever the repositories hold
    let keys = vec![
        "h/o/target-tools".to_string(),
        "h/o/target".to_string(),
        "h/o/other".to_string(),
    ];
    let r = find_keyed(&repos, &keys, "target");
    assert_eq!(r.len(), 2);
    assert_eq!(r[0].owner, "b");
    assert_eq!(r[1].owner, "a");
    let r = find_keyed(&repos, &keys, "//o/other");
    assert_eq!(r.len(), 1);
    assert_eq!(r[0].owner, "c");
}
