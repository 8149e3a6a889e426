use projj::git::{
    indent_progress, parse_local_remote, parse_repo, parse_ssh_scheme, split_host_path, strip_port,
    ParseRepoError,
    RepoInfo,
};

#[test]
fn test_parse_ssh() {
    let info = parse_repo("git@github.com:popomore/projj.git", "github.com").unwrap();
    assert_eq!(info.host, "github.com");
    assert_eq!(info.owner, "popomore");
    assert_eq!(info.repo, "projj");
}

#[test]
fn test_parse_https() {
    let info = parse_repo("https://github.com/popomore/projj.git", "github.com").unwrap();
    assert_eq!(info.host, "github.com");
    assert_eq!(info.owner, "popomore");
    assert_eq!(info.repo, "projj");
}

#[test]
fn test_parse_https_no_git_suffix() {
    let info = parse_repo("https://github.com/popomore/projj", "github.com").unwrap();
    assert_eq!(info.repo, "projj");
}

#[test]
fn test_parse_short_form() {
    let info = parse_repo("popomore/projj", "github.com").unwrap();
    assert_eq!(info.host, "github.com");
    assert_eq!(info.owner, "popomore");
    assert_eq!(info.repo, "projj");
    assert_eq!(info.clone_url, "git@github.com:popomore/projj.git");
}

#[test]
fn test_parse_short_form_gitlab() {
    let info = parse_repo("popomore/projj", "gitlab.com").unwrap();
    assert_eq!(info.host, "gitlab.com");
    assert_eq!(info.clone_url, "git@gitlab.com:popomore/projj.git");
}

// #36 / #61: port should not become a directory
#[test]
fn test_parse_ssh_scheme_with_port() {
    let info = parse_repo("ssh://git@git.gitlab.cn:2224/web/cms.git", "github.com").unwrap();
    assert_eq!(info.host, "git.gitlab.cn");
    assert_eq!(info.owner, "web");
    assert_eq!(info.repo, "cms");
    assert_eq!(info.rel_path(), "git.gitlab.cn/web/cms");
}

#[test]
fn test_parse_https_with_port() {
    let info = parse_repo("https://192.168.1.1:8080/owner/repo.git", "github.com").unwrap();
    assert_eq!(info.host, "192.168.1.1");
    assert_eq!(info.owner, "owner");
    assert_eq!(info.repo, "repo");
}

#[test]
fn test_parse_https_ip_no_port() {
    let info = parse_repo("https://192.168.1.1/owner/repo.git", "github.com").unwrap();
    assert_eq!(info.host, "192.168.1.1");
    assert_eq!(info.owner, "owner");
    assert_eq!(info.repo, "repo");
}

#[test]
fn test_parse_ssh_scheme_no_port() {
    let info = parse_repo("ssh://git@gitlab.com/owner/repo.git", "github.com").unwrap();
    assert_eq!(info.host, "gitlab.com");
    assert_eq!(info.owner, "owner");
    assert_eq!(info.repo, "repo");
}

#[test]
fn test_parse_local_path_nonexistent() {
    let result = parse_repo("/nonexistent/path/repo", "github.com");
    assert!(result.is_err());
}

#[test]
fn test_parse_invalid_input() {
    let result = parse_repo("not-a-valid-input", "github.com");
    assert!(result.is_err());
}

#[test]
fn test_parse_https_invalid_short() {
    // Only host, no path
    let result = parse_repo("https://github.com/onlyowner", "github.com");
    assert!(result.is_err());
}

#[test]
fn test_rel_path() {
    let info = RepoInfo {
        host: "github.com".to_string(),
        owner: "popomore".to_string(),
        repo: "projj".to_string(),
        clone_url: String::new(),
    };
    assert_eq!(info.rel_path(), "github.com/popomore/projj");
}

#[test]
fn test_indent_after_newline_not_carriage_return() {
    // git uses bare \r for in-place progress overwriting, so \r must NOT
    // trigger a new indent prefix, while \n does start a new indented line.
    let input = b"Receiving objects:  50%\rReceiving objects: 100%\nDone\n";
    let (output, _) = indent_progress(input, true);

    let s = String::from_utf8(output).unwrap();
    // First line gets indent
    assert!(s.starts_with("   Receiving objects:  50%"));
    // After \r there is NO injected indent — overwrite text follows directly
    assert!(s.contains("\rReceiving objects: 100%\n"));
    // After \n the next line is indented
    assert!(s.contains("\n   Done\n"));
}

// ── further cases ──

#[test]
fn parse_errors_name_their_kind() {
    assert_eq!(parse_repo("./here", "github.com").unwrap_err(), ParseRepoError::LocalPath);
    assert_eq!(parse_repo("/abs/here", "github.com").unwrap_err(), ParseRepoError::LocalPath);
    assert_eq!(parse_repo("git@github.com", "github.com").unwrap_err(), ParseRepoError::InvalidSsh);
    assert_eq!(
        parse_repo("git@github.com:onlyowner", "github.com").unwrap_err(),
        ParseRepoError::InvalidSsh
    );
    assert_eq!(parse_repo("ssh://git@host", "github.com").unwrap_err(), ParseRepoError::InvalidSsh);
    assert_eq!(parse_repo("https://host/", "github.com").unwrap_err(), ParseRepoError::InvalidHttps);
    assert_eq!(
        parse_repo("not-a-valid-input", "github.com").unwrap_err(),
        ParseRepoError::Unrecognized
    );
    // an owner with a dot is no short form
    assert_eq!(parse_repo("a.b/c", "github.com").unwrap_err(), ParseRepoError::Unrecognized);
    assert_eq!(parse_repo("/x", "github.com").unwrap_err().message("/x"), "Local path needs resolving: /x");
    assert_eq!(
        ParseRepoError::Unrecognized.message("nope"),
        "Cannot parse repository: nope"
    );
    assert_eq!(ParseRepoError::InvalidSsh.message("git@x"), "Invalid SSH URL: git@x");
    assert_eq!(ParseRepoError::InvalidHttps.message("https://x"), "Invalid HTTPS URL: https://x");
}

#[test]
fn parse_keeps_clone_url_and_nested_repo() {
    let info = parse_repo("http://example.org/group/sub/repo.git", "github.com").unwrap();
    assert_eq!(info.host, "example.org");
    assert_eq!(info.owner, "group");
    assert_eq!(info.repo, "sub/repo");
    assert_eq!(info.clone_url, "http://example.org/group/sub/repo.git");
    let info = parse_repo("ssh://gitlab.com/owner/repo", "github.com").unwrap();
    assert_eq!(info.host, "gitlab.com");
    assert_eq!(info.repo, "repo");
}

#[test]
fn one_repo_one_location() {
    let a = parse_repo("git@github.com:popomore/projj.git", "x").unwrap();
    let b = parse_repo("https://github.com/popomore/projj.git", "x").unwrap();
    let c = parse_repo("popomore/projj", "github.com").unwrap();
    assert_eq!(a.rel_path(), b.rel_path());
    assert_eq!(b.rel_path(), c.rel_path());
    let d = parse_repo(&c.clone_url, "elsewhere").unwrap();
    assert_eq!(d.rel_path(), c.rel_path());
}

#[test]
fn strip_port_only_strips_digits() {
    assert_eq!(strip_port("git.gitlab.cn:2224"), "git.gitlab.cn");
    assert_eq!(strip_port("host:abc"), "host:abc");
    assert_eq!(strip_port("host"), "host");
    assert_eq!(strip_port("host:"), "host");
    assert_eq!(strip_port("a:1:22"), "a:1");
}

#[test]
fn split_host_path_needs_both_parts() {
    assert_eq!(
        split_host_path("h:1/a/b"),
        Some(("h:1".to_string(), "a/b".to_string()))
    );
    assert_eq!(split_host_path("/a"), None);
    assert_eq!(split_host_path("h/"), None);
    assert_eq!(split_host_path("h"), None);
}

#[test]
fn local_remote_takes_path_as_clone_url() {
    let info = parse_local_remote("  git@github.com:testowner/testrepo.git\n", "/tmp/myrepo").unwrap();
    assert_eq!(info.host, "github.com");
    assert_eq!(info.owner, "testowner");
    assert_eq!(info.repo, "testrepo");
    assert_eq!(info.clone_url, "/tmp/myrepo");
    assert!(parse_local_remote("\n", "/tmp/x").is_err());
}

#[test]
fn indent_in_chunks_equals_indent_at_once() {
    let input = b"a\rb\nc\n\nd";
    let (whole, at_whole) = indent_progress(input, true);
    let (x, at1) = indent_progress(&input[..3], true);
    let (y, at2) = indent_progress(&input[3..], at1);
    let mut joined = x.clone();
    joined.extend_from_slice(&y);
    assert_eq!(joined, whole);
    assert_eq!(at2, at_whole);
    assert_eq!(String::from_utf8(whole).unwrap(), "   a\rb\n   c\n   \n   d");
    assert!(!at_whole);
}

#[test]
fn parse_ssh_scheme_without_scheme_is_invalid() {
    assert_eq!(
        parse_ssh_scheme("git.gitlab.cn:2224/web/cms.git").unwrap_err(),
        ParseRepoError::InvalidSsh
    );
    let info = parse_ssh_scheme("ssh://git.gitlab.cn:2224/web/cms.git").unwrap();
    assert_eq!(info.host, "git.gitlab.cn");
    assert_eq!(info.owner, "web");
    assert_eq!(info.repo, "cms");
}
