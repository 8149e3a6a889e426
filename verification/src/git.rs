//! Parsing repository arguments (SSH, HTTPS and short forms) into the
//! host / owner / repo triple that decides where a checkout lives.
use vstd::prelude::*;

use crate::text::{
    all_ascii_digits, contains_char, has_prefix, is_all_ascii_digits, join2, join3, remove_suffix,
    rsplit_once, spec_rsplit_once, spec_split_once, spec_trim, split_once, starts_with,
    strip_prefix, substring, trim, without_suffix,
};

verus! {

/// Parsed git repository info.
#[derive(Debug)]
pub struct RepoInfo {
    pub host: String,
    pub owner: String,
    pub repo: String,
    pub clone_url: String,
}

/// The four strings of a `RepoInfo`, as character sequences.
pub struct RepoInfoView {
    pub host: Seq<char>,
    pub owner: Seq<char>,
    pub repo: Seq<char>,
    pub clone_url: Seq<char>,
}

impl View for RepoInfo {
    type V = RepoInfoView;

    open spec fn view(&self) -> RepoInfoView {
        RepoInfoView {
            host: self.host@,
            owner: self.owner@,
            repo: self.repo@,
            clone_url: self.clone_url@,
        }
    }
}

/// Why a repository argument could not be turned into a `RepoInfo`.
#[derive(Debug, Clone, Copy, PartialEq, Eq)]
pub enum ParseRepoError {
    /// The argument names a local path; reading its remote needs the disk.
    LocalPath,
    /// An `ssh://` or `git@` argument without host or owner/repo.
    InvalidSsh,
    /// An `http(s)://` argument without host or owner/repo.
    InvalidHttps,
    /// None of the supported forms.
    Unrecognized,
}

impl ParseRepoError {
    /// The error message for this error on argument `input`.
    pub fn message(&self, input: &str) -> (r: String)
        ensures
            r@ == spec_error_message(*self, input@),
    {
        match self {
            ParseRepoError::LocalPath => join2("Local path needs resolving: ", input),
            ParseRepoError::InvalidSsh => join2("Invalid SSH URL: ", input),
            ParseRepoError::InvalidHttps => join2("Invalid HTTPS URL: ", input),
            ParseRepoError::Unrecognized => join2("Cannot parse repository: ", input),
        }
    }
}

/// The message of `ParseRepoError::message`.
pub open spec fn spec_error_message(e: ParseRepoError, input: Seq<char>) -> Seq<char> {
    match e {
        ParseRepoError::LocalPath => "Local path needs resolving: "@ + input,
        ParseRepoError::InvalidSsh => "Invalid SSH URL: "@ + input,
        ParseRepoError::InvalidHttps => "Invalid HTTPS URL: "@ + input,
        ParseRepoError::Unrecognized => "Cannot parse repository: "@ + input,
    }
}

/// `host/owner/repo`.
pub open spec fn spec_rel_path(host: Seq<char>, owner: Seq<char>, repo: Seq<char>) -> Seq<char> {
    host + "/"@ + owner + "/"@ + repo
}

impl Clone for RepoInfo {
    fn clone(&self) -> (r: Self)
        ensures
            r@ == self@,
    {
        RepoInfo {
            host: self.host.clone(),
            owner: self.owner.clone(),
            repo: self.repo.clone(),
            clone_url: self.clone_url.clone(),
        }
    }
}

impl RepoInfo {
    /// Relative path: host/owner/repo
    pub fn rel_path(&self) -> (r: String)
        ensures
            r@ == spec_rel_path(self.host@, self.owner@, self.repo@),
    {
        join3(&join3(&self.host, "/", &self.owner), "/", &self.repo)
    }
}

/// The argument names a local path: it starts with `.` or `/`.
pub open spec fn is_local_arg(input: Seq<char>) -> bool {
    input.len() > 0 && (input[0] == '.' || input[0] == '/')
}

/// The host without a trailing `:port`, where the part after the last `:` is
/// all digits.
pub open spec fn spec_strip_port(host: Seq<char>) -> Seq<char> {
    match spec_rsplit_once(host, ':') {
        Some((h, port)) => if all_ascii_digits(port) {
            h
        } else {
            host
        },
        None => host,
    }
}

/// `host[:port]/path` split at the first `/`, where neither part is empty.
pub open spec fn spec_split_host_path(s: Seq<char>) -> Option<(Seq<char>, Seq<char>)> {
    match spec_split_once(s, '/') {
        Some((h, p)) => if h.len() == 0 || p.len() == 0 {
            None
        } else {
            Some((h, p))
        },
        None => None,
    }
}

/// The info of `owner/repo` given a host part and a path.
pub open spec fn info_from_path(
    host_part: Seq<char>,
    path: Seq<char>,
    input: Seq<char>,
    err: ParseRepoError,
) -> Result<RepoInfoView, ParseRepoError> {
    match spec_split_once(without_suffix(path, ".git"@), '/') {
        Some((owner, repo)) => Ok(
            RepoInfoView { host: spec_strip_port(host_part), owner, repo, clone_url: input },
        ),
        None => Err(err),
    }
}

/// `git@host:owner/repo.git`: everything after `git@` up to the first `:` is
/// the host.
pub open spec fn spec_parse_ssh(input: Seq<char>) -> Result<RepoInfoView, ParseRepoError> {
    let rest = input.subrange("git@"@.len() as int, input.len() as int);
    match spec_split_once(rest, ':') {
        Some((host_part, path)) => info_from_path(
            host_part,
            path,
            input,
            ParseRepoError::InvalidSsh,
        ),
        None => Err(ParseRepoError::InvalidSsh),
    }
}

/// `ssh://git@host[:port]/owner/repo.git` or `ssh://host[:port]/owner/repo.git`;
/// anything without the `ssh://` scheme is an invalid SSH URL.
pub open spec fn spec_parse_ssh_scheme(input: Seq<char>) -> Result<RepoInfoView, ParseRepoError> {
    let without_scheme = if has_prefix(input, "ssh://git@"@) {
        Some(input.subrange("ssh://git@"@.len() as int, input.len() as int))
    } else if has_prefix(input, "ssh://"@) {
        Some(input.subrange("ssh://"@.len() as int, input.len() as int))
    } else {
        None
    };
    match without_scheme {
        Some(rest) => match spec_split_host_path(rest) {
            Some((host_part, path)) => info_from_path(
                host_part,
                path,
                input,
                ParseRepoError::InvalidSsh,
            ),
            None => Err(ParseRepoError::InvalidSsh),
        },
        None => Err(ParseRepoError::InvalidSsh),
    }
}

/// `https://host[:port]/owner/repo[.git]` (or `http://`): the owner is the
/// first path segment, the repo all the rest without `.git`.
pub open spec fn spec_parse_https(input: Seq<char>) -> Result<RepoInfoView, ParseRepoError> {
    let without_scheme = if has_prefix(input, "https://"@) {
        input.subrange("https://"@.len() as int, input.len() as int)
    } else {
        input.subrange("http://"@.len() as int, input.len() as int)
    };
    match spec_split_host_path(without_scheme) {
        Some((host_part, path)) => match spec_split_once(path, '/') {
            Some((owner, rest)) => Ok(
                RepoInfoView {
                    host: spec_strip_port(host_part),
                    owner,
                    repo: without_suffix(rest, ".git"@),
                    clone_url: input,
                },
            ),
            None => Err(ParseRepoError::InvalidHttps),
        },
        None => Err(ParseRepoError::InvalidHttps),
    }
}

/// The SSH URL of `owner/repo` on `host`.
pub open spec fn spec_ssh_url(host: Seq<char>, owner: Seq<char>, repo: Seq<char>) -> Seq<char> {
    "git@"@ + host + ":"@ + owner + "/"@ + repo + ".git"@
}

/// `owner/repo` on the default platform: both parts non-empty and the owner
/// without a `.`.
pub open spec fn spec_parse_short(input: Seq<char>, platform: Seq<char>) -> Result<
    RepoInfoView,
    ParseRepoError,
> {
    match spec_split_once(input, '/') {
        Some((owner, repo)) => if owner.len() > 0 && repo.len() > 0 && !owner.contains('.') {
            Ok(
                RepoInfoView {
                    host: platform,
                    owner,
                    repo,
                    clone_url: spec_ssh_url(platform, owner, repo),
                },
            )
        } else {
            Err(ParseRepoError::Unrecognized)
        },
        None => Err(ParseRepoError::Unrecognized),
    }
}

/// What `parse_repo` gives for `input` with default platform `platform`.
pub open spec fn spec_parse_repo(input: Seq<char>, platform: Seq<char>) -> Result<
    RepoInfoView,
    ParseRepoError,
> {
    if is_local_arg(input) {
        Err(ParseRepoError::LocalPath)
    } else if has_prefix(input, "ssh://"@) {
        spec_parse_ssh_scheme(input)
    } else if has_prefix(input, "git@"@) {
        spec_parse_ssh(input)
    } else if has_prefix(input, "https://"@) || has_prefix(input, "http://"@) {
        spec_parse_https(input)
    } else {
        spec_parse_short(input, platform)
    }
}

/// The view of a parse result.
pub open spec fn result_view(r: Result<RepoInfo, ParseRepoError>) -> Result<
    RepoInfoView,
    ParseRepoError,
> {
    match r {
        Ok(info) => Ok(info@),
        Err(e) => Err(e),
    }
}

/// Strip port from host string: "git.gitlab.cn:2224" → "git.gitlab.cn"
pub fn strip_port(host: &str) -> (r: String)
    ensures
        r@ == spec_strip_port(host@),
{
    match rsplit_once(host, ':') {
        Some((h, port)) => {
            if is_all_ascii_digits(&port) {
                h
            } else {
                String::from_str(host)
            }
        },
        None => String::from_str(host),
    }
}

/// Split `host[:port]/rest/of/path` into `(host[:port], rest/of/path)`.
pub fn split_host_path(s: &str) -> (r: Option<(String, String)>)
    ensures
        match r {
            Some((h, p)) => spec_split_host_path(s@) == Some((h@, p@)),
            None => spec_split_host_path(s@) is None,
        },
{
    match split_once(s, '/') {
        Some((h, p)) => {
            if h.unicode_len() == 0 || p.unicode_len() == 0 {
                None
            } else {
                Some((h, p))
            }
        },
        None => None,
    }
}

fn info_from_parts(host_part: &str, path: &str, input: &str, err: ParseRepoError) -> (r: Result<
    RepoInfo,
    ParseRepoError,
>)
    ensures
        result_view(r) == info_from_path(host_part@, path@, input@, err),
{
    let path = remove_suffix(path, ".git");
    match split_once(&path, '/') {
        Some((owner, repo)) => Ok(
            RepoInfo { host: strip_port(host_part), owner, repo, clone_url: String::from_str(input) },
        ),
        None => Err(err),
    }
}

/// `git@github.com:owner/repo.git`
pub fn parse_ssh(input: &str) -> (r: Result<RepoInfo, ParseRepoError>)
    requires
        has_prefix(input@, "git@"@),
    ensures
        result_view(r) == spec_parse_ssh(input@),
{
    let rest = substring(input, "git@".unicode_len(), input.unicode_len());
    match split_once(&rest, ':') {
        Some((host_part, path)) => info_from_parts(
            &host_part,
            &path,
            input,
            ParseRepoError::InvalidSsh,
        ),
        None => Err(ParseRepoError::InvalidSsh),
    }
}

/// `ssh://git@git.gitlab.cn:2224/web/cms.git`
pub fn parse_ssh_scheme(input: &str) -> (r: Result<RepoInfo, ParseRepoError>)
    ensures
        result_view(r) == spec_parse_ssh_scheme(input@),
{
    let without_scheme = match strip_prefix(input, "ssh://git@") {
        Some(rest) => rest,
        None => match strip_prefix(input, "ssh://") {
            Some(rest) => rest,
            None => return Err(ParseRepoError::InvalidSsh),
        },
    };
    match split_host_path(&without_scheme) {
        Some((host_part, path)) => info_from_parts(
            &host_part,
            &path,
            input,
            ParseRepoError::InvalidSsh,
        ),
        None => Err(ParseRepoError::InvalidSsh),
    }
}

/// `https://github.com/owner/repo[.git]` or `https://192.168.1.1:8080/owner/repo.git`
pub fn parse_https(input: &str) -> (r: Result<RepoInfo, ParseRepoError>)
    requires
        has_prefix(input@, "https://"@) || has_prefix(input@, "http://"@),
    ensures
        result_view(r) == spec_parse_https(input@),
{
    let without_scheme = match strip_prefix(input, "https://") {
        Some(rest) => rest,
        None => substring(input, "http://".unicode_len(), input.unicode_len()),
    };
    match split_host_path(&without_scheme) {
        Some((host_part, path)) => match split_once(&path, '/') {
            Some((owner, rest)) => Ok(
                RepoInfo {
                    host: strip_port(&host_part),
                    owner,
                    repo: remove_suffix(&rest, ".git"),
                    clone_url: String::from_str(input),
                },
            ),
            None => Err(ParseRepoError::InvalidHttps),
        },
        None => Err(ParseRepoError::InvalidHttps),
    }
}

/// Parse a repo argument into `RepoInfo`.
///
/// Supported formats:
/// - `git@github.com:owner/repo.git` (SSH)
/// - `ssh://git@host:port/owner/repo.git` (SSH with port)
/// - `https://github.com/owner/repo.git` (HTTPS)
/// - `https://192.168.1.1:8080/owner/repo.git` (HTTPS with IP and port)
/// - `owner/repo` (short form)
///
/// A local path (`./path/to/local/repo` or `/abs/path`) gives
/// `ParseRepoError::LocalPath`: its remote is read from the disk, and
/// `parse_local_remote` takes it from there.
pub fn parse_repo(input: &str, default_platform: &str) -> (r: Result<RepoInfo, ParseRepoError>)
    ensures
        result_view(r) == spec_parse_repo(input@, default_platform@),
{
    let n = input.unicode_len();
    if n > 0 && (input.get_char(0) == '.' || input.get_char(0) == '/') {
        return Err(ParseRepoError::LocalPath);
    }
    if starts_with(input, "ssh://") {
        return parse_ssh_scheme(input);
    }
    if starts_with(input, "git@") {
        return parse_ssh(input);
    }
    if starts_with(input, "https://") || starts_with(input, "http://") {
        return parse_https(input);
    }
    match split_once(input, '/') {
        Some((owner, repo)) => {
            if owner.unicode_len() > 0 && repo.unicode_len() > 0 && !contains_char(&owner, '.') {
                let host = String::from_str(default_platform);
                let clone_url = String::from_str("git@").concat(default_platform).concat(
                    ":",
                ).concat(&owner).concat("/").concat(&repo).concat(".git");
                Ok(RepoInfo { host, owner, repo, clone_url })
            } else {
                Err(ParseRepoError::Unrecognized)
            }
        },
        None => Err(ParseRepoError::Unrecognized),
    }
}

/// A local checkout's info: its `remote.origin.url` (as `git config`
/// printed it, trimmed) parsed with `github.com` as default platform, with
/// the checkout's own path as the URL to take it from.
pub open spec fn spec_parse_local_remote(remote_output: Seq<char>, local_path: Seq<char>) -> Result<
    RepoInfoView,
    ParseRepoError,
> {
    match spec_parse_repo(spec_trim(remote_output), "github.com"@) {
        Ok(info) => Ok(
            RepoInfoView {
                host: info.host,
                owner: info.owner,
                repo: info.repo,
                clone_url: local_path,
            },
        ),
        Err(e) => Err(e),
    }
}

/// The info of the local checkout at `local_path` (canonical), given what
/// `git config --get remote.origin.url` printed there.
pub fn parse_local_remote(remote_output: &str, local_path: &str) -> (r: Result<
    RepoInfo,
    ParseRepoError,
>)
    ensures
        result_view(r) == spec_parse_local_remote(remote_output@, local_path@),
{
    let url = trim(remote_output);
    match parse_repo(&url, "github.com") {
        Ok(info) => Ok(
            RepoInfo {
                host: info.host,
                owner: info.owner,
                repo: info.repo,
                clone_url: String::from_str(local_path),
            },
        ),
        Err(e) => Err(e),
    }
}

/// git's progress output with every line indented by three spaces, and
/// whether the next byte starts a line. Only `\n` starts a new line: a `\r`
/// passes through, so that in-place progress updates overwrite each other.
pub open spec fn spec_indent(bytes: Seq<u8>, at_line_start: bool) -> (Seq<u8>, bool)
    decreases bytes.len(),
{
    if bytes.len() == 0 {
        (Seq::empty(), at_line_start)
    } else {
        let (out, at) = spec_indent(bytes.drop_last(), at_line_start);
        let b = bytes.last();
        let out = if at {
            out + seq![32u8, 32u8, 32u8]
        } else {
            out
        };
        (out.push(b), b == 10u8)
    }
}

/// Indent one chunk of git's progress output (see `spec_indent`).
pub fn indent_progress(bytes: &[u8], at_line_start: bool) -> (r: (Vec<u8>, bool))
    ensures
        (r.0@, r.1) == spec_indent(bytes@, at_line_start),
{
    let mut out: Vec<u8> = Vec::new();
    let mut at = at_line_start;
    let n = bytes.len();
    let mut i: usize = 0;
    assert(bytes@.take(0) =~= Seq::<u8>::empty());
    while i < n
        invariant
            n == bytes@.len(),
            i <= n,
            (out@, at) == spec_indent(bytes@.take(i as int), at_line_start),
        decreases n - i,
    {
        let b = bytes[i];
        let ghost next = bytes@.take(i + 1);
        assert(next.drop_last() =~= bytes@.take(i as int));
        assert(next.last() == b);
        let ghost before = out@;
        if at {
            out.push(32u8);
            out.push(32u8);
            out.push(32u8);
            assert(out@ =~= before + seq![32u8, 32u8, 32u8]);
        }
        out.push(b);
        at = b == 10u8;
        i += 1;
    }
    assert(bytes@.take(n as int) =~= bytes@);
    (out, at)
}

/// Indenting git's output chunk by chunk, carrying over whether a line has
/// just ended, gives the same bytes as indenting it all at once: how the
/// output is split into reads does not matter.
pub proof fn law_indent_chunks(a: Seq<u8>, b: Seq<u8>, at_line_start: bool)
    ensures
        ({
            let (x, at1) = spec_indent(a, at_line_start);
            let (y, at2) = spec_indent(b, at1);
            spec_indent(a + b, at_line_start) == (x + y, at2)
        }),
    decreases b.len(),
{
    let (x, at1) = spec_indent(a, at_line_start);
    if b.len() == 0 {
        assert(a + b =~= a);
        assert(x + Seq::<u8>::empty() =~= x);
    } else {
        law_indent_chunks(a, b.drop_last(), at_line_start);
        assert((a + b).drop_last() =~= a + b.drop_last());
        assert((a + b).last() == b.last());
        let (y0, at0) = spec_indent(b.drop_last(), at1);
        if at0 {
            assert((x + y0) + seq![32u8, 32u8, 32u8] =~= x + (y0 + seq![32u8, 32u8, 32u8]));
            assert(((x + y0) + seq![32u8, 32u8, 32u8]).push(b.last()) =~= x + (y0 + seq![
                32u8,
                32u8,
                32u8,
            ]).push(b.last()));
        } else {
            assert((x + y0).push(b.last()) =~= x + y0.push(b.last()));
        }
    }
}

} // verus!
