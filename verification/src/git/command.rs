//! What the `git` executable is asked, and what its answers mean.
//!
//! Spawning git is the front end's business: it runs the arguments built
//! here, in the directory named here, and hands back what the process said.
//! The reading of each answer is made here: a non-zero `config --get` is an
//! unset key rather than a failure, a failed `remote get-url` names the
//! remote, and output is trimmed.

use vstd::prelude::*;
use crate::text::{copy_string, chars_of, push_str, spec_trim, string_of_range, trim_bounds};
use super::{Credential, GitCall, GitError, parse_credential};
use super::fake::CallView;
use super::credential::{last_value};
use crate::text::spec_lines;

verus! {

/// What a finished git process said.
#[derive(Debug, Clone, PartialEq, Eq)]
pub struct GitOutput {
    /// Whether it exited successfully.
    pub success: bool,
    /// Its exit status, as the platform prints it.
    pub status: String,
    /// Standard output, as text.
    pub stdout: String,
    /// Standard error, as text.
    pub stderr: String,
}

/// `s` with surrounding whitespace removed.
pub fn trimmed(s: &str) -> (r: String)
    ensures
        r@ == spec_trim(s@),
{
    let v = chars_of(s);
    let (start, end) = trim_bounds(v.as_slice());
    string_of_range(v.as_slice(), start, end)
}

/// Words joined by single spaces, as a command line is shown.
pub open spec fn spec_join_words(words: Seq<Seq<char>>) -> Seq<char>
    decreases words.len(),
{
    if words.len() == 0 {
        Seq::empty()
    } else if words.len() == 1 {
        words[0]
    } else {
        spec_join_words(words.drop_last()) + " "@ + words.last()
    }
}

pub open spec fn word_views(v: Seq<String>) -> Seq<Seq<char>> {
    v.map_values(|w: String| w@)
}

/// Join words with single spaces.
pub fn join_words(words: &[String]) -> (r: String)
    ensures
        r@ == spec_join_words(word_views(words@)),
{
    let mut r = String::new();
    let mut i: usize = 0;
    while i < words.len()
        invariant
            i <= words@.len(),
            r@ == spec_join_words(word_views(words@.take(i as int))),
        decreases words@.len() - i,
    {
        assert(word_views(words@.take(i + 1)).drop_last() =~= word_views(words@.take(i as int)));
        if i > 0 {
            push_str(&mut r, " ");
        }
        push_str(&mut r, words[i].as_str());
        proof {
            if i == 0 {
                assert(r@ =~= word_views(words@.take(1))[0]);
            }
        }
        i = i + 1;
    }
    assert(words@.take(words@.len() as int) =~= words@);
    r
}

/// The arguments of a mutating call, as git is given them.
pub open spec fn spec_call_args(call: CallView) -> Seq<Seq<char>> {
    match call {
        CallView::Fetch { remote, refspec } => seq!["fetch"@, remote, refspec],
        CallView::WorktreeAdd { path, revision } => seq!["worktree"@, "add"@, "--detach"@, path, revision],
        CallView::Stage { worktree, path } => seq!["add"@, "--"@, path],
        CallView::CommitAmend { worktree, message } => match message {
            Some(m) => seq!["commit"@, "--amend"@, "-m"@, m],
            None => seq!["commit"@, "--amend"@, "--no-edit"@],
        },
        CallView::Push { worktree, refspec } => seq!["push"@, "origin"@, refspec],
    }
}

/// The directory a mutating call runs in: the worktree for the calls that
/// act on one, the clone otherwise.
pub open spec fn spec_call_dir(call: CallView) -> Option<Seq<char>> {
    match call {
        CallView::Stage { worktree, path } => Some(worktree),
        CallView::CommitAmend { worktree, message } => Some(worktree),
        CallView::Push { worktree, refspec } => Some(worktree),
        _ => None,
    }
}

/// The arguments git is run with for `call`. A commit message given to the
/// amend rewrites the message; without one the message is kept.
pub fn call_args(call: &GitCall) -> (r: Vec<String>)
    ensures
        word_views(r@) == spec_call_args(call.view()),
{
    let r = match call {
        GitCall::Fetch { remote, refspec } => vec!["fetch".to_owned(), copy_string(remote), copy_string(refspec)],
        GitCall::WorktreeAdd { path, revision } => vec![
            "worktree".to_owned(),
            "add".to_owned(),
            "--detach".to_owned(),
            copy_string(path),
            copy_string(revision),
        ],
        GitCall::Stage { worktree, path } => vec!["add".to_owned(), "--".to_owned(), copy_string(path)],
        GitCall::CommitAmend { worktree, message } => match message {
            Some(m) => vec!["commit".to_owned(), "--amend".to_owned(), "-m".to_owned(), copy_string(m)],
            None => vec!["commit".to_owned(), "--amend".to_owned(), "--no-edit".to_owned()],
        },
        GitCall::Push { worktree, refspec } => vec!["push".to_owned(), "origin".to_owned(), copy_string(refspec)],
    };
    assert(word_views(r@) =~= spec_call_args(call.view()));
    r
}

/// Where `call` runs: `Some(worktree)` for staging, amending and pushing.
pub fn call_dir(call: &GitCall) -> (r: Option<&str>)
    ensures
        match r {
            Some(d) => spec_call_dir(call.view()) == Some(d@),
            None => spec_call_dir(call.view()) is None,
        },
{
    match call {
        GitCall::Stage { worktree, path } => Some(worktree.as_str()),
        GitCall::CommitAmend { worktree, message } => Some(worktree.as_str()),
        GitCall::Push { worktree, refspec } => Some(worktree.as_str()),
        _ => None,
    }
}

/// A read-only question put to git.
#[derive(Debug, Clone, PartialEq, Eq)]
pub enum GitQuery {
    /// The root of the clone around the working directory.
    RepoRoot,
    /// A remote's URL.
    RemoteUrl { remote: String },
    /// A config value.
    ConfigGet { key: String },
    /// A credential from git's credential helpers; the request goes on stdin.
    CredentialFill,
}

/// The arguments git is run with for `query`.
pub open spec fn spec_query_args(query: GitQuery) -> Seq<Seq<char>> {
    match query {
        GitQuery::RepoRoot => seq!["rev-parse"@, "--show-toplevel"@],
        GitQuery::RemoteUrl { remote } => seq!["remote"@, "get-url"@, remote@],
        GitQuery::ConfigGet { key } => seq!["config"@, "--get"@, key@],
        GitQuery::CredentialFill => seq!["credential"@, "fill"@],
    }
}

/// The arguments git is run with for `query`.
pub fn query_args(query: &GitQuery) -> (r: Vec<String>)
    ensures
        word_views(r@) == spec_query_args(*query),
{
    let r = match query {
        GitQuery::RepoRoot => vec!["rev-parse".to_owned(), "--show-toplevel".to_owned()],
        GitQuery::RemoteUrl { remote } => vec!["remote".to_owned(), "get-url".to_owned(), copy_string(remote)],
        GitQuery::ConfigGet { key } => vec!["config".to_owned(), "--get".to_owned(), copy_string(key)],
        GitQuery::CredentialFill => vec!["credential".to_owned(), "fill".to_owned()],
    };
    assert(word_views(r@) =~= spec_query_args(*query));
    r
}

/// The error for a git process that could not be started: git missing from
/// `PATH`, or any other failure to spawn `command`.
pub fn spawn_error(not_found: bool, command: &str, message: &str) -> (r: GitError)
    ensures
        not_found ==> r == GitError::GitNotFound,
        !not_found ==> (r matches GitError::Spawn { command: c, message: m } && c@ == command@ && m@ == message@),
{
    if not_found {
        GitError::GitNotFound
    } else {
        GitError::Spawn { command: command.to_owned(), message: message.to_owned() }
    }
}

/// A command that must succeed: its trimmed output, or a failure naming the
/// command line, its status and its trimmed error output.
pub fn run_outcome(args: &[String], out: &GitOutput) -> (r: Result<String, GitError>)
    ensures
        out.success ==> (r matches Ok(s) && s@ == spec_trim(out.stdout@)),
        !out.success ==> (r matches Err(GitError::CommandFailed { command, status, stderr })
            && command@ == spec_join_words(word_views(args@)) && status@ == out.status@
            && stderr@ == spec_trim(out.stderr@)),
{
    if out.success {
        Ok(trimmed(out.stdout.as_str()))
    } else {
        Err(GitError::CommandFailed {
            command: join_words(args),
            status: copy_string(&out.status),
            stderr: trimmed(out.stderr.as_str()),
        })
    }
}

/// The answer of `rev-parse --show-toplevel` run in `cwd`: the clone's root,
/// or, when git refuses, that `cwd` is not inside a clone.
pub fn repo_root_outcome(cwd: &str, out: &GitOutput) -> (r: Result<String, GitError>)
    ensures
        out.success ==> (r matches Ok(s) && s@ == spec_trim(out.stdout@)),
        !out.success ==> (r matches Err(GitError::NotAClone { cwd: c }) && c@ == cwd@),
{
    if out.success {
        Ok(trimmed(out.stdout.as_str()))
    } else {
        Err(GitError::NotAClone { cwd: cwd.to_owned() })
    }
}

/// The answer of `remote get-url <remote>`: the URL, or an error naming the
/// remote.
pub fn remote_url_outcome(remote: &str, out: &GitOutput) -> (r: Result<String, GitError>)
    ensures
        out.success ==> (r matches Ok(s) && s@ == spec_trim(out.stdout@)),
        !out.success ==> (r matches Err(GitError::NoSuchRemote { remote: n }) && n@ == remote@),
{
    if out.success {
        Ok(trimmed(out.stdout.as_str()))
    } else {
        Err(GitError::NoSuchRemote { remote: remote.to_owned() })
    }
}

/// The answer of `config --get <key>`. A non-zero exit means the key is
/// unset, which is not a failure; an empty value counts as unset too.
pub fn config_value(out: &GitOutput) -> (r: Option<String>)
    ensures
        match r {
            Some(v) => out.success && v@ == spec_trim(out.stdout@) && v@.len() > 0,
            None => !out.success || spec_trim(out.stdout@).len() == 0,
        },
{
    if !out.success {
        return None;
    }
    let value = trimmed(out.stdout.as_str());
    if value.unicode_len() == 0 {
        None
    } else {
        Some(value)
    }
}

/// What `credential fill` is asked for `host`: HTTPS on that host, then the
/// blank line that ends the request.
pub fn credential_request(host: &str) -> (r: String)
    ensures
        r@ == "protocol=https\nhost="@ + host@ + "\n\n"@,
{
    let mut r = String::new();
    push_str(&mut r, "protocol=https\nhost=");
    push_str(&mut r, host);
    push_str(&mut r, "\n\n");
    r
}

/// The answer of `credential fill` for `host`: a helper that failed gave no
/// credential; otherwise its output is parsed.
pub fn credential_outcome(host: &str, out: &GitOutput) -> (r: Result<Credential, GitError>)
    ensures
        !out.success ==> (r matches Err(GitError::NoCredential { host: h }) && h@ == host@),
        out.success ==> match r {
            Ok(c) => last_value(spec_lines(out.stdout@), "username"@) == Some(c.username@)
                && last_value(spec_lines(out.stdout@), "password"@) == Some(c.password@),
            Err(e) => (last_value(spec_lines(out.stdout@), "username"@) is None
                || last_value(spec_lines(out.stdout@), "password"@) is None)
                && (e matches GitError::NoCredential { host: h } && h@ == host@),
        },
{
    if !out.success {
        return Err(GitError::NoCredential { host: host.to_owned() });
    }
    parse_credential(out.stdout.as_str(), host)
}

} // verus!
