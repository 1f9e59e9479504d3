//! Credentials from git's credential helper, and git's failures.

use vstd::prelude::*;
use crate::text::{chars_of, split_lines, spec_lines, views, find_char, first_index_of, lemma_first_index_of, chars_range, chars_eq, string_of, push_str, copy_string};
use crate::gerrit::comment::opt_view;

verus! {

/// A username/password pair from git's credential helper.
///
/// The type has no `Debug`: a password cannot reach a log line or a panic
/// message through it. [`Credential::redacted`] shows it with the password
/// masked.
#[derive(Clone, PartialEq, Eq)]
pub struct Credential {
    pub username: String,
    pub password: String,
}

impl Credential {
    /// A copy of this credential.
    pub fn duplicate(&self) -> (r: Credential)
        ensures
            r.username@ == self.username@,
            r.password@ == self.password@,
    {
        Credential { username: copy_string(&self.username), password: copy_string(&self.password) }
    }

    /// The credential shown for diagnostics, with the password masked.
    pub fn redacted(&self) -> (r: String)
        ensures
            r@ == "Credential { username: \""@ + self.username@ + "\", password: \"<redacted>\" }"@,
    {
        let mut s = String::new();
        push_str(&mut s, "Credential { username: \"");
        push_str(&mut s, self.username.as_str());
        push_str(&mut s, "\", password: \"<redacted>\" }");
        s
    }
}

/// Failures running git. Every variant names the offending value.
#[derive(Debug, Clone, PartialEq, Eq)]
pub enum GitError {
    GitNotFound,
    NotAClone { cwd: String },
    NoSuchRemote { remote: String },
    NoCredential { host: String },
    CommandFailed { command: String, status: String, stderr: String },
    Spawn { command: String, message: String },
}

/// The message describing a git failure.
pub open spec fn spec_git_error_text(e: GitError) -> Seq<char> {
    match e {
        GitError::GitNotFound => "`git` is not on PATH — Remendo drives the git CLI and cannot run without it"@,
        GitError::NotAClone { cwd } => "not inside a git clone (cwd: "@ + cwd@ + "). `remendo <change-id>` must run from within a clone of the change's project — a change id does not identify a repository."@,
        GitError::NoSuchRemote { remote } => "remote `"@ + remote@ + "` has no URL configured in this clone"@,
        GitError::NoCredential { host } => "no credential available for host `"@ + host@ + "`. Remendo asks git's credential helper, so whatever authenticates `git push` to this host should work here too."@,
        GitError::CommandFailed { command, status, stderr } => "`git "@ + command@ + "` failed with status "@ + status@ + ": "@ + stderr@,
        GitError::Spawn { command, message } => "could not run `git "@ + command@ + "`: "@ + message@,
    }
}

impl GitError {
    /// The human-readable message for this failure.
    pub fn describe(&self) -> (r: String)
        ensures
            r@ == spec_git_error_text(*self),
    {
        let mut s = String::new();
        match self {
            GitError::GitNotFound => {
                push_str(&mut s, "`git` is not on PATH — Remendo drives the git CLI and cannot run without it");
            },
            GitError::NotAClone { cwd } => {
                push_str(&mut s, "not inside a git clone (cwd: ");
                push_str(&mut s, cwd.as_str());
                push_str(&mut s, "). `remendo <change-id>` must run from within a clone of the change's project — a change id does not identify a repository.");
            },
            GitError::NoSuchRemote { remote } => {
                push_str(&mut s, "remote `");
                push_str(&mut s, remote.as_str());
                push_str(&mut s, "` has no URL configured in this clone");
            },
            GitError::NoCredential { host } => {
                push_str(&mut s, "no credential available for host `");
                push_str(&mut s, host.as_str());
                push_str(&mut s, "`. Remendo asks git's credential helper, so whatever authenticates `git push` to this host should work here too.");
            },
            GitError::CommandFailed { command, status, stderr } => {
                push_str(&mut s, "`git ");
                push_str(&mut s, command.as_str());
                push_str(&mut s, "` failed with status ");
                push_str(&mut s, status.as_str());
                push_str(&mut s, ": ");
                push_str(&mut s, stderr.as_str());
            },
            GitError::Spawn { command, message } => {
                push_str(&mut s, "could not run `git ");
                push_str(&mut s, command.as_str());
                push_str(&mut s, "`: ");
                push_str(&mut s, message.as_str());
            },
        }
        s
    }
}

/// A `key=value` line split at its first `=`.
pub open spec fn key_value(line: Seq<char>) -> Option<(Seq<char>, Seq<char>)> {
    match first_index_of(line, '=') {
        Some(i) => Some((line.take(i), line.skip(i + 1))),
        None => None,
    }
}

/// The value of the last line whose key is `key`.
pub open spec fn last_value(lines: Seq<Seq<char>>, key: Seq<char>) -> Option<Seq<char>>
    decreases lines.len(),
{
    if lines.len() == 0 {
        None
    } else {
        match key_value(lines.last()) {
            Some(kv) if kv.0 == key => Some(kv.1),
            _ => last_value(lines.drop_last(), key),
        }
    }
}

/// Parse `git credential fill`'s `key=value` output.
///
/// Only the first `=` of a line separates key from value, so a password
/// holding `=` survives; unrecognised lines are ignored; a helper that gave no
/// username or no password gave no credential.
pub fn parse_credential(stdout: &str, host: &str) -> (r: Result<Credential, GitError>)
    ensures
        match r {
            Ok(c) => last_value(spec_lines(stdout@), "username"@) == Some(c.username@)
                && last_value(spec_lines(stdout@), "password"@) == Some(c.password@),
            Err(e) => (last_value(spec_lines(stdout@), "username"@) is None
                || last_value(spec_lines(stdout@), "password"@) is None)
                && (e matches GitError::NoCredential { host: h } && h@ == host@),
        },
{
    let text = chars_of(stdout);
    let lines = split_lines(text.as_slice());
    let ukey = chars_of("username");
    let pkey = chars_of("password");
    let mut username: Option<String> = None;
    let mut password: Option<String> = None;
    let mut i: usize = 0;
    while i < lines.len()
        invariant
            views(lines@) == spec_lines(stdout@),
            ukey@ == "username"@,
            pkey@ == "password"@,
            i <= lines@.len(),
            opt_view(username) == last_value(views(lines@).take(i as int), "username"@),
            opt_view(password) == last_value(views(lines@).take(i as int), "password"@),
        decreases lines@.len() - i,
    {
        let line = &lines[i];
        let ghost lv = views(lines@).take(i + 1);
        assert(lv.drop_last() =~= views(lines@).take(i as int));
        assert(lv.last() == line@);
        match find_char(line.as_slice(), '=') {
            Some(k) => {
                proof { lemma_first_index_of(line@, '='); }
                let key = chars_range(line.as_slice(), 0, k);
                let ll = line.len();
                let value = chars_range(line.as_slice(), k + 1, ll);
                if chars_eq(key.as_slice(), ukey.as_slice()) {
                    username = Some(string_of(value.as_slice()));
                }
                if chars_eq(key.as_slice(), pkey.as_slice()) {
                    password = Some(string_of(value.as_slice()));
                }
            },
            None => {},
        }
        i = i + 1;
    }
    assert(views(lines@).take(lines@.len() as int) =~= views(lines@));
    match (username, password) {
        (Some(username), Some(password)) => Ok(Credential { username, password }),
        _ => Err(GitError::NoCredential { host: host.to_owned() }),
    }
}

} // verus!
