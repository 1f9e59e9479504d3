//! Git, behind a project-owned trait.
//!
//! Credentials are git's concern: nothing here stores a secret or reads a
//! `.netrc`; a credential comes from `git credential fill`, so whatever
//! authenticates `git push` works here too.

pub mod command;
pub mod credential;
pub mod fake;

pub use command::GitOutput;
pub use credential::{Credential, GitError, parse_credential};
pub use fake::{CallView, FakeGit, GitCall};

use vstd::prelude::*;
use crate::text::Text;

verus! {

/// The mutating git calls that went through, in order.
pub type CallLog = Seq<CallView>;

/// An answer of text, as plain values.
pub type TextAnswer = Result<Seq<char>, GitError>;

/// An answer of optional text, as plain values.
pub type OptionalAnswer = Result<Option<Seq<char>>, GitError>;

/// A credential answer as plain values: the user name and the password.
pub type CredentialAnswer = Result<(Seq<char>, Seq<char>), GitError>;

/// A text answer as plain values.
pub open spec fn text_answer(r: Result<String, GitError>) -> TextAnswer {
    match r {
        Ok(s) => Ok(s@),
        Err(e) => Err(e),
    }
}

/// An optional text answer as plain values.
pub open spec fn optional_answer(r: Result<Option<String>, GitError>) -> OptionalAnswer {
    match r {
        Ok(Some(s)) => Ok(Some(s@)),
        Ok(None) => Ok(None),
        Err(e) => Err(e),
    }
}

/// A credential answer as plain values: the user name and the password.
pub open spec fn credential_answer_view(r: Result<Credential, GitError>) -> CredentialAnswer {
    match r {
        Ok(c) => Ok((c.username@, c.password@)),
        Err(e) => Err(e),
    }
}

/// The git operations the review loop needs. Paths are plain strings.
///
/// What a question to git may be answered with is a relation: the real git
/// answers from the clone and the machine as they are, and a fake from its
/// canned data. Each reading method gives one of those answers.
pub trait GitCli {
    /// The mutating calls that went through, in order.
    spec fn applied(&self) -> CallLog;

    /// Whether `r` is an answer this git gives when asked for the clone's root.
    spec fn root_answer(&self, r: TextAnswer) -> bool;

    /// Whether `r` is an answer this git gives when asked for `remote`'s URL.
    spec fn remote_answer(&self, remote: Text, r: TextAnswer) -> bool;

    /// Whether `r` is an answer this git gives when asked for config `key`.
    spec fn config_answer(&self, key: Text, r: OptionalAnswer) -> bool;

    /// Whether `r` is an answer this git gives when asked for `host`'s credential.
    spec fn credential_answer(&self, host: Text, r: CredentialAnswer) -> bool;

    /// The root of the clone containing the working directory.
    fn repo_root(&self) -> (r: Result<String, GitError>)
        ensures
            self.root_answer(text_answer(r));

    /// A remote's URL, used to derive the Gerrit base URL.
    fn remote_url(&self, remote: &str) -> (r: Result<String, GitError>)
        ensures
            self.remote_answer(remote@, text_answer(r));

    /// A git config value, or `None` when the key is unset.
    fn config_get(&self, key: &str) -> (r: Result<Option<String>, GitError>)
        ensures
            self.config_answer(key@, optional_answer(r));

    /// A credential for `host` via git's credential protocol.
    fn fill_credential(&self, host: &str) -> (r: Result<Credential, GitError>)
        ensures
            self.credential_answer(host@, credential_answer_view(r));

    /// Fetch `refspec` from `remote` into the clone.
    fn fetch(&mut self, remote: &str, refspec: &str) -> (r: Result<(), GitError>)
        ensures
            r is Err ==> final(self).applied() == old(self).applied(),
            r is Ok ==> final(self).applied() == old(self).applied().push(CallView::Fetch { remote: remote@, refspec: refspec@ });

    /// Create a worktree at `path` with `revision` checked out, detached.
    fn worktree_add(&mut self, path: &str, revision: &str) -> (r: Result<(), GitError>)
        ensures
            r is Err ==> final(self).applied() == old(self).applied(),
            r is Ok ==> final(self).applied() == old(self).applied().push(CallView::WorktreeAdd { path: path@, revision: revision@ });

    /// Stage one path inside `worktree`.
    fn stage(&mut self, worktree: &str, path: &str) -> (r: Result<(), GitError>)
        ensures
            r is Err ==> final(self).applied() == old(self).applied(),
            r is Ok ==> final(self).applied() == old(self).applied().push(CallView::Stage { worktree: worktree@, path: path@ });

    /// Amend the staged changes into the checked-out commit; `message` is
    /// `Some` only when the commit message is to be rewritten.
    fn commit_amend(&mut self, worktree: &str, message: Option<&str>) -> (r: Result<(), GitError>)
        ensures
            r is Err ==> final(self).applied() == old(self).applied(),
            r is Ok ==> final(self).applied() == old(self).applied().push(CallView::CommitAmend {
                worktree: worktree@,
                message: match message { Some(m) => Some(m@), None => None },
            });

    /// Push from `worktree` using `refspec`.
    fn push(&mut self, worktree: &str, refspec: &str) -> (r: Result<(), GitError>)
        ensures
            r is Err ==> final(self).applied() == old(self).applied(),
            r is Ok ==> final(self).applied() == old(self).applied().push(CallView::Push { worktree: worktree@, refspec: refspec@ });
}

} // verus!
