//! A named fake [`GitCli`] for tests: canned answers, and a record of the
//! mutating calls it received, so a test can assert what git was asked to do
//! without running git.

use vstd::prelude::*;
use crate::text::{str_eq, copy_string};
use crate::gerrit::comment::{opt_view, copy_opt};
use super::{Credential, GitCli, GitError};

verus! {

/// A mutating git call, recorded in order.
#[derive(Debug, Clone, PartialEq, Eq)]
pub enum GitCall {
    Fetch { remote: String, refspec: String },
    WorktreeAdd { path: String, revision: String },
    Stage { worktree: String, path: String },
    CommitAmend { worktree: String, message: Option<String> },
    Push { worktree: String, refspec: String },
}

/// A recorded call, as plain values.
pub enum CallView {
    Fetch { remote: Seq<char>, refspec: Seq<char> },
    WorktreeAdd { path: Seq<char>, revision: Seq<char> },
    Stage { worktree: Seq<char>, path: Seq<char> },
    CommitAmend { worktree: Seq<char>, message: Option<Seq<char>> },
    Push { worktree: Seq<char>, refspec: Seq<char> },
}

impl GitCall {
    pub open spec fn view(&self) -> CallView {
        match self {
            GitCall::Fetch { remote, refspec } => CallView::Fetch { remote: remote@, refspec: refspec@ },
            GitCall::WorktreeAdd { path, revision } => CallView::WorktreeAdd { path: path@, revision: revision@ },
            GitCall::Stage { worktree, path } => CallView::Stage { worktree: worktree@, path: path@ },
            GitCall::CommitAmend { worktree, message } => CallView::CommitAmend { worktree: worktree@, message: opt_view(*message) },
            GitCall::Push { worktree, refspec } => CallView::Push { worktree: worktree@, refspec: refspec@ },
        }
    }

    /// A copy of this call.
    pub fn duplicate(&self) -> (r: GitCall)
        ensures
            r.view() == self.view(),
    {
        match self {
            GitCall::Fetch { remote, refspec } => GitCall::Fetch { remote: copy_string(remote), refspec: copy_string(refspec) },
            GitCall::WorktreeAdd { path, revision } => GitCall::WorktreeAdd { path: copy_string(path), revision: copy_string(revision) },
            GitCall::Stage { worktree, path } => GitCall::Stage { worktree: copy_string(worktree), path: copy_string(path) },
            GitCall::CommitAmend { worktree, message } => GitCall::CommitAmend { worktree: copy_string(worktree), message: copy_opt(message) },
            GitCall::Push { worktree, refspec } => GitCall::Push { worktree: copy_string(worktree), refspec: copy_string(refspec) },
        }
    }
}

/// The views of recorded calls.
pub open spec fn call_views(calls: Seq<GitCall>) -> Seq<CallView> {
    calls.map_values(|c: GitCall| c.view())
}

/// The value bound to `key` in an association list: the first binding wins.
pub open spec fn lookup(pairs: Seq<(String, String)>, key: Seq<char>) -> Option<Seq<char>>
    decreases pairs.len(),
{
    if pairs.len() == 0 {
        None
    } else if pairs[0].0@ == key {
        Some(pairs[0].1@)
    } else {
        lookup(pairs.drop_first(), key)
    }
}

/// Looks `key` up in an association list.
pub fn lookup_pair(pairs: &Vec<(String, String)>, key: &str) -> (r: Option<String>)
    ensures
        opt_view(r) == lookup(pairs@, key@),
{
    let mut i: usize = 0;
    assert(pairs@.skip(0) =~= pairs@);
    while i < pairs.len()
        invariant
            i <= pairs@.len(),
            lookup(pairs@, key@) == lookup(pairs@.skip(i as int), key@),
        decreases pairs@.len() - i,
    {
        assert(pairs@.skip(i as int).drop_first() =~= pairs@.skip(i + 1));
        if str_eq(pairs[i].0.as_str(), key) {
            return Some(copy_string(&pairs[i].1));
        }
        i = i + 1;
    }
    None
}

proof fn lemma_lookup_push(s: Seq<(String, String)>, p: (String, String), k: Seq<char>)
    ensures
        lookup(s.push(p), k) == (if lookup(s, k) is None && k == p.0@ { Some(p.1@) } else { lookup(s, k) }),
    decreases s.len(),
{
    if s.len() > 0 {
        assert(s.push(p).drop_first() =~= s.drop_first().push(p));
        assert(s.push(p)[0] == s[0]);
        lemma_lookup_push(s.drop_first(), p, k);
    } else {
        assert(s.push(p).drop_first() =~= Seq::<(String, String)>::empty());
        assert(s.push(p)[0] == p);
        assert(lookup(s.push(p).drop_first(), k) is None);
    }
}

proof fn lemma_lookup_update(s: Seq<(String, String)>, j: int, p: (String, String), k: Seq<char>)
    requires
        0 <= j < s.len(),
        p.0@ == s[j].0@,
        forall|i: int| 0 <= i < j ==> s[i].0@ != s[j].0@,
    ensures
        lookup(s.update(j, p), k) == (if k == p.0@ { Some(p.1@) } else { lookup(s, k) }),
    decreases s.len(),
{
    if j > 0 {
        assert(s.update(j, p).drop_first() =~= s.drop_first().update(j - 1, p));
        assert(s.update(j, p)[0] == s[0]);
        assert forall|i: int| 0 <= i < j - 1 implies #[trigger] s.drop_first()[i].0@ != s.drop_first()[j - 1].0@ by {
            assert(s.drop_first()[i] == s[i + 1]);
        }
        lemma_lookup_update(s.drop_first(), j - 1, p, k);
    } else {
        assert(s.update(j, p).drop_first() =~= s.drop_first());
        assert(s.update(j, p)[0] == p);
    }
}

/// No key is bound twice, as in a map.
pub open spec fn keys_distinct(pairs: Seq<(String, String)>) -> bool {
    forall|i: int, j: int| 0 <= i < j < pairs.len() ==> (#[trigger] pairs[i]).0@ != (#[trigger] pairs[j]).0@
}

/// Binds `key` to `value`, replacing an earlier binding, so keys bound once
/// stay bound once.
pub fn insert_pair(pairs: &mut Vec<(String, String)>, key: &str, value: &str)
    ensures
        lookup(final(pairs)@, key@) == Some(value@),
        forall|k: Seq<char>| k != key@ ==> lookup(final(pairs)@, k) == lookup(old(pairs)@, k),
        keys_distinct(old(pairs)@) ==> keys_distinct(final(pairs)@),
{
    let mut i: usize = 0;
    assert(pairs@.skip(0) =~= pairs@);
    while i < pairs.len()
        invariant
            i <= pairs@.len(),
            pairs@ == old(pairs)@,
            lookup(pairs@, key@) == lookup(pairs@.skip(i as int), key@),
            forall|m: int| 0 <= m < i ==> pairs@[m].0@ != key@,
        decreases pairs@.len() - i,
    {
        assert(pairs@.skip(i as int).drop_first() =~= pairs@.skip(i + 1));
        if str_eq(pairs[i].0.as_str(), key) {
            let entry = (key.to_owned(), value.to_owned());
            proof {
                assert forall|k: Seq<char>| true implies lookup(pairs@.update(i as int, entry), k) == (if k == key@ { Some(value@) } else { lookup(pairs@, k) }) by {
                    lemma_lookup_update(pairs@, i as int, entry, k);
                }
            }
            let ghost before = pairs@;
            pairs.set(i, entry);
            assert forall|a: int, b: int| 0 <= a < b < pairs@.len() && keys_distinct(before)
                implies (#[trigger] pairs@[a]).0@ != (#[trigger] pairs@[b]).0@ by {
                assert(before[a].0@ != before[b].0@);
                assert(before[i as int].0@ == key@);
            }
            return;
        }
        i = i + 1;
    }
    let entry = (key.to_owned(), value.to_owned());
    proof {
        assert(pairs@.skip(i as int).len() == 0);
        assert forall|k: Seq<char>| true implies lookup(pairs@.push(entry), k) == (if lookup(pairs@, k) is None && k == key@ { Some(value@) } else { lookup(pairs@, k) }) by {
            lemma_lookup_push(pairs@, entry, k);
        }
    }
    let ghost before = pairs@;
    pairs.push(entry);
    assert forall|a: int, b: int| 0 <= a < b < pairs@.len() && keys_distinct(before)
        implies (#[trigger] pairs@[a]).0@ != (#[trigger] pairs@[b]).0@ by {
        if b < before.len() {
            assert(before[a].0@ != before[b].0@);
        } else {
            assert(before[a].0@ != key@);
        }
    }
}

/// A [`GitCli`] that answers from canned data and records what it was asked.
pub struct FakeGit {
    pub repo_root: Option<String>,
    /// Remote names and their URLs.
    pub remotes: Vec<(String, String)>,
    /// Config keys and their values.
    pub config: Vec<(String, String)>,
    pub credential: Option<Credential>,
    /// Mutating calls, in the order they arrived.
    pub calls: Vec<GitCall>,
}

/// A credential as plain values.
pub open spec fn credential_view(c: Option<Credential>) -> Option<(Seq<char>, Seq<char>)> {
    match c {
        Some(c) => Some((c.username@, c.password@)),
        None => None,
    }
}

impl FakeGit {
    /// The mutating calls received so far, as plain values.
    pub open spec fn recorded(&self) -> Seq<CallView> {
        call_views(self.calls@)
    }

    /// A fake standing in a clone at `root`, with an `origin` pointing at
    /// `origin_url` and a credential that always resolves.
    pub fn in_clone(root: &str, origin_url: &str) -> (r: FakeGit)
        ensures
            opt_view(r.repo_root) == Some(root@),
            lookup(r.remotes@, "origin"@) == Some(origin_url@),
            forall|k: Seq<char>| k != "origin"@ ==> lookup(r.remotes@, k) is None,
            r.config@.len() == 0,
            credential_view(r.credential) == Some(("tester"@, "token"@)),
            r.recorded().len() == 0,
    {
        let mut remotes: Vec<(String, String)> = Vec::new();
        insert_pair(&mut remotes, "origin", origin_url);
        FakeGit {
            repo_root: Some(root.to_owned()),
            remotes,
            config: Vec::new(),
            credential: Some(Credential { username: "tester".to_owned(), password: "token".to_owned() }),
            calls: Vec::new(),
        }
    }

    /// A fake that is not inside a clone.
    pub fn outside_a_clone() -> (r: FakeGit)
        ensures
            r.repo_root is None,
            r.remotes@.len() == 0,
            r.config@.len() == 0,
            r.credential is None,
            r.recorded().len() == 0,
    {
        FakeGit { repo_root: None, remotes: Vec::new(), config: Vec::new(), credential: None, calls: Vec::new() }
    }

    /// Set a config key the fake will report.
    pub fn with_config(self, key: &str, value: &str) -> (r: FakeGit)
        ensures
            lookup(r.config@, key@) == Some(value@),
            forall|k: Seq<char>| k != key@ ==> lookup(r.config@, k) == lookup(self.config@, k),
            r.repo_root == self.repo_root,
            r.remotes == self.remotes,
            r.credential == self.credential,
            r.recorded() == self.recorded(),
    {
        let mut me = self;
        insert_pair(&mut me.config, key, value);
        me
    }

    /// Make credential lookup fail, as an unconfigured helper would.
    pub fn without_credential(self) -> (r: FakeGit)
        ensures
            r.credential is None,
            r.repo_root == self.repo_root,
            r.remotes == self.remotes,
            r.config == self.config,
            r.recorded() == self.recorded(),
    {
        let mut me = self;
        me.credential = None;
        me
    }

    /// The mutating calls this fake received, in order.
    pub fn calls(&self) -> (r: Vec<GitCall>)
        ensures
            call_views(r@) == self.recorded(),
    {
        let mut r: Vec<GitCall> = Vec::new();
        let mut i: usize = 0;
        while i < self.calls.len()
            invariant
                i <= self.calls@.len(),
                call_views(r@) == call_views(self.calls@).take(i as int),
            decreases self.calls@.len() - i,
        {
            let c = self.calls[i].duplicate();
            let ghost before = r@;
            r.push(c);
            assert(call_views(r@) =~= call_views(before).push(c.view()));
            assert(call_views(self.calls@).take(i + 1) =~= call_views(self.calls@).take(i as int).push(self.calls@[i as int].view()));
            i = i + 1;
        }
        assert(call_views(self.calls@).take(self.calls@.len() as int) =~= call_views(self.calls@));
        r
    }

    fn record(&mut self, call: GitCall)
        ensures
            final(self).recorded() == old(self).recorded().push(call.view()),
            final(self).repo_root == old(self).repo_root,
            final(self).remotes == old(self).remotes,
            final(self).config == old(self).config,
            final(self).credential == old(self).credential,
    {
        self.calls.push(call);
        assert(call_views(self.calls@) =~= call_views(old(self).calls@).push(call.view()));
    }
}

impl GitCli for FakeGit {
    open spec fn applied(&self) -> super::CallLog {
        self.recorded()
    }

    open spec fn root_answer(&self, r: super::TextAnswer) -> bool {
        match r {
            Ok(root) => opt_view(self.repo_root) == Some(root),
            Err(e) => self.repo_root is None && e is NotAClone,
        }
    }

    open spec fn remote_answer(&self, remote: Seq<char>, r: super::TextAnswer) -> bool {
        match r {
            Ok(url) => lookup(self.remotes@, remote) == Some(url),
            Err(e) => lookup(self.remotes@, remote) is None && (e matches GitError::NoSuchRemote { remote: n } && n@ == remote),
        }
    }

    open spec fn config_answer(&self, key: Seq<char>, r: super::OptionalAnswer) -> bool {
        r == Ok::<Option<Seq<char>>, GitError>(lookup(self.config@, key))
    }

    open spec fn credential_answer(&self, host: Seq<char>, r: super::CredentialAnswer) -> bool {
        match r {
            Ok(c) => credential_view(self.credential) == Some(c),
            Err(e) => self.credential is None && (e matches GitError::NoCredential { host: h } && h@ == host),
        }
    }

    fn repo_root(&self) -> (r: Result<String, GitError>)
        ensures
            match r {
                Ok(root) => opt_view(self.repo_root) == Some(root@),
                Err(e) => self.repo_root is None && e matches GitError::NotAClone { .. },
            },
    {
        match &self.repo_root {
            Some(root) => Ok(copy_string(root)),
            None => Err(GitError::NotAClone { cwd: "/tmp/not-a-clone".to_owned() }),
        }
    }

    fn remote_url(&self, remote: &str) -> (r: Result<String, GitError>)
        ensures
            match r {
                Ok(url) => lookup(self.remotes@, remote@) == Some(url@),
                Err(e) => lookup(self.remotes@, remote@) is None && (e matches GitError::NoSuchRemote { remote: n } && n@ == remote@),
            },
    {
        match lookup_pair(&self.remotes, remote) {
            Some(url) => Ok(url),
            None => Err(GitError::NoSuchRemote { remote: remote.to_owned() }),
        }
    }

    fn config_get(&self, key: &str) -> (r: Result<Option<String>, GitError>)
        ensures
            r matches Ok(v) && opt_view(v) == lookup(self.config@, key@),
    {
        Ok(lookup_pair(&self.config, key))
    }

    fn fill_credential(&self, host: &str) -> (r: Result<Credential, GitError>)
        ensures
            match r {
                Ok(c) => credential_view(self.credential) == Some((c.username@, c.password@)),
                Err(e) => self.credential is None && (e matches GitError::NoCredential { host: h } && h@ == host@),
            },
    {
        match &self.credential {
            Some(c) => Ok(c.duplicate()),
            None => Err(GitError::NoCredential { host: host.to_owned() }),
        }
    }

    fn fetch(&mut self, remote: &str, refspec: &str) -> (r: Result<(), GitError>)
        ensures
            r is Ok,
            final(self).recorded() == old(self).recorded().push(CallView::Fetch { remote: remote@, refspec: refspec@ }),
    {
        self.record(GitCall::Fetch { remote: remote.to_owned(), refspec: refspec.to_owned() });
        Ok(())
    }

    fn worktree_add(&mut self, path: &str, revision: &str) -> (r: Result<(), GitError>)
        ensures
            r is Ok,
            final(self).recorded() == old(self).recorded().push(CallView::WorktreeAdd { path: path@, revision: revision@ }),
    {
        self.record(GitCall::WorktreeAdd { path: path.to_owned(), revision: revision.to_owned() });
        Ok(())
    }

    fn stage(&mut self, worktree: &str, path: &str) -> (r: Result<(), GitError>)
        ensures
            r is Ok,
            final(self).recorded() == old(self).recorded().push(CallView::Stage { worktree: worktree@, path: path@ }),
    {
        self.record(GitCall::Stage { worktree: worktree.to_owned(), path: path.to_owned() });
        Ok(())
    }

    fn commit_amend(&mut self, worktree: &str, message: Option<&str>) -> (r: Result<(), GitError>)
        ensures
            r is Ok,
            final(self).recorded() == old(self).recorded().push(CallView::CommitAmend {
                worktree: worktree@,
                message: match message { Some(m) => Some(m@), None => None },
            }),
    {
        let message = match message {
            Some(m) => Some(m.to_owned()),
            None => None,
        };
        self.record(GitCall::CommitAmend { worktree: worktree.to_owned(), message });
        Ok(())
    }

    fn push(&mut self, worktree: &str, refspec: &str) -> (r: Result<(), GitError>)
        ensures
            r is Ok,
            final(self).recorded() == old(self).recorded().push(CallView::Push { worktree: worktree@, refspec: refspec@ }),
    {
        self.record(GitCall::Push { worktree: worktree.to_owned(), refspec: refspec.to_owned() });
        Ok(())
    }
}

} // verus!
