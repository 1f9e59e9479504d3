//! A review session: the change, where its worktree lives, and whether it
//! was resumed.

pub mod cache;
pub mod paths;

pub use cache::{CacheKey, VerdictCache};
pub use paths::SessionPaths;

use vstd::prelude::*;
use crate::gerrit::api::{ChangeInfo, ChangeView, GerritApi, spec_current_revision_ref};
use crate::gerrit::base_url::{project_of, spec_project_of};
use crate::text::spec_trim_char;
use paths::{is_unsafe, spec_join};
use crate::gerrit::error::{GerritError, spec_describe};
use crate::git::{CallLog, CallView, GitCli, GitError};
use crate::git::credential::spec_git_error_text;
use crate::text::{push_str, copy_string, str_eq};

verus! {

/// Failures setting up a session.
#[derive(Debug, Clone, PartialEq, Eq)]
pub enum WorkspaceError {
    Git(GitError),
    Gerrit(GerritError),
    /// The change belongs to another project than the clone.
    ProjectMismatch { change_project: String, clone_project: String },
    /// The clone's project could not be read from its origin remote.
    UndeterminedProject { url: String },
    /// Gerrit named no fetchable ref for the current revision.
    NoRevisionRef { change_id: String, revision: String },
    /// A name would place the session outside the state directory.
    UnsafeName { what: String, value: String },
    /// Neither `XDG_STATE_HOME` nor `HOME` is set.
    NoStateDir,
    /// The file system refused; the message names the path.
    Io { path: String, message: String },
}

/// The message describing a session failure.
pub open spec fn spec_workspace_error_text(e: WorkspaceError) -> Seq<char> {
    match e {
        WorkspaceError::Git(g) => spec_git_error_text(g),
        WorkspaceError::Gerrit(g) => spec_describe(g),
        WorkspaceError::ProjectMismatch { change_project, clone_project } => "change belongs to project `"@ + change_project@
            + "`, but this clone is `"@ + clone_project@ + "`. Run remendo from a clone of the change's project."@,
        WorkspaceError::UndeterminedProject { url } => "could not determine this clone's project from its origin remote `"@ + url@ + "`"@,
        WorkspaceError::NoRevisionRef { change_id, revision } => "change `"@ + change_id@ + "` revision `"@ + revision@
            + "` has no fetchable ref — Gerrit returned no `ref` for the current revision"@,
        WorkspaceError::UnsafeName { what, value } => "unsafe "@ + what@ + " `"@ + value@ + "`: it would place the session outside the state directory"@,
        WorkspaceError::NoStateDir => "no state directory: neither XDG_STATE_HOME nor HOME is set"@,
        WorkspaceError::Io { path, message } => "could not access "@ + path@ + ": "@ + message@,
    }
}

impl WorkspaceError {
    /// The human-readable message for this failure.
    pub fn describe(&self) -> (r: String)
        ensures
            r@ == spec_workspace_error_text(*self),
    {
        match self {
            WorkspaceError::Git(g) => g.describe(),
            WorkspaceError::Gerrit(g) => g.describe(),
            WorkspaceError::ProjectMismatch { change_project, clone_project } => {
                let mut s = String::new();
                push_str(&mut s, "change belongs to project `");
                push_str(&mut s, change_project.as_str());
                push_str(&mut s, "`, but this clone is `");
                push_str(&mut s, clone_project.as_str());
                push_str(&mut s, "`. Run remendo from a clone of the change's project.");
                s
            },
            WorkspaceError::UndeterminedProject { url } => {
                let mut s = String::new();
                push_str(&mut s, "could not determine this clone's project from its origin remote `");
                push_str(&mut s, url.as_str());
                push_str(&mut s, "`");
                s
            },
            WorkspaceError::NoRevisionRef { change_id, revision } => {
                let mut s = String::new();
                push_str(&mut s, "change `");
                push_str(&mut s, change_id.as_str());
                push_str(&mut s, "` revision `");
                push_str(&mut s, revision.as_str());
                push_str(&mut s, "` has no fetchable ref — Gerrit returned no `ref` for the current revision");
                s
            },
            WorkspaceError::UnsafeName { what, value } => {
                let mut s = String::new();
                push_str(&mut s, "unsafe ");
                push_str(&mut s, what.as_str());
                push_str(&mut s, " `");
                push_str(&mut s, value.as_str());
                push_str(&mut s, "`: it would place the session outside the state directory");
                s
            },
            WorkspaceError::NoStateDir => {
                let mut s = String::new();
                push_str(&mut s, "no state directory: neither XDG_STATE_HOME nor HOME is set");
                s
            },
            WorkspaceError::Io { path, message } => {
                let mut s = String::new();
                push_str(&mut s, "could not access ");
                push_str(&mut s, path.as_str());
                push_str(&mut s, ": ");
                push_str(&mut s, message.as_str());
                s
            },
        }
    }
}

/// An open review session.
#[derive(Debug, Clone, PartialEq, Eq)]
pub struct Workspace {
    pub change: ChangeInfo,
    pub paths: SessionPaths,
    /// Whether the worktree already existed, so confirmed edits carried over.
    pub resumed: bool,
}

impl Workspace {
    /// Where the worktree is.
    pub fn worktree(&self) -> (r: String)
        ensures
            r@ == paths::spec_join(self.paths.root@, "worktree"@),
    {
        self.paths.worktree()
    }

    /// A cache to fill for this change's current revision.
    pub fn new_verdict_cache(&self) -> (r: VerdictCache)
        ensures
            r.key.change_id@ == self.change.id@,
            r.key.revision@ == self.change.current_revision@,
            r.key.version == cache::CACHE_VERSION,
            forall|id: Seq<char>| crate::git::fake::lookup(r.verdicts@, id) is None,
    {
        VerdictCache::new(self.change.id.as_str(), self.change.current_revision.as_str())
    }

    /// The key of a verdict cache for this change's current revision.
    pub fn cache_key(&self) -> (r: CacheKey)
        ensures
            r.change_id@ == self.change.id@,
            r.revision@ == self.change.current_revision@,
            r.version == cache::CACHE_VERSION,
    {
        CacheKey::new(self.change.id.as_str(), self.change.current_revision.as_str())
    }

    /// Whether a cache stored under `key` may be reused: it must describe this
    /// change at its current revision.
    pub fn may_reuse(&self, key: &CacheKey) -> (r: bool)
        ensures
            r == cache::key_matches(key.change_id@, key.revision@, key.version, self.change.id@, self.change.current_revision@),
    {
        key.matches(self.change.id.as_str(), self.change.current_revision.as_str())
    }

    /// What to tell the user when the session ends without a push: nothing
    /// was pushed, and the worktree and its confirmed edits stay where they are.
    pub fn abort_report(&self) -> (r: String)
        ensures
            r@ == "Nothing was pushed. The worktree and any confirmed edits are left at:\n  "@
                + paths::spec_join(self.paths.root@, "worktree"@),
    {
        let mut s = String::new();
        push_str(&mut s, "Nothing was pushed. The worktree and any confirmed edits are left at:\n  ");
        let w = self.worktree();
        push_str(&mut s, w.as_str());
        s
    }
}

/// The change must belong to the clone's project: a change id names no
/// repository, so the clone is what supplies one.
pub fn check_project(change: &ChangeInfo, clone_project: &str) -> (r: Result<(), WorkspaceError>)
    ensures
        r is Ok <==> change.project@ == clone_project@,
        r matches Err(e) ==> (e matches WorkspaceError::ProjectMismatch { change_project, clone_project: c }
            && change_project@ == change.project@ && c@ == clone_project@),
{
    if str_eq(change.project.as_str(), clone_project) {
        Ok(())
    } else {
        Err(WorkspaceError::ProjectMismatch { change_project: copy_string(&change.project), clone_project: clone_project.to_owned() })
    }
}

/// The ref a new worktree is fetched from: the current revision's.
pub fn revision_ref(change: &ChangeInfo) -> (r: Result<&str, WorkspaceError>)
    ensures
        match r {
            Ok(s) => spec_current_revision_ref(change@) == Some(s@),
            Err(e) => spec_current_revision_ref(change@) is None && (e matches WorkspaceError::NoRevisionRef { change_id, revision }
                && change_id@ == change.id@ && revision@ == change.current_revision@),
        },
{
    match change.current_revision_ref() {
        Some(r) => Ok(r),
        None => Err(WorkspaceError::NoRevisionRef { change_id: copy_string(&change.id), revision: copy_string(&change.current_revision) }),
    }
}

/// The git calls that check a change out for a session rooted at `root`:
/// fetch the current revision's ref from `origin`, then add the session's
/// worktree detached at the current revision.
pub open spec fn spec_checkout(applied: CallLog, change: ChangeInfo, root: Seq<char>) -> CallLog {
    applied.push(CallView::Fetch { remote: "origin"@, refspec: spec_current_revision_ref(change@)->0 })
        .push(CallView::WorktreeAdd { path: spec_join(root, "worktree"@), revision: change.current_revision@ })
}

/// Check the worktree out: fetch the current revision's ref from `origin`,
/// then add a detached worktree at the session's worktree path.
pub fn create_worktree<G: GitCli>(git: &mut G, change: &ChangeInfo, paths: &SessionPaths) -> (r: Result<(), WorkspaceError>)
    ensures
        spec_current_revision_ref(change@) is None ==> (r matches Err(e) && e is NoRevisionRef) && *final(git) == *old(git),
        spec_current_revision_ref(change@) is Some ==> (r is Ok || r matches Err(WorkspaceError::Git(_))),
        r is Ok ==> final(git).applied() == spec_checkout(old(git).applied(), *change, paths.root@),
{
    let revision_ref = match revision_ref(change) {
        Ok(r) => r,
        Err(e) => return Err(e),
    };
    match git.fetch("origin", revision_ref) {
        Ok(()) => {},
        Err(e) => return Err(WorkspaceError::Git(e)),
    }
    let worktree = paths.worktree();
    match git.worktree_add(worktree.as_str(), change.current_revision.as_str()) {
        Ok(()) => Ok(()),
        Err(e) => Err(WorkspaceError::Git(e)),
    }
}

/// The clone must be the change's project. Its project is read from its
/// `origin` remote; a remote naming none cannot be checked and is refused
/// with the URL, and a mismatch names both projects.
pub fn check_clone(origin: &str, change: &ChangeInfo) -> (r: Result<(), WorkspaceError>)
    ensures
        match spec_project_of(origin@) {
            None => r matches Err(WorkspaceError::UndeterminedProject { url }) && url@ == origin@,
            Some(p) => if p == change.project@ {
                r is Ok
            } else {
                r matches Err(WorkspaceError::ProjectMismatch { change_project, clone_project })
                    && change_project@ == change.project@ && clone_project@ == p
            },
        },
{
    match project_of(origin) {
        None => Err(WorkspaceError::UndeterminedProject { url: origin.to_owned() }),
        Some(p) => check_project(change, p.as_str()),
    }
}

/// A review whose change and clone were checked, before anything is created.
pub struct Validated {
    pub change: ChangeInfo,
    pub paths: SessionPaths,
}

/// Check everything before creating anything: the working directory is in a
/// clone, the change exists, the clone is the change's project, and the
/// names are safe to become directories under `state_dir`.
pub fn validate<G: GitCli, A: GerritApi>(git: &G, api: &A, change_id: &str, state_dir: &str) -> (r: Result<Validated, WorkspaceError>)
    ensures
        r matches Ok(v) ==> !is_unsafe(v.change.project@) && !is_unsafe(change_id@)
            && v.paths.root@ == spec_join(spec_join(spec_join(state_dir@, "remendo"@), spec_trim_char(v.change.project@, '/')),
                spec_trim_char(change_id@, '/')),
        // Success rests on what git and Gerrit answered: the working
        // directory is in a clone, the clone's origin names the project of
        // the change that Gerrit gave for `change_id`, and that change is
        // the one validated.
        r matches Ok(v) ==> (exists|root: Seq<char>| #[trigger] git.root_answer(Ok(root)))
            && api.change_answer(change_id@, Ok(v.change@))
            && (exists|o: Seq<char>| #[trigger] git.remote_answer("origin"@, Ok(o)) && spec_project_of(o) == Some(v.change.project@)),
        r matches Err(WorkspaceError::UndeterminedProject { url }) ==> spec_project_of(url@) is None
            && git.remote_answer("origin"@, Ok(url@)),
        r matches Err(WorkspaceError::ProjectMismatch { change_project, clone_project }) ==> change_project@ != clone_project@
            && (exists|o: Seq<char>| #[trigger] git.remote_answer("origin"@, Ok(o)) && spec_project_of(o) == Some(clone_project@))
            && (exists|c: ChangeView| #[trigger] api.change_answer(change_id@, Ok(c)) && c.project == change_project@),
        r matches Err(WorkspaceError::Git(e)) ==> git.root_answer(Err(e)) || git.remote_answer("origin"@, Err(e)),
        r matches Err(WorkspaceError::Gerrit(e)) ==> api.change_answer(change_id@, Err(e)),
{
    match git.repo_root() {
        Ok(root) => {
            assert(git.root_answer(Ok(root@)));
        },
        Err(e) => return Err(WorkspaceError::Git(e)),
    }
    let origin = match git.remote_url("origin") {
        Ok(o) => o,
        Err(e) => return Err(WorkspaceError::Git(e)),
    };
    assert(git.remote_answer("origin"@, Ok(origin@)));
    let change = match api.change(change_id) {
        Ok(c) => c,
        Err(e) => return Err(WorkspaceError::Gerrit(e)),
    };
    assert(api.change_answer(change_id@, Ok(change@)));
    match check_clone(origin.as_str(), &change) {
        Ok(()) => {},
        Err(e) => return Err(e),
    }
    let paths = match SessionPaths::new(state_dir, change.project.as_str(), change_id) {
        Ok(p) => p,
        Err(e) => return Err(e),
    };
    Ok(Validated { change, paths })
}

/// Open the review: a worktree that already exists is resumed untouched, so
/// confirmed edits survive a relaunch; otherwise the change's current
/// revision is checked out into a new one.
pub fn open<G: GitCli>(git: &mut G, validated: Validated, worktree_exists: bool) -> (r: Result<Workspace, WorkspaceError>)
    ensures
        worktree_exists ==> (r matches Ok(w) && w.resumed && *final(git) == *old(git)),
        !worktree_exists && r is Ok ==> final(git).applied() == spec_checkout(old(git).applied(), validated.change,
            validated.paths.root@),
        r matches Ok(w) ==> w.resumed == worktree_exists && w.change@ == validated.change@
            && w.paths.root@ == validated.paths.root@,
        spec_current_revision_ref(validated.change@) is None && !worktree_exists
            ==> (r matches Err(e) && e is NoRevisionRef),
        // Only a fresh checkout can fail: for want of a fetchable ref
        // exactly when Gerrit named none, otherwise as git refused.
        r matches Err(e) ==> !worktree_exists
            && (e is NoRevisionRef <==> spec_current_revision_ref(validated.change@) is None)
            && (e is NoRevisionRef || e is Git),
{
    if !worktree_exists {
        match create_worktree(git, &validated.change, &validated.paths) {
            Ok(()) => {},
            Err(e) => return Err(e),
        }
    }
    Ok(Workspace { change: validated.change, paths: validated.paths, resumed: worktree_exists })
}

/// Where sessions live: `XDG_STATE_HOME` when it is set and not empty,
/// otherwise `HOME/.local/state`; with neither, there is nowhere.
pub fn state_dir_from(xdg_state_home: Option<&str>, home: Option<&str>) -> (r: Result<String, WorkspaceError>)
    ensures
        match xdg_state_home {
            Some(x) if x@.len() > 0 => r matches Ok(d) && d@ == x@,
            _ => match home {
                Some(h) if h@.len() > 0 => r matches Ok(d) && d@ == spec_join(spec_join(h@, ".local"@), "state"@),
                _ => r matches Err(WorkspaceError::NoStateDir),
            },
        },
{
    match xdg_state_home {
        Some(x) => {
            if x.unicode_len() > 0 {
                return Ok(x.to_owned());
            }
        },
        None => {},
    }
    match home {
        Some(h) => {
            if h.unicode_len() > 0 {
                let local = paths::join(h, ".local");
                return Ok(paths::join(local.as_str(), "state"));
            }
        },
        None => {},
    }
    Err(WorkspaceError::NoStateDir)
}

} // verus!
