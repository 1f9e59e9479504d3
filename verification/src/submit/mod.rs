//! Finalize: stage the confirmed edits, amend them into the change, push the
//! patchset, and only then post every comment fate in one batch.
//!
//! The order is what makes a resolution honest: a thread is never marked
//! resolved on Gerrit without a pushed patchset behind it, and a change that
//! moved during triage is refused before anything happens.

pub mod fate;

pub use fate::{Fate, TriagedThread, build_review};

use vstd::prelude::*;
use crate::gerrit::api::{ChangeInfo, ChangeView, GerritApi, ReviewView};
use crate::gerrit::error::{GerritError, spec_describe};
use crate::gerrit::thread::thread_wf;
use crate::git::{CallLog, CallView, GitCli, GitError};
use crate::triage::document::string_views;
use crate::git::credential::spec_git_error_text;
use crate::text::{push_str, copy_string, str_eq};
use crate::workspace::Workspace;
use fate::{FateView, TriagedView, triaged_views, grouped, spec_review_comments};
use crate::workspace::paths::spec_join;

verus! {

/// What finalize did.
#[derive(Debug, Clone, PartialEq, Eq)]
pub struct Finalized {
    /// The branch the patchset was pushed for.
    pub branch: String,
    /// Threads resolved (accepted or fixed by hand).
    pub resolved: usize,
    /// Rejections posted with a reply.
    pub replied: usize,
    /// Threads left as they were: skipped, or rejected with a declined reply.
    pub untouched: usize,
}

/// How many threads have a fate of one kind: 0 resolving, 1 replied, 2 left
/// untouched.
pub open spec fn fate_count(ts: Seq<TriagedView>, kind: u8) -> nat
    decreases ts.len(),
{
    if ts.len() == 0 {
        0
    } else {
        let f = ts.last().fate;
        let k: u8 = match f {
            FateView::Accepted => 0,
            FateView::FixedByHand => 0,
            FateView::Rejected { reply } => if reply is Some { 1 } else { 2 },
            FateView::Skipped => 2,
        };
        fate_count(ts.drop_last(), kind) + if k == kind { 1nat } else { 0nat }
    }
}

/// Every thread lands in exactly one of the summary's counts: resolved,
/// replied and untouched add up to the number of threads.
pub proof fn lemma_fate_counts(ts: Seq<TriagedView>)
    ensures
        fate_count(ts, 0) + fate_count(ts, 1) + fate_count(ts, 2) == ts.len(),
    decreases ts.len(),
{
    if ts.len() > 0 {
        lemma_fate_counts(ts.drop_last());
    }
}

/// Count each fate.
pub fn summarize(branch: String, triaged: &[TriagedThread]) -> (r: Finalized)
    ensures
        r.branch@ == branch@,
        r.resolved == fate_count(triaged_views(triaged@), 0),
        r.replied == fate_count(triaged_views(triaged@), 1),
        r.untouched == fate_count(triaged_views(triaged@), 2),
        r.resolved + r.replied + r.untouched == triaged@.len(),
{
    let mut summary = Finalized { branch, resolved: 0, replied: 0, untouched: 0 };
    let mut i: usize = 0;
    while i < triaged.len()
        invariant
            i <= triaged@.len(),
            summary.branch@ == branch@,
            summary.resolved == fate_count(triaged_views(triaged@).take(i as int), 0),
            summary.replied == fate_count(triaged_views(triaged@).take(i as int), 1),
            summary.untouched == fate_count(triaged_views(triaged@).take(i as int), 2),
        decreases triaged@.len() - i,
    {
        let ghost tv = triaged_views(triaged@).take(i + 1);
        assert(tv.drop_last() =~= triaged_views(triaged@).take(i as int));
        assert(tv.last() == triaged@[i as int]@);
        proof { lemma_fate_counts(triaged_views(triaged@).take(i as int)); }
        match &triaged[i].fate {
            Fate::Accepted | Fate::FixedByHand => summary.resolved = summary.resolved + 1,
            Fate::Rejected { reply } => match reply {
                Some(_) => summary.replied = summary.replied + 1,
                None => summary.untouched = summary.untouched + 1,
            },
            Fate::Skipped => summary.untouched = summary.untouched + 1,
        }
        i = i + 1;
    }
    assert(triaged_views(triaged@).take(triaged@.len() as int) =~= triaged_views(triaged@));
    proof { lemma_fate_counts(triaged_views(triaged@)); }
    summary
}

/// Failures finalizing.
#[derive(Debug, Clone, PartialEq, Eq)]
pub enum SubmitError {
    /// The change moved while it was being triaged.
    RevisionMoved { change_id: String, checked_out: String, current: String },
    /// The push was rejected; the worktree is left intact.
    PushRejected { branch: String, source: GitError },
    Git(GitError),
    Gerrit(GerritError),
}

/// The message describing a finalize failure.
pub open spec fn spec_submit_error_text(e: SubmitError) -> Seq<char> {
    match e {
        SubmitError::RevisionMoved { change_id, checked_out, current } => "change `"@ + change_id@
            + "` moved while you were triaging: you reviewed `"@ + checked_out@ + "` but it is now at `"@ + current@
            + "`. Nothing was pushed and no comment was settled — a patchset amended onto the older revision would silently revert the newer one."@,
        SubmitError::PushRejected { branch, source } => "push to refs/for/"@ + branch@ + " was rejected: "@
            + spec_git_error_text(source) + ". The worktree is left intact."@,
        SubmitError::Git(g) => spec_git_error_text(g),
        SubmitError::Gerrit(g) => spec_describe(g),
    }
}

impl SubmitError {
    /// The human-readable message for this failure.
    pub fn describe(&self) -> (r: String)
        ensures
            r@ == spec_submit_error_text(*self),
    {
        match self {
            SubmitError::RevisionMoved { change_id, checked_out, current } => {
                let mut s = String::new();
                push_str(&mut s, "change `");
                push_str(&mut s, change_id.as_str());
                push_str(&mut s, "` moved while you were triaging: you reviewed `");
                push_str(&mut s, checked_out.as_str());
                push_str(&mut s, "` but it is now at `");
                push_str(&mut s, current.as_str());
                push_str(&mut s, "`. Nothing was pushed and no comment was settled — a patchset amended onto the older revision would silently revert the newer one.");
                s
            },
            SubmitError::PushRejected { branch, source } => {
                let mut s = String::new();
                push_str(&mut s, "push to refs/for/");
                push_str(&mut s, branch.as_str());
                push_str(&mut s, " was rejected: ");
                let inner = source.describe();
                push_str(&mut s, inner.as_str());
                push_str(&mut s, ". The worktree is left intact.");
                s
            },
            SubmitError::Git(g) => g.describe(),
            SubmitError::Gerrit(g) => g.describe(),
        }
    }
}

/// Whether the change, as Gerrit now reports it, is still at the revision the
/// worktree checked out: a change that moved is refused naming both
/// revisions, since a patchset amended onto the older one would silently
/// revert the newer.
pub fn revision_check(workspace: &Workspace, current: &ChangeInfo) -> (r: Result<(), SubmitError>)
    ensures
        current.current_revision@ == workspace.change.current_revision@ ==> r is Ok,
        current.current_revision@ != workspace.change.current_revision@ ==> (r matches Err(SubmitError::RevisionMoved {
            change_id, checked_out, current: now }) && change_id@ == workspace.change.id@
            && checked_out@ == workspace.change.current_revision@ && now@ == current.current_revision@),
{
    if !str_eq(current.current_revision.as_str(), workspace.change.current_revision.as_str()) {
        return Err(SubmitError::RevisionMoved {
            change_id: copy_string(&workspace.change.id),
            checked_out: copy_string(&workspace.change.current_revision),
            current: copy_string(&current.current_revision),
        });
    }
    Ok(())
}

/// Gerrit, asked for `change_id`, can answer with a change at `revision`.
pub open spec fn answered_revision<A: GerritApi>(api: A, change_id: Seq<char>, revision: Seq<char>) -> bool {
    exists|c: ChangeView| #[trigger] api.change_answer(change_id, Ok(c)) && c.current_revision == revision
}

/// Abort unless the change still points at the revision that was checked
/// out. Triage takes long enough for the author to upload a new patchset.
/// Gerrit is asked for the workspace's change, and its answer decides:
/// the same revision passes, another is refused naming both, and a failed
/// request is reported as such.
pub fn check_revision_unchanged<A: GerritApi>(api: &A, workspace: &Workspace) -> (r: Result<(), SubmitError>)
    ensures
        r is Ok ==> answered_revision(*api, workspace.change.id@, workspace.change.current_revision@),
        r matches Err(SubmitError::RevisionMoved { change_id, checked_out, current }) ==> change_id@ == workspace.change.id@
            && checked_out@ == workspace.change.current_revision@ && current@ != checked_out@
            && answered_revision(*api, workspace.change.id@, current@),
        r matches Err(SubmitError::Gerrit(g)) ==> api.change_answer(workspace.change.id@, Err(g)),
        r is Ok || r matches Err(SubmitError::RevisionMoved { .. }) || r matches Err(SubmitError::Gerrit(_)),
{
    let current = match api.change(workspace.change.id.as_str()) {
        Ok(c) => c,
        Err(e) => return Err(SubmitError::Gerrit(e)),
    };
    proof {
        assert(api.change_answer(workspace.change.id@, Ok(current@)));
    }
    revision_check(workspace, &current)
}

/// The refspec a patchset is pushed with: `HEAD:refs/for/<branch>`.
pub open spec fn spec_refspec(branch: Seq<char>) -> Seq<char> {
    "HEAD:refs/for/"@ + branch
}

/// An optional text as plain characters.
pub open spec fn opt_view_str(s: Option<&str>) -> Option<Seq<char>> {
    match s {
        Some(t) => Some(t@),
        None => None,
    }
}

/// Staging calls for each of `paths` inside `worktree`, in order.
pub open spec fn stage_calls(worktree: Seq<char>, paths: Seq<Seq<char>>) -> CallLog {
    paths.map_values(|p: Seq<char>| CallView::Stage { worktree, path: p })
}

/// What finalize asks git for, in order: stage every confirmed path, amend
/// (rewriting the message only when one is given), and push the patchset for
/// review on the change's branch.
pub open spec fn spec_submission(worktree: Seq<char>, staged: Seq<Seq<char>>, message: Option<Seq<char>>, branch: Seq<char>) -> CallLog {
    stage_calls(worktree, staged) + seq![CallView::CommitAmend { worktree, message }, CallView::Push { worktree, refspec: spec_refspec(branch) }]
}

/// `now` is `before` and the staging of the first `k` of `staged`, for some
/// `k`: staging stopped there, and nothing else went through.
pub open spec fn stopped_staging(now: CallLog, before: CallLog, worktree: Seq<char>, staged: Seq<Seq<char>>) -> bool {
    exists|k: int| 0 <= k <= staged.len() && now == before + stage_calls(worktree, #[trigger] staged.take(k))
}

/// Finalize a triage: check the change has not moved, stage every confirmed
/// path, amend (rewriting the message only when `message` is given), push,
/// then post every fate in one review. A failed push posts nothing.
pub fn finalize<G: GitCli, A: GerritApi>(
    git: &mut G,
    api: &mut A,
    workspace: &Workspace,
    triaged: &[TriagedThread],
    staged: &[String],
    message: Option<&str>,
) -> (r: Result<Finalized, SubmitError>)
    requires
        forall|i: int| 0 <= i < triaged@.len() ==> thread_wf(#[trigger] triaged@[i].thread@),
    ensures
        r matches Ok(f) ==> f.branch@ == workspace.change.branch@
            && f.resolved == fate_count(triaged_views(triaged@), 0)
            && f.replied == fate_count(triaged_views(triaged@), 1)
            && f.untouched == fate_count(triaged_views(triaged@), 2),
        // A change that moved is refused before git or Gerrit is touched,
        // naming the change and both revisions.
        r matches Err(SubmitError::RevisionMoved { .. }) ==> *final(git) == *old(git) && *final(api) == *old(api),
        r matches Err(SubmitError::RevisionMoved { change_id, checked_out, current }) ==> change_id@ == workspace.change.id@
            && checked_out@ == workspace.change.current_revision@ && current@ != checked_out@
            && answered_revision(*old(api), workspace.change.id@, current@),
        // Git is asked for nothing, and nothing succeeds, unless Gerrit,
        // asked for the change, answered that it is still at the revision
        // the worktree checked out.
        final(git).applied() != old(git).applied() || r is Ok
            ==> answered_revision(*old(api), workspace.change.id@, workspace.change.current_revision@),
        // A push that fails after the amend is refused naming the branch,
        // and settles nothing.
        r matches Err(SubmitError::PushRejected { .. }) ==> *final(api) == *old(api)
            && final(git).applied() == old(git).applied() + spec_submission(spec_join(workspace.paths.root@, "worktree"@),
                string_views(staged@), opt_view_str(message), workspace.change.branch@).drop_last(),
        r matches Err(SubmitError::PushRejected { branch, .. }) ==> branch@ == workspace.change.branch@,
        // A failed stage or amend stops before the push and settles nothing.
        r matches Err(SubmitError::Git(_)) ==> *final(api) == *old(api)
            && stopped_staging(final(git).applied(), old(git).applied(), spec_join(workspace.paths.root@, "worktree"@),
                string_views(staged@)),
        // A Gerrit failure is either the revision check's request, before
        // git is touched, or the post, after the push.
        r matches Err(SubmitError::Gerrit(g)) ==> (*final(git) == *old(git) && old(api).change_answer(workspace.change.id@, Err(g)))
            || (final(git).applied() == old(git).applied() + spec_submission(spec_join(workspace.paths.root@, "worktree"@),
                string_views(staged@), opt_view_str(message), workspace.change.branch@)
                && final(api).posted_log() == old(api).posted_log()),
        // Nothing is posted unless every confirmed path was staged, the
        // change amended and the patchset pushed first.
        final(api).posted_log() != old(api).posted_log() ==> final(git).applied()
            == old(git).applied() + spec_submission(spec_join(workspace.paths.root@, "worktree"@), string_views(staged@),
                opt_view_str(message), workspace.change.branch@),
        // Success is that sequence and one review post carrying every fate.
        r is Ok ==> final(git).applied()
            == old(git).applied() + spec_submission(spec_join(workspace.paths.root@, "worktree"@), string_views(staged@),
                opt_view_str(message), workspace.change.branch@)
            && final(api).posted_log() == old(api).posted_log().push((workspace.change.id@, ReviewView {
                message: None,
                comments: grouped(spec_review_comments(triaged_views(triaged@))),
            })),
{
    match check_revision_unchanged(&*api, workspace) {
        Ok(()) => {},
        Err(e) => return Err(e),
    }
    let worktree = workspace.worktree();
    let mut i: usize = 0;
    while i < staged.len()
        invariant
            i <= staged@.len(),
            git.applied() == old(git).applied() + stage_calls(worktree@, string_views(staged@).take(i as int)),
            *api == *old(api),
            answered_revision(*old(api), workspace.change.id@, workspace.change.current_revision@),
            worktree@ == spec_join(workspace.paths.root@, "worktree"@),
        decreases staged@.len() - i,
    {
        match git.stage(worktree.as_str(), staged[i].as_str()) {
            Ok(()) => {},
            Err(e) => {
                assert(stopped_staging(git.applied(), old(git).applied(), worktree@, string_views(staged@))) by {
                    assert(0 <= i <= staged@.len());
                    assert(git.applied() == old(git).applied() + stage_calls(worktree@, string_views(staged@).take(i as int)));
                }
                return Err(SubmitError::Git(e));
            },
        }
        assert(string_views(staged@).take(i + 1) =~= string_views(staged@).take(i as int).push(staged@[i as int]@));
        assert(stage_calls(worktree@, string_views(staged@).take(i + 1)) =~= stage_calls(worktree@,
            string_views(staged@).take(i as int)).push(CallView::Stage { worktree: worktree@, path: staged@[i as int]@ }));
        i = i + 1;
    }
    assert(string_views(staged@).take(staged@.len() as int) =~= string_views(staged@));
    match git.commit_amend(worktree.as_str(), message) {
        Ok(()) => {},
        Err(e) => {
            assert(stopped_staging(git.applied(), old(git).applied(), worktree@, string_views(staged@))) by {
                assert(git.applied() == old(git).applied() + stage_calls(worktree@, string_views(staged@).take(staged@.len() as int)));
            }
            return Err(SubmitError::Git(e));
        },
    }
    let branch = copy_string(&workspace.change.branch);
    let mut refspec = String::new();
    push_str(&mut refspec, "HEAD:refs/for/");
    push_str(&mut refspec, branch.as_str());
    assert(refspec@ == spec_refspec(workspace.change.branch@));
    match git.push(worktree.as_str(), refspec.as_str()) {
        Ok(()) => {},
        Err(source) => {
            assert(git.applied() =~= old(git).applied() + spec_submission(worktree@, string_views(staged@),
                opt_view_str(message), workspace.change.branch@).drop_last());
            return Err(SubmitError::PushRejected { branch, source });
        },
    }
    assert(git.applied() =~= old(git).applied() + spec_submission(worktree@, string_views(staged@), opt_view_str(message),
        workspace.change.branch@));
    let review = build_review(triaged);
    assert(review@ == (ReviewView { message: None, comments: grouped(spec_review_comments(triaged_views(triaged@))) }));
    match api.post_review(workspace.change.id.as_str(), &review) {
        Ok(()) => {},
        Err(e) => return Err(SubmitError::Gerrit(e)),
    }
    Ok(summarize(branch, triaged))
}

} // verus!
