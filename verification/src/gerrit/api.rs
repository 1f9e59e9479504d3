//! The Gerrit change model and the operations Remendo needs from Gerrit.
//!
//! Two absences are deliberate: there is no way to fetch draft comments, and no
//! "resolve" mutation — Gerrit has none; a thread is resolved by replying with
//! `unresolved: false`.

use vstd::prelude::*;
use crate::gerrit::comment::{Comment, CommentView, opt_view, copy_opt};
use crate::gerrit::error::GerritError;
use crate::text::{Text, chars_of, chars_eq, copy_string};

verus! {

/// One revision (patchset) of a change.
#[derive(Debug, Clone, PartialEq, Eq)]
pub struct RevisionInfo {
    pub number: u32,
    pub git_ref: Option<String>,
}

/// The mathematical value of a revision.
pub struct RevisionView {
    pub number: u32,
    pub git_ref: Option<Seq<char>>,
}

impl View for RevisionInfo {
    type V = RevisionView;

    open spec fn view(&self) -> RevisionView {
        RevisionView { number: self.number, git_ref: opt_view(self.git_ref) }
    }
}

/// The change fields Remendo needs.
#[derive(Debug, Clone, PartialEq, Eq)]
pub struct ChangeInfo {
    /// Gerrit's change id (the `project~branch~Ixxxx` form or the number).
    pub id: String,
    /// The project this change belongs to, validated against the clone.
    pub project: String,
    /// The target branch. Finalize pushes to `refs/for/<branch>`.
    pub branch: String,
    /// The current revision's commit sha.
    pub current_revision: String,
    pub subject: String,
    /// Revision detail, keyed by sha, in the order Gerrit listed it.
    pub revisions: Vec<(String, RevisionInfo)>,
}

/// The mathematical value of a change.
pub struct ChangeView {
    pub id: Seq<char>,
    pub project: Seq<char>,
    pub branch: Seq<char>,
    pub current_revision: Seq<char>,
    pub subject: Seq<char>,
    pub revisions: Seq<(Seq<char>, RevisionView)>,
}

impl View for ChangeInfo {
    type V = ChangeView;

    open spec fn view(&self) -> ChangeView {
        ChangeView {
            id: self.id@,
            project: self.project@,
            branch: self.branch@,
            current_revision: self.current_revision@,
            subject: self.subject@,
            revisions: self.revisions@.map_values(|e: (String, RevisionInfo)| (e.0@, e.1@)),
        }
    }
}

/// The revision recorded under `sha`: the first entry with that key. Gerrit
/// answers revisions as a map, which names each once.
pub open spec fn find_revision(revs: Seq<(Seq<char>, RevisionView)>, sha: Seq<char>) -> Option<RevisionView>
    decreases revs.len(),
{
    if revs.len() == 0 {
        None
    } else if revs[0].0 == sha {
        Some(revs[0].1)
    } else {
        find_revision(revs.drop_first(), sha)
    }
}

/// The current patchset number, or 0 when Gerrit returned no revision detail
/// for the current revision.
pub open spec fn spec_current_patch_set(c: ChangeView) -> u32 {
    match find_revision(c.revisions, c.current_revision) {
        Some(r) => r.number,
        None => 0,
    }
}

/// The fetchable ref of the current revision, when Gerrit gave one.
pub open spec fn spec_current_revision_ref(c: ChangeView) -> Option<Seq<char>> {
    match find_revision(c.revisions, c.current_revision) {
        Some(r) => r.git_ref,
        None => None,
    }
}

proof fn lemma_find_revision_at(revs: Seq<(Seq<char>, RevisionView)>, sha: Seq<char>, i: int)
    requires
        0 <= i < revs.len(),
        revs[i].0 == sha,
        forall|k: int| 0 <= k < i ==> revs[k].0 != sha,
    ensures
        find_revision(revs, sha) == Some(revs[i].1),
    decreases i,
{
    if i > 0 {
        lemma_find_revision_at(revs.drop_first(), sha, i - 1);
    }
}

proof fn lemma_find_revision_absent(revs: Seq<(Seq<char>, RevisionView)>, sha: Seq<char>)
    requires
        forall|k: int| 0 <= k < revs.len() ==> revs[k].0 != sha,
    ensures
        find_revision(revs, sha) is None,
    decreases revs.len(),
{
    if revs.len() > 0 {
        lemma_find_revision_absent(revs.drop_first(), sha);
    }
}

impl ChangeInfo {
    /// A change with the given id and every other field empty.
    pub fn with_id(id: &str) -> (r: ChangeInfo)
        ensures
            r@.id == id@,
            r@.project.len() == 0,
            r@.branch.len() == 0,
            r@.current_revision.len() == 0,
            r@.subject.len() == 0,
            r@.revisions.len() == 0,
    {
        ChangeInfo {
            id: id.to_owned(),
            project: String::new(),
            branch: String::new(),
            current_revision: String::new(),
            subject: String::new(),
            revisions: Vec::new(),
        }
    }

    /// The index of the current revision's entry, if any.
    fn current_entry(&self) -> (r: Option<usize>)
        ensures
            match r {
                Some(i) => i < self@.revisions.len() && find_revision(self@.revisions, self@.current_revision)
                    == Some(self@.revisions[i as int].1),
                None => find_revision(self@.revisions, self@.current_revision) is None,
            },
    {
        let sha = chars_of(self.current_revision.as_str());
        let mut i: usize = 0;
        while i < self.revisions.len()
            invariant
                i <= self@.revisions.len(),
                sha@ == self@.current_revision,
                forall|k: int| 0 <= k < i ==> self@.revisions[k].0 != self@.current_revision,
            decreases self@.revisions.len() - i,
        {
            let key = chars_of(self.revisions[i].0.as_str());
            if chars_eq(key.as_slice(), sha.as_slice()) {
                proof {
                    lemma_find_revision_at(self@.revisions, self@.current_revision, i as int);
                }
                return Some(i);
            }
            i = i + 1;
        }
        proof {
            lemma_find_revision_absent(self@.revisions, self@.current_revision);
        }
        None
    }

    /// The patchset number of `current_revision`, or 0 when Gerrit did not
    /// return revision detail. Threads anchored below this are skipped.
    pub fn current_patch_set(&self) -> (r: u32)
        ensures
            r == spec_current_patch_set(self@),
    {
        match self.current_entry() {
            Some(i) => self.revisions[i].1.number,
            None => 0,
        }
    }

    /// The ref carrying the current patchset, for `git fetch`.
    pub fn current_revision_ref(&self) -> (r: Option<&str>)
        ensures
            match r {
                Some(s) => spec_current_revision_ref(self@) == Some(s@),
                None => spec_current_revision_ref(self@) is None,
            },
    {
        match self.current_entry() {
            Some(i) => match &self.revisions[i].1.git_ref {
                Some(s) => Some(s.as_str()),
                None => None,
            },
            None => None,
        }
    }

    /// A copy of this change.
    pub fn duplicate(&self) -> (r: ChangeInfo)
        ensures
            r@ == self@,
    {
        let mut revisions: Vec<(String, RevisionInfo)> = Vec::new();
        let mut i: usize = 0;
        while i < self.revisions.len()
            invariant
                i <= self@.revisions.len(),
                revisions@.len() == i,
                forall|k: int| 0 <= k < i ==> (revisions@[k].0@, revisions@[k].1@) == self@.revisions[k],
            decreases self@.revisions.len() - i,
        {
            let entry = &self.revisions[i];
            revisions.push((copy_string(&entry.0), RevisionInfo { number: entry.1.number, git_ref: copy_opt(&entry.1.git_ref) }));
            i = i + 1;
        }
        let r = ChangeInfo {
            id: copy_string(&self.id),
            project: copy_string(&self.project),
            branch: copy_string(&self.branch),
            current_revision: copy_string(&self.current_revision),
            subject: copy_string(&self.subject),
            revisions,
        };
        assert(r@.revisions =~= self@.revisions);
        r
    }
}

/// One comment's fate in the batched review post. Resolution and reply are the
/// same operation differing only in `unresolved`.
#[derive(Debug, Clone, PartialEq, Eq)]
pub struct ReviewComment {
    pub path: String,
    /// Omitted for change-level comments.
    pub line: Option<u32>,
    /// The thread's **last** comment id — replies attach to the end of the
    /// exchange, not its opening comment.
    pub in_reply_to: String,
    pub message: String,
    pub unresolved: bool,
}

/// The mathematical value of a review comment.
pub struct ReviewCommentView {
    pub path: Seq<char>,
    pub line: Option<u32>,
    pub in_reply_to: Seq<char>,
    pub message: Seq<char>,
    pub unresolved: bool,
}

impl View for ReviewComment {
    type V = ReviewCommentView;

    open spec fn view(&self) -> ReviewCommentView {
        ReviewCommentView {
            path: self.path@,
            line: self.line,
            in_reply_to: self.in_reply_to@,
            message: self.message@,
            unresolved: self.unresolved,
        }
    }
}

/// The single batched review post issued after a successful push.
#[derive(Debug, Clone, Default, PartialEq, Eq)]
pub struct ReviewInput {
    pub message: Option<String>,
    /// Comment fates, grouped by path in the order the paths were first met.
    /// Skipped threads are absent entirely.
    pub comments: Vec<(String, Vec<ReviewComment>)>,
}

/// The mathematical value of a review post.
pub struct ReviewView {
    pub message: Option<Seq<char>>,
    pub comments: Seq<(Seq<char>, Seq<ReviewCommentView>)>,
}

impl View for ReviewInput {
    type V = ReviewView;

    open spec fn view(&self) -> ReviewView {
        ReviewView {
            message: opt_view(self.message),
            comments: self.comments@.map_values(
                |e: (String, Vec<ReviewComment>)| (e.0@, e.1@.map_values(|c: ReviewComment| c@)),
            ),
        }
    }
}

impl ReviewComment {
    /// A copy of this review comment.
    pub fn duplicate(&self) -> (r: ReviewComment)
        ensures
            r@ == self@,
    {
        ReviewComment {
            path: copy_string(&self.path),
            line: self.line,
            in_reply_to: copy_string(&self.in_reply_to),
            message: copy_string(&self.message),
            unresolved: self.unresolved,
        }
    }
}

impl ReviewInput {
    /// An empty review.
    pub fn new() -> (r: ReviewInput)
        ensures
            r@.message is None,
            r@.comments.len() == 0,
    {
        ReviewInput { message: None, comments: Vec::new() }
    }

    /// The comments posted under `path`, if any.
    pub fn comments_at(&self, path: &str) -> (r: Option<&Vec<ReviewComment>>)
        ensures
            match r {
                Some(v) => exists|i: int| 0 <= i < self@.comments.len() && self@.comments[i].0 == path@
                    && #[trigger] self@.comments[i].1 == v@.map_values(|c: ReviewComment| c@),
                None => forall|i: int| 0 <= i < self@.comments.len() ==> (#[trigger] self@.comments[i]).0 != path@,
            },
    {
        let p = chars_of(path);
        let mut i: usize = 0;
        while i < self.comments.len()
            invariant
                i <= self@.comments.len(),
                p@ == path@,
                forall|k: int| 0 <= k < i ==> (#[trigger] self@.comments[k]).0 != path@,
            decreases self@.comments.len() - i,
        {
            let key = chars_of(self.comments[i].0.as_str());
            if chars_eq(key.as_slice(), p.as_slice()) {
                assert(self@.comments[i as int].1 == self.comments@[i as int].1@.map_values(|c: ReviewComment| c@));
                return Some(&self.comments[i].1);
            }
            i = i + 1;
        }
        None
    }

    /// A copy of this review.
    pub fn duplicate(&self) -> (r: ReviewInput)
        ensures
            r@ == self@,
    {
        let mut comments: Vec<(String, Vec<ReviewComment>)> = Vec::new();
        let mut i: usize = 0;
        while i < self.comments.len()
            invariant
                i <= self@.comments.len(),
                comments@.len() == i,
                forall|k: int| 0 <= k < i ==> (comments@[k].0@, comments@[k].1@.map_values(|c: ReviewComment| c@)) == self@.comments[k],
            decreases self@.comments.len() - i,
        {
            let entry = &self.comments[i];
            let mut list: Vec<ReviewComment> = Vec::new();
            let mut j: usize = 0;
            while j < entry.1.len()
                invariant
                    j <= entry.1@.len(),
                    list@.len() == j,
                    forall|q: int| 0 <= q < j ==> list@[q]@ == entry.1@[q]@,
                decreases entry.1@.len() - j,
            {
                list.push(entry.1[j].duplicate());
                j = j + 1;
            }
            assert(list@.map_values(|c: ReviewComment| c@) =~= entry.1@.map_values(|c: ReviewComment| c@));
            comments.push((copy_string(&entry.0), list));
            i = i + 1;
        }
        let r = ReviewInput { message: copy_opt(&self.message), comments };
        assert(r@.comments =~= self@.comments);
        r
    }
}

/// Review posts that went through, each with the change it was posted to.
pub type PostLog = Seq<(Seq<char>, ReviewView)>;

/// An answer of a change, as plain values.
pub type ChangeAnswer = Result<ChangeView, GerritError>;

/// A change answer as plain values.
pub open spec fn change_answer_view(r: Result<ChangeInfo, GerritError>) -> ChangeAnswer {
    match r {
        Ok(c) => Ok(c@),
        Err(e) => Err(e),
    }
}

/// Comments grouped by path, as plain values.
pub type GroupsView = Seq<(Seq<char>, Seq<CommentView>)>;

/// An answer of comments grouped by path, as plain values.
pub type GroupsAnswer = Result<GroupsView, GerritError>;

/// A comments answer as plain values.
pub open spec fn groups_answer_view(r: Result<Vec<(String, Vec<Comment>)>, GerritError>) -> GroupsAnswer {
    match r {
        Ok(g) => Ok(crate::gerrit::load::path_groups(g@)),
        Err(e) => Err(e),
    }
}

/// The Gerrit REST operations Remendo needs.
///
/// What a request may be answered with is a relation: a live server answers
/// from the change as it stands when asked, a fake from its canned data. Each
/// reading method gives one of those answers.
pub trait GerritApi {
    /// The review posts that went through, in order, with the change each
    /// was posted to.
    spec fn posted_log(&self) -> PostLog;

    /// Whether `r` is an answer this server gives when asked for `change_id`.
    spec fn change_answer(&self, change_id: Text, r: ChangeAnswer) -> bool;

    /// Whether `r` is an answer this server gives when asked for the
    /// published comments of `change_id`.
    spec fn comments_answer(&self, change_id: Text, r: GroupsAnswer) -> bool;

    /// Whether `r` is an answer this server gives when asked for the robot
    /// comments of `change_id`.
    spec fn robot_comments_answer(&self, change_id: Text, r: GroupsAnswer) -> bool;

    /// Fetch a change with its current revision, branch, project and revisions.
    fn change(&self, change_id: &str) -> (r: Result<ChangeInfo, GerritError>)
        ensures
            self.change_answer(change_id@, change_answer_view(r));

    /// Published inline comments, grouped by Gerrit comment path.
    fn comments(&self, change_id: &str) -> (r: Result<Vec<(String, Vec<Comment>)>, GerritError>)
        ensures
            self.comments_answer(change_id@, groups_answer_view(r));

    /// Robot comments, from Gerrit's separate robot-comment endpoint.
    fn robot_comments(&self, change_id: &str) -> (r: Result<Vec<(String, Vec<Comment>)>, GerritError>)
        ensures
            self.robot_comments_answer(change_id@, groups_answer_view(r));

    /// The one batched review post carrying every comment fate.
    fn post_review(&mut self, change_id: &str, review: &ReviewInput) -> (r: Result<(), GerritError>)
        ensures
            r is Err ==> final(self).posted_log() == old(self).posted_log(),
            r is Ok ==> final(self).posted_log() == old(self).posted_log().push((change_id@, review@));
}

} // verus!
