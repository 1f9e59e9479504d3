//! What a comment is anchored to.
//!
//! Gerrit addresses comments by a `path` field, but two of its values are not
//! files: `/COMMIT_MSG` is the commit message and `/PATCHSET_LEVEL` is the
//! change as a whole. Classifying once, here, keeps either from ever being
//! treated as a file on disk.

use vstd::prelude::*;
use crate::text::{chars_of, chars_eq, copy_string};

verus! {

/// Gerrit's pseudo-path for a comment on the commit message.
pub open spec fn commit_msg_path() -> Seq<char> {
    "/COMMIT_MSG"@
}

/// Gerrit's pseudo-path for a change-level comment.
pub open spec fn patchset_level_path() -> Seq<char> {
    "/PATCHSET_LEVEL"@
}

/// Lines Gerrit prepends when it renders a commit message for commenting:
/// `Parent`, `Author`, `AuthorDate`, `Commit`, `CommitDate`, then a blank line.
pub const COMMIT_MSG_HEADER_LINES: usize = 6;

/// What a comment hangs off.
#[derive(Debug, Clone, PartialEq, Eq)]
pub enum CommentAnchor {
    /// A real file in the worktree, at a repository-relative path.
    File(String),
    /// The commit message. Carries no path — the message is not a file.
    CommitMessage,
    /// The change as a whole. Carries no path and no line.
    ChangeLevel,
}

/// The mathematical value of an anchor.
pub enum AnchorView {
    File(Seq<char>),
    CommitMessage,
    ChangeLevel,
}

impl View for CommentAnchor {
    type V = AnchorView;

    open spec fn view(&self) -> AnchorView {
        match self {
            CommentAnchor::File(p) => AnchorView::File(p@),
            CommentAnchor::CommitMessage => AnchorView::CommitMessage,
            CommentAnchor::ChangeLevel => AnchorView::ChangeLevel,
        }
    }
}

/// The anchor a Gerrit comment `path` denotes.
pub open spec fn spec_classify(path: Seq<char>) -> AnchorView {
    if path == commit_msg_path() {
        AnchorView::CommitMessage
    } else if path == patchset_level_path() {
        AnchorView::ChangeLevel
    } else {
        AnchorView::File(path)
    }
}

/// The path Gerrit addresses an anchor by.
pub open spec fn spec_gerrit_path(a: AnchorView) -> Seq<char> {
    match a {
        AnchorView::File(p) => p,
        AnchorView::CommitMessage => commit_msg_path(),
        AnchorView::ChangeLevel => patchset_level_path(),
    }
}

/// The on-disk path of an anchor, which only a real file has.
pub open spec fn spec_file_path(a: AnchorView) -> Option<Seq<char>> {
    match a {
        AnchorView::File(p) => Some(p),
        _ => None,
    }
}

/// Whether an anchor names a file an apply turn may edit.
pub open spec fn spec_is_editable(a: AnchorView) -> bool {
    a is File
}

/// Whether an anchor is one Gerrit's `classify` can produce: a file anchor never
/// carries one of the two pseudo-paths.
pub open spec fn well_formed_anchor(a: AnchorView) -> bool {
    match a {
        AnchorView::File(p) => p != commit_msg_path() && p != patchset_level_path(),
        _ => true,
    }
}

/// Gerrit's rendered commit-message line mapped onto the real message, or
/// `None` for a line inside Gerrit's synthetic header.
pub open spec fn spec_commit_msg_line(rendered: int) -> Option<int> {
    if rendered > COMMIT_MSG_HEADER_LINES {
        Some(rendered - COMMIT_MSG_HEADER_LINES)
    } else {
        None
    }
}

impl CommentAnchor {
    /// Classify a Gerrit comment `path`.
    pub fn classify(path: &str) -> (r: CommentAnchor)
        ensures
            r@ == spec_classify(path@),
    {
        let p = chars_of(path);
        let commit = chars_of("/COMMIT_MSG");
        let patchset = chars_of("/PATCHSET_LEVEL");
        if chars_eq(p.as_slice(), commit.as_slice()) {
            CommentAnchor::CommitMessage
        } else if chars_eq(p.as_slice(), patchset.as_slice()) {
            CommentAnchor::ChangeLevel
        } else {
            CommentAnchor::File(path.to_owned())
        }
    }

    /// The worktree-relative file path, or `None` for the two pseudo-paths.
    pub fn file_path(&self) -> (r: Option<&str>)
        ensures
            match r {
                Some(p) => spec_file_path(self@) == Some(p@),
                None => spec_file_path(self@) is None,
            },
    {
        match self {
            CommentAnchor::File(path) => Some(path.as_str()),
            CommentAnchor::CommitMessage => None,
            CommentAnchor::ChangeLevel => None,
        }
    }

    /// Whether an apply turn can act on this anchor. Only real files can be
    /// edited: commit-message comments route into the finalize amend's message,
    /// and change-level comments are reply-only.
    pub fn is_editable_file(&self) -> (r: bool)
        ensures
            r == spec_is_editable(self@),
    {
        match self {
            CommentAnchor::File(_) => true,
            _ => false,
        }
    }

    /// The path string Gerrit addresses this anchor by, for posting back. Always
    /// yields a string, so it must never be used to reach the filesystem.
    pub fn gerrit_path(&self) -> (r: &str)
        ensures
            r@ == spec_gerrit_path(self@),
    {
        match self {
            CommentAnchor::File(path) => path.as_str(),
            CommentAnchor::CommitMessage => "/COMMIT_MSG",
            CommentAnchor::ChangeLevel => "/PATCHSET_LEVEL",
        }
    }

    /// A copy of this anchor.
    pub fn duplicate(&self) -> (r: CommentAnchor)
        ensures
            r@ == self@,
    {
        match self {
            CommentAnchor::File(path) => CommentAnchor::File(copy_string(path)),
            CommentAnchor::CommitMessage => CommentAnchor::CommitMessage,
            CommentAnchor::ChangeLevel => CommentAnchor::ChangeLevel,
        }
    }
}

/// Map a comment's line number on Gerrit's rendered commit message onto a line
/// of the real message, accounting for the synthetic header Gerrit prepends.
/// Lines addressing the header itself correspond to no line of the message.
pub fn commit_msg_line(rendered_line: usize) -> (r: Option<usize>)
    ensures
        match r {
            Some(line) => spec_commit_msg_line(rendered_line as int) == Some(line as int),
            None => spec_commit_msg_line(rendered_line as int) is None,
        },
{
    if rendered_line > COMMIT_MSG_HEADER_LINES {
        Some(rendered_line - COMMIT_MSG_HEADER_LINES)
    } else {
        None
    }
}

/// Classifying a path and asking for its Gerrit path gives the path back.
pub proof fn lemma_gerrit_path_of_classify(path: Seq<char>)
    ensures
        spec_gerrit_path(spec_classify(path)) == path,
        well_formed_anchor(spec_classify(path)),
{
}

/// Every anchor `classify` can produce is recovered from its Gerrit path.
pub proof fn lemma_classify_of_gerrit_path(a: AnchorView)
    requires
        well_formed_anchor(a),
    ensures
        spec_classify(spec_gerrit_path(a)) == a,
{
    lemma_pseudo_paths_differ();
}

/// The two pseudo-paths are different strings.
pub proof fn lemma_pseudo_paths_differ()
    ensures
        commit_msg_path() != patchset_level_path(),
{
    reveal_strlit("/COMMIT_MSG");
    reveal_strlit("/PATCHSET_LEVEL");
    assert(commit_msg_path().len() != patchset_level_path().len());
}

/// Neither pseudo-path yields an on-disk path or an editable anchor; every other
/// path is a file at exactly that path.
pub proof fn lemma_pseudo_paths_never_reach_disk(path: Seq<char>)
    ensures
        (path == commit_msg_path() || path == patchset_level_path()) ==> (spec_file_path(
            spec_classify(path),
        ) is None && !spec_is_editable(spec_classify(path))),
        !(path == commit_msg_path() || path == patchset_level_path()) ==> (spec_file_path(
            spec_classify(path),
        ) == Some(path) && spec_is_editable(spec_classify(path))),
{
}

} // verus!
