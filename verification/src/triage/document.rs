//! The document a thread is anchored to, built for display: a source file
//! from the worktree, the commit message, or, for a change-level thread, a
//! synthetic overview of the change. Pseudo-paths never touch the worktree.

use vstd::prelude::*;
use crate::apply::files::{FilesView, WorktreeFiles};
use crate::gerrit::anchor::{AnchorView, CommentAnchor, commit_msg_line, spec_commit_msg_line};
use crate::gerrit::api::{ChangeInfo, spec_current_patch_set};
use crate::gerrit::thread::{Thread, ThreadView, spec_root, thread_wf};
use crate::text::{chars_of, split_lines, spec_lines, string_of, views, push_str, push_decimal, spec_decimal};

verus! {

/// A document shown beside a thread.
#[derive(Debug, Clone, PartialEq, Eq)]
pub struct Document {
    pub title: String,
    pub lines: Vec<String>,
    /// The 1-based line the thread is anchored at, if it lands in the document.
    pub anchor_line: Option<usize>,
    /// Whether the text is code (highlighted) rather than prose.
    pub highlighted: bool,
}

pub open spec fn string_views(v: Seq<String>) -> Seq<Seq<char>> {
    v.map_values(|s: String| s@)
}

/// The lines of `text` as owned strings.
pub fn text_lines(text: &str) -> (r: Vec<String>)
    ensures
        string_views(r@) == spec_lines(text@),
{
    let v = chars_of(text);
    let parts = split_lines(v.as_slice());
    let mut r: Vec<String> = Vec::new();
    let mut i: usize = 0;
    while i < parts.len()
        invariant
            i <= parts@.len(),
            views(parts@) == spec_lines(text@),
            string_views(r@) == views(parts@).take(i as int),
        decreases parts@.len() - i,
    {
        let s = string_of(parts[i].as_slice());
        let ghost before = r@;
        r.push(s);
        assert(string_views(r@) =~= string_views(before).push(s@));
        assert(views(parts@).take(i + 1) =~= views(parts@).take(i as int).push(parts@[i as int]@));
        i = i + 1;
    }
    assert(views(parts@).take(parts@.len() as int) =~= views(parts@));
    r
}

/// The lines of the synthetic overview of a change-level thread.
pub open spec fn spec_overview(c: ChangeInfo) -> Seq<Seq<char>> {
    seq![
        "Change "@ + c.id@,
        "Subject  "@ + c.subject@,
        "Project  "@ + c.project@,
        "Branch   "@ + c.branch@,
        "Patchset "@ + spec_decimal(spec_current_patch_set(c@) as nat) + " ("@ + c.current_revision@ + ")"@,
        Seq::empty(),
        "This comment is on the change as a whole, not on any file."@,
    ]
}

fn line_of(prefix: &str, value: &str) -> (r: String)
    ensures
        r@ == prefix@ + value@,
{
    let mut s = String::new();
    push_str(&mut s, prefix);
    push_str(&mut s, value);
    s
}

/// A synthetic overview of the change, for a thread on the change as a whole.
pub fn change_overview(change: &ChangeInfo) -> (r: Document)
    ensures
        r.title@ == "/PATCHSET_LEVEL"@,
        string_views(r.lines@) == spec_overview(*change),
        r.anchor_line is None,
        !r.highlighted,
{
    let mut lines: Vec<String> = Vec::new();
    lines.push(line_of("Change ", change.id.as_str()));
    lines.push(line_of("Subject  ", change.subject.as_str()));
    lines.push(line_of("Project  ", change.project.as_str()));
    lines.push(line_of("Branch   ", change.branch.as_str()));
    let mut ps = String::new();
    push_str(&mut ps, "Patchset ");
    push_decimal(&mut ps, change.current_patch_set() as u64);
    push_str(&mut ps, " (");
    push_str(&mut ps, change.current_revision.as_str());
    push_str(&mut ps, ")");
    lines.push(ps);
    lines.push(String::new());
    lines.push("This comment is on the change as a whole, not on any file.".to_owned());
    assert(string_views(lines@) =~= spec_overview(*change));
    Document { title: "/PATCHSET_LEVEL".to_owned(), lines, anchor_line: None, highlighted: false }
}

/// The commit message, anchored past Gerrit's synthetic header lines.
pub fn commit_message_document(thread: &Thread, commit_message: &str) -> (r: Document)
    requires
        thread_wf(thread@),
    ensures
        r.title@ == "/COMMIT_MSG"@,
        string_views(r.lines@) == spec_lines(commit_message@),
        r.anchor_line == match spec_root(thread@).line {
            Some(l) => match spec_commit_msg_line(l as int) { Some(x) => Some(x as usize), None => None },
            None => None,
        },
        !r.highlighted,
{
    let anchor_line = match thread.line() {
        Some(line) => commit_msg_line(line as usize),
        None => None,
    };
    Document { title: "/COMMIT_MSG".to_owned(), lines: text_lines(commit_message), anchor_line, highlighted: false }
}

/// The line shown in place of a file that could not be read.
pub open spec fn unreadable_line(path: Seq<char>) -> Seq<char> {
    "("@ + path + " could not be read from the worktree)"@
}

/// What the document of a thread on `path` shows: the lines of the file as
/// the worktree shows it (`seen`), or, when it cannot be read, the one-line
/// placeholder naming it; anchored at the thread's line.
pub open spec fn is_source_file(d: Document, path: Seq<char>, t: ThreadView, seen: FilesView) -> bool {
    &&& d.title@ == path
    &&& d.anchor_line == match spec_root(t).line { Some(l) => Some(l as usize), None => None }
    &&& d.highlighted
    &&& (string_views(d.lines@) == seq![unreadable_line(path)]
        || (seen.contains_key(path) && string_views(d.lines@) == spec_lines(seen[path])))
}

/// The document shown for thread `t`: the file it is on, the commit message
/// anchored past Gerrit's header, or the change's overview.
pub open spec fn is_document_for(d: Document, t: ThreadView, change: ChangeInfo, commit_message: Seq<char>, seen: FilesView) -> bool {
    match t.anchor {
        AnchorView::File(p) => is_source_file(d, p, t, seen),
        AnchorView::CommitMessage => {
            &&& d.title@ == "/COMMIT_MSG"@
            &&& string_views(d.lines@) == spec_lines(commit_message)
            &&& d.anchor_line == match spec_root(t).line {
                Some(l) => match spec_commit_msg_line(l as int) { Some(x) => Some(x as usize), None => None },
                None => None,
            }
            &&& !d.highlighted
        },
        AnchorView::ChangeLevel => {
            &&& d.title@ == "/PATCHSET_LEVEL"@
            &&& string_views(d.lines@) == spec_overview(change)
            &&& d.anchor_line is None
            &&& !d.highlighted
        },
    }
}

/// A source file from the worktree, or a one-line placeholder naming it when
/// it cannot be read.
pub fn source_file<W: WorktreeFiles>(path: &str, thread: &Thread, files: &W) -> (r: Document)
    requires
        thread_wf(thread@),
    ensures
        is_source_file(r, path@, thread@, files.seen()),
{
    let lines = match files.read(path) {
        Ok(text) => text_lines(text.as_str()),
        Err(_) => {
            let mut s = String::new();
            push_str(&mut s, "(");
            push_str(&mut s, path);
            push_str(&mut s, " could not be read from the worktree)");
            let mut v: Vec<String> = Vec::new();
            v.push(s);
            assert(string_views(v@) =~= seq![unreadable_line(path@)]);
            v
        },
    };
    let anchor_line = match thread.line() {
        Some(line) => Some(line as usize),
        None => None,
    };
    Document { title: path.to_owned(), lines, anchor_line, highlighted: true }
}

impl Document {
    /// The document a thread is anchored to. Only a real file is read from
    /// the worktree; the commit message and the change overview never are.
    pub fn for_thread<W: WorktreeFiles>(thread: &Thread, change: &ChangeInfo, commit_message: &str, files: &W) -> (r: Document)
        requires
            thread_wf(thread@),
        ensures
            is_document_for(r, thread@, *change, commit_message@, files.seen()),
    {
        match &thread.anchor {
            CommentAnchor::File(path) => source_file(path.as_str(), thread, files),
            CommentAnchor::CommitMessage => commit_message_document(thread, commit_message),
            CommentAnchor::ChangeLevel => change_overview(change),
        }
    }

    /// The 0-based index of the anchor line.
    pub fn anchor_index(&self) -> (r: Option<usize>)
        ensures
            r == match self.anchor_line { Some(l) => Some(if l > 0 { (l - 1) as usize } else { 0usize }), None => None },
    {
        match self.anchor_line {
            Some(line) => Some(line.saturating_sub(1)),
            None => None,
        }
    }
}

} // verus!
