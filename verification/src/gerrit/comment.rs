//! A single Gerrit comment, as fetched and as modelled.
//!
//! Human and robot comments share this shape; a robot comment has `robot_id`
//! set. The `path` a comment was fetched under becomes a [`CommentAnchor`] when a
//! thread is built, so no pseudo-path ever reaches the filesystem.
//!
//! [`CommentAnchor`]: crate::gerrit::CommentAnchor

use vstd::prelude::*;
use crate::text::copy_string;

verus! {

/// The characters of an optional string.
pub open spec fn opt_view(s: Option<String>) -> Option<Seq<char>> {
    match s {
        Some(t) => Some(t@),
        None => None,
    }
}

/// A copy of an optional string.
pub fn copy_opt(s: &Option<String>) -> (r: Option<String>)
    ensures
        opt_view(r) == opt_view(*s),
{
    match s {
        Some(t) => Some(copy_string(t)),
        None => None,
    }
}

/// A copy of a list of strings.
pub fn copy_strings(v: &Vec<String>) -> (r: Vec<String>)
    ensures
        r@.map_values(|s: String| s@) == v@.map_values(|s: String| s@),
{
    let mut r: Vec<String> = Vec::new();
    let mut i: usize = 0;
    while i < v.len()
        invariant
            i <= v@.len(),
            r@.len() == i,
            forall|j: int| 0 <= j < i ==> r@[j]@ == v@[j]@,
        decreases v@.len() - i,
    {
        r.push(copy_string(&v[i]));
        i = i + 1;
    }
    assert(r@.map_values(|s: String| s@) =~= v@.map_values(|s: String| s@));
    r
}

/// A character range within a file, when a comment spans more than a line.
#[derive(Debug, Clone, Copy, PartialEq, Eq)]
pub struct CommentRange {
    pub start_line: u32,
    pub start_character: u32,
    pub end_line: u32,
    pub end_character: u32,
}

/// A comment's author. Only the fields the UI shows are modelled; the identity
/// is used for provenance filtering and display, never for the verdict.
#[derive(Debug, Clone, Default, PartialEq, Eq)]
pub struct Author {
    pub account_id: Option<u64>,
    pub name: Option<String>,
    pub email: Option<String>,
}

/// The mathematical value of an author.
pub struct AuthorView {
    pub account_id: Option<u64>,
    pub name: Option<Seq<char>>,
    pub email: Option<Seq<char>>,
}

impl View for Author {
    type V = AuthorView;

    open spec fn view(&self) -> AuthorView {
        AuthorView { account_id: self.account_id, name: opt_view(self.name), email: opt_view(self.email) }
    }
}

impl Author {
    /// A copy of this author.
    pub fn duplicate(&self) -> (r: Author)
        ensures
            r@ == self@,
    {
        Author { account_id: self.account_id, name: copy_opt(&self.name), email: copy_opt(&self.email) }
    }
}

/// One comment on a change.
#[derive(Debug, Clone, PartialEq, Eq)]
pub struct Comment {
    pub id: String,
    /// Set when this comment replies to another. `None` marks a thread root.
    pub in_reply_to: Option<String>,
    /// Gerrit's `updated` timestamp, used to order a thread and to break ties
    /// when a thread branches.
    pub updated: String,
    pub author: Author,
    pub message: String,
    /// Per-comment resolved flag. **Not** the thread's state — that is the last
    /// comment's flag.
    pub unresolved: bool,
    /// The patchset this comment was written against.
    pub patch_set: u32,
    pub line: Option<u32>,
    pub range: Option<CommentRange>,
    /// Present only on robot comments; identifies the linter or CI job.
    pub robot_id: Option<String>,
    /// A robot's machine-applicable fixes, each kept as its JSON text. Unused by
    /// triage, but carried rather than dropped.
    pub fix_suggestions: Vec<String>,
}

/// The mathematical value of a comment.
pub struct CommentView {
    pub id: Seq<char>,
    pub in_reply_to: Option<Seq<char>>,
    pub updated: Seq<char>,
    pub author: AuthorView,
    pub message: Seq<char>,
    pub unresolved: bool,
    pub patch_set: u32,
    pub line: Option<u32>,
    pub range: Option<CommentRange>,
    pub robot_id: Option<Seq<char>>,
    pub fix_suggestions: Seq<Seq<char>>,
}

impl View for Comment {
    type V = CommentView;

    open spec fn view(&self) -> CommentView {
        CommentView {
            id: self.id@,
            in_reply_to: opt_view(self.in_reply_to),
            updated: self.updated@,
            author: self.author@,
            message: self.message@,
            unresolved: self.unresolved,
            patch_set: self.patch_set,
            line: self.line,
            range: self.range,
            robot_id: opt_view(self.robot_id),
            fix_suggestions: self.fix_suggestions@.map_values(|s: String| s@),
        }
    }
}

/// The name shown for an author Gerrit did not name.
pub open spec fn unknown_author() -> Seq<char> {
    "(unknown)"@
}

impl Comment {
    /// A comment with the given id and every other field at its default, as
    /// Gerrit's JSON would give for a body holding only the id.
    pub fn with_id(id: &str) -> (r: Comment)
        ensures
            r@.id == id@,
            r@.in_reply_to is None,
            r@.updated.len() == 0,
            r@.message.len() == 0,
            !r@.unresolved,
            r@.patch_set == 0,
            r@.line is None,
            r@.robot_id is None,
            r@.author.account_id is None,
            r@.author.name is None,
    {
        Comment {
            id: id.to_owned(),
            in_reply_to: None,
            updated: String::new(),
            author: Author { account_id: None, name: None, email: None },
            message: String::new(),
            unresolved: false,
            patch_set: 0,
            line: None,
            range: None,
            robot_id: None,
            fix_suggestions: Vec::new(),
        }
    }

    /// Whether this comment came from a linter or CI job rather than a person.
    pub fn is_robot(&self) -> (r: bool)
        ensures
            r == (self@.robot_id is Some),
    {
        self.robot_id.is_some()
    }

    /// The author's display name, or a placeholder when Gerrit omitted it.
    pub fn author_name(&self) -> (r: &str)
        ensures
            r@ == match self@.author.name {
                Some(n) => n,
                None => unknown_author(),
            },
    {
        match &self.author.name {
            Some(n) => n.as_str(),
            None => "(unknown)",
        }
    }

    /// A copy of this comment.
    pub fn duplicate(&self) -> (r: Comment)
        ensures
            r@ == self@,
    {
        Comment {
            id: copy_string(&self.id),
            in_reply_to: copy_opt(&self.in_reply_to),
            updated: copy_string(&self.updated),
            author: self.author.duplicate(),
            message: copy_string(&self.message),
            unresolved: self.unresolved,
            patch_set: self.patch_set,
            line: self.line,
            range: self.range,
            robot_id: copy_opt(&self.robot_id),
            fix_suggestions: copy_strings(&self.fix_suggestions),
        }
    }
}

} // verus!
