//! Where a review session lives on disk: one directory per project and
//! change, holding the worktree and the verdict cache side by side.

use vstd::prelude::*;
use crate::text::{chars_of, string_of, trim_char, spec_trim_char, split_on, spec_split, views, chars_eq, find_char, first_index_of, push_str};
use super::WorkspaceError;

verus! {

/// A path component is refused when it is empty, `.` or `..`, or holds a
/// backslash.
pub open spec fn bad_part(p: Seq<char>) -> bool {
    p.len() == 0 || p == "."@ || p == ".."@ || first_index_of(p, '\\') is Some
}

/// Whether a value, its surrounding slashes trimmed, would escape or blur the
/// session directory.
pub open spec fn is_unsafe(value: Seq<char>) -> bool {
    let trimmed = spec_trim_char(value, '/');
    trimmed.len() == 0 || exists|i: int| 0 <= i < spec_split(trimmed, '/').len() && bad_part(#[trigger] spec_split(trimmed, '/')[i])
}

/// Validate a name used as path components under the state directory.
/// Surrounding slashes are tolerated and removed; an empty name, and one
/// holding an empty, `.` or `..` component or a backslash, is refused.
pub fn safe_component(value: &str, what: &str) -> (r: Result<String, WorkspaceError>)
    ensures
        match r {
            Ok(s) => !is_unsafe(value@) && s@ == spec_trim_char(value@, '/'),
            Err(e) => is_unsafe(value@) && (e matches WorkspaceError::UnsafeName { what: w, value: v } && w@ == what@ && v@ == value@),
        },
{
    let v = chars_of(value);
    let trimmed = trim_char(v.as_slice(), '/');
    if trimmed.len() == 0 {
        return Err(WorkspaceError::UnsafeName { what: what.to_owned(), value: value.to_owned() });
    }
    let parts = split_on(trimmed.as_slice(), '/');
    let dot = chars_of(".");
    let dotdot = chars_of("..");
    let mut i: usize = 0;
    while i < parts.len()
        invariant
            views(parts@) == spec_split(trimmed@, '/'),
            trimmed@ == spec_trim_char(value@, '/'),
            dot@ == "."@,
            dotdot@ == ".."@,
            i <= parts@.len(),
            forall|k: int| 0 <= k < i ==> !bad_part(#[trigger] spec_split(trimmed@, '/')[k]),
        decreases parts@.len() - i,
    {
        let p = &parts[i];
        assert(spec_split(trimmed@, '/')[i as int] == p@);
        let bad = p.len() == 0 || chars_eq(p.as_slice(), dot.as_slice()) || chars_eq(p.as_slice(), dotdot.as_slice())
            || find_char(p.as_slice(), '\\').is_some();
        if bad {
            assert(bad_part(spec_split(trimmed@, '/')[i as int]));
            return Err(WorkspaceError::UnsafeName { what: what.to_owned(), value: value.to_owned() });
        }
        i = i + 1;
    }
    Ok(string_of(trimmed.as_slice()))
}

/// `base` joined with a relative component, with one `/` between them.
pub open spec fn spec_join(base: Seq<char>, part: Seq<char>) -> Seq<char> {
    if base.len() == 0 || base.last() == '/' {
        base + part
    } else {
        base + "/"@ + part
    }
}

/// `base` joined with a relative component.
pub fn join(base: &str, part: &str) -> (r: String)
    ensures
        r@ == spec_join(base@, part@),
{
    let b = chars_of(base);
    let mut r = string_of(b.as_slice());
    if b.len() == 0 || b[b.len() - 1] == '/' {
        push_str(&mut r, part);
    } else {
        push_str(&mut r, "/");
        push_str(&mut r, part);
    }
    r
}

/// The directories of one review session.
#[derive(Debug, Clone, PartialEq, Eq)]
pub struct SessionPaths {
    pub root: String,
}

impl SessionPaths {
    /// The session for `change_id` of `project` under `state_dir`:
    /// `<state_dir>/remendo/<project>/<change_id>`. Names that could escape the
    /// state directory are refused.
    pub fn new(state_dir: &str, project: &str, change_id: &str) -> (r: Result<SessionPaths, WorkspaceError>)
        ensures
            match r {
                Ok(p) => !is_unsafe(project@) && !is_unsafe(change_id@) && p.root@ == spec_join(spec_join(spec_join(state_dir@,
                    "remendo"@), spec_trim_char(project@, '/')), spec_trim_char(change_id@, '/')),
                Err(e) => (is_unsafe(project@) && (e matches WorkspaceError::UnsafeName { what, value } && what@ == "project"@ && value@ == project@))
                    || (!is_unsafe(project@) && is_unsafe(change_id@) && (e matches WorkspaceError::UnsafeName { what, value } && what@ == "change id"@ && value@ == change_id@)),
            },
    {
        let project = match safe_component(project, "project") {
            Ok(p) => p,
            Err(e) => return Err(e),
        };
        let change_id = match safe_component(change_id, "change id") {
            Ok(c) => c,
            Err(e) => return Err(e),
        };
        let a = join(state_dir, "remendo");
        let b = join(a.as_str(), project.as_str());
        let root = join(b.as_str(), change_id.as_str());
        Ok(SessionPaths { root })
    }

    /// The worktree, inside the session.
    pub fn worktree(&self) -> (r: String)
        ensures
            r@ == spec_join(self.root@, "worktree"@),
    {
        join(self.root.as_str(), "worktree")
    }

    /// The verdict cache, beside the worktree rather than inside it.
    pub fn verdicts(&self) -> (r: String)
        ensures
            r@ == spec_join(self.root@, "verdicts.json"@),
    {
        join(self.root.as_str(), "verdicts.json")
    }
}

} // verus!
