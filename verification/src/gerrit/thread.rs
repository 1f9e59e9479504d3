//! Assembling Gerrit's flat comment list into threads, and filtering them.
//!
//! * A thread's state is its **last** comment's `unresolved` flag. Filtering
//!   per comment would re-open threads that were explicitly settled.
//! * The **first** comment supplies the anchor and line, the **whole exchange**
//!   is the question, and the **last** comment is the reply target.
//! * Comments are ordered by `updated`, so a branching thread's last comment is
//!   its most recent one.

use vstd::prelude::*;
use crate::gerrit::anchor::{AnchorView, CommentAnchor, spec_classify};
use crate::gerrit::comment::{Comment, CommentView};
use crate::order::{KeyView, SortKey, is_permutation, key_lt, lex_lt, lex_compare, sort_keys, sorted_by_key, opt_line_lt, lemma_lex_asymmetric, lemma_lex_irreflexive};
use crate::text::{chars_of, chars_eq, copy_chars};

verus! {

/// An assembled comment thread: every comment sharing a root, in order.
#[derive(Debug, Clone, PartialEq, Eq)]
pub struct Thread {
    /// What the thread hangs off, taken from its first comment.
    pub anchor: CommentAnchor,
    /// The exchange, ordered oldest first. Never empty.
    pub comments: Vec<Comment>,
}

/// The mathematical value of a thread.
pub struct ThreadView {
    pub anchor: AnchorView,
    pub comments: Seq<CommentView>,
}

impl View for Thread {
    type V = ThreadView;

    open spec fn view(&self) -> ThreadView {
        ThreadView { anchor: self.anchor@, comments: self.comments@.map_values(|c: Comment| c@) }
    }
}

/// The views of a list of comments.
pub open spec fn comment_views(cs: Seq<Comment>) -> Seq<CommentView> {
    cs.map_values(|c: Comment| c@)
}

/// The views of a list of threads.
pub open spec fn thread_views(ts: Seq<Thread>) -> Seq<ThreadView> {
    ts.map_values(|t: Thread| t@)
}

/// A thread's opening comment.
pub open spec fn spec_root(t: ThreadView) -> CommentView {
    t.comments[0]
}

/// A thread's most recent comment.
pub open spec fn spec_last(t: ThreadView) -> CommentView {
    t.comments.last()
}

/// Whether a thread still needs attention: its last comment's flag.
pub open spec fn spec_is_unresolved(t: ThreadView) -> bool {
    spec_last(t).unresolved
}

/// Whether a thread is well formed: it holds at least one comment.
pub open spec fn thread_wf(t: ThreadView) -> bool {
    t.comments.len() > 0
}

impl Thread {
    /// The comment that opened the thread — the source of its anchor and line.
    pub fn root(&self) -> (r: &Comment)
        requires
            self.comments@.len() > 0,
        ensures
            r@ == spec_root(self@),
    {
        &self.comments[0]
    }

    /// The most recent comment — the source of the thread's state and the
    /// target of any reply.
    pub fn last(&self) -> (r: &Comment)
        requires
            self.comments@.len() > 0,
        ensures
            r@ == spec_last(self@),
    {
        &self.comments[self.comments.len() - 1]
    }

    /// Whether the thread still needs attention. Reads the **last** comment's
    /// flag: a concern followed by a reply carrying `unresolved: false` is
    /// closed, whatever the opening comment says.
    pub fn is_unresolved(&self) -> (r: bool)
        requires
            self.comments@.len() > 0,
        ensures
            r == spec_is_unresolved(self@),
    {
        self.last().unresolved
    }

    /// The comment id a reply must set `in_reply_to` to: the last comment's.
    pub fn reply_target(&self) -> (r: &str)
        requires
            self.comments@.len() > 0,
        ensures
            r@ == spec_last(self@).id,
    {
        self.last().id.as_str()
    }

    /// The line the thread is anchored at, from its opening comment.
    pub fn line(&self) -> (r: Option<u32>)
        requires
            self.comments@.len() > 0,
        ensures
            r == spec_root(self@).line,
    {
        self.root().line
    }

    /// The patchset the thread was opened against.
    pub fn patch_set(&self) -> (r: u32)
        requires
            self.comments@.len() > 0,
        ensures
            r == spec_root(self@).patch_set,
    {
        self.root().patch_set
    }

    /// Whether a linter or CI job opened this thread.
    pub fn is_robot(&self) -> (r: bool)
        requires
            self.comments@.len() > 0,
        ensures
            r == (spec_root(self@).robot_id is Some),
    {
        self.root().is_robot()
    }

    /// The account that opened the thread, for provenance filtering. Thread
    /// level deliberately: excluding individual comments would drop a reply out
    /// of another person's thread and take the thread's real state with it.
    pub fn started_by(&self) -> (r: Option<u64>)
        requires
            self.comments@.len() > 0,
        ensures
            r == spec_root(self@).author.account_id,
    {
        self.root().author.account_id
    }

    /// A copy of this thread.
    pub fn duplicate(&self) -> (r: Thread)
        ensures
            r@ == self@,
    {
        let mut comments: Vec<Comment> = Vec::new();
        let mut i: usize = 0;
        while i < self.comments.len()
            invariant
                i <= self.comments@.len(),
                comments@.len() == i,
                forall|j: int| 0 <= j < i ==> comments@[j]@ == self.comments@[j]@,
            decreases self.comments@.len() - i,
        {
            comments.push(self.comments[i].duplicate());
            i = i + 1;
        }
        let r = Thread { anchor: self.anchor.duplicate(), comments };
        assert(r@.comments =~= self@.comments);
        r
    }
}

// --- finding a comment's root ---------------------------------------------

/// The `in_reply_to` of the last comment carrying `id`, or `None` when no
/// comment carries it. Later comments win, as they would in a map built by
/// inserting the comments in order.
pub open spec fn lookup_parent(cs: Seq<CommentView>, id: Seq<char>) -> Option<Option<Seq<char>>>
    decreases cs.len(),
{
    if cs.len() == 0 {
        None
    } else if cs.last().id == id {
        Some(cs.last().in_reply_to)
    } else {
        lookup_parent(cs.drop_last(), id)
    }
}

/// The least of a non-empty list of ids, by lexicographic order; the first of
/// equal ones.
pub open spec fn min_id(s: Seq<Seq<char>>) -> Seq<char>
    decreases s.len(),
{
    if s.len() <= 1 {
        s[0]
    } else {
        let m = min_id(s.drop_last());
        if lex_lt(s.last(), m) {
            s.last()
        } else {
            m
        }
    }
}

/// Walk `in_reply_to` links from `current`, having visited `seen`.
///
/// A parent that is not among the comments ends the walk: Gerrit can return a
/// reply whose parent lives under another path, and that reply then roots its
/// own thread. A cycle collapses onto its least id, so every member agrees on
/// one root.
pub open spec fn walk(cs: Seq<CommentView>, current: Seq<char>, seen: Seq<Seq<char>>) -> Seq<char>
    decreases cs.len() + 1 - seen.len(),
{
    if seen.len() > cs.len() || seen.len() == 0 {
        current
    } else {
        match lookup_parent(cs, current) {
            Some(Some(parent)) => if lookup_parent(cs, parent) is None {
                current
            } else if seen.contains(parent) {
                min_id(seen)
            } else {
                walk(cs, parent, seen.push(parent))
            },
            _ => current,
        }
    }
}

/// The id of the thread root a comment id belongs to.
pub open spec fn root_id(cs: Seq<CommentView>, id: Seq<char>) -> Seq<char> {
    walk(cs, id, seq![id])
}

proof fn lemma_lookup_last_occurrence(cs: Seq<CommentView>, id: Seq<char>, i: int)
    requires
        0 <= i < cs.len(),
        cs[i].id == id,
        forall|k: int| i < k < cs.len() ==> cs[k].id != id,
    ensures
        lookup_parent(cs, id) == Some(cs[i].in_reply_to),
    decreases cs.len(),
{
    if i < cs.len() - 1 {
        assert(cs.last().id != id);
        lemma_lookup_last_occurrence(cs.drop_last(), id, i);
    }
}

proof fn lemma_lookup_absent(cs: Seq<CommentView>, id: Seq<char>)
    requires
        forall|k: int| 0 <= k < cs.len() ==> cs[k].id != id,
    ensures
        lookup_parent(cs, id) is None,
    decreases cs.len(),
{
    if cs.len() > 0 {
        lemma_lookup_absent(cs.drop_last(), id);
    }
}

/// The ids and parents of the comments, as character vectors.
pub struct IdTable {
    pub ids: Vec<Vec<char>>,
    pub parents: Vec<Option<Vec<char>>>,
}

/// The optional characters an optional character vector holds.
pub open spec fn opt_chars(o: Option<Vec<char>>) -> Option<Seq<char>> {
    match o {
        Some(v) => Some(v@),
        None => None,
    }
}

impl IdTable {
    pub open spec fn describes(&self, cs: Seq<CommentView>) -> bool {
        &&& self.ids@.len() == cs.len()
        &&& self.parents@.len() == cs.len()
        &&& forall|k: int| 0 <= k < cs.len() ==> self.ids@[k]@ == cs[k].id
        &&& forall|k: int| 0 <= k < cs.len() ==> opt_chars(self.parents@[k]) == cs[k].in_reply_to
    }

    /// Tabulate the ids and parents of `cs`.
    pub fn new(cs: &Vec<Comment>) -> (t: IdTable)
        ensures
            t.describes(comment_views(cs@)),
    {
        let mut ids: Vec<Vec<char>> = Vec::new();
        let mut parents: Vec<Option<Vec<char>>> = Vec::new();
        let mut k: usize = 0;
        while k < cs.len()
            invariant
                k <= cs@.len(),
                ids@.len() == k,
                parents@.len() == k,
                forall|j: int| 0 <= j < k ==> ids@[j]@ == cs@[j]@.id,
                forall|j: int| 0 <= j < k ==> opt_chars(parents@[j]) == cs@[j]@.in_reply_to,
            decreases cs@.len() - k,
        {
            ids.push(chars_of(cs[k].id.as_str()));
            let p = match &cs[k].in_reply_to {
                Some(s) => Some(chars_of(s.as_str())),
                None => None,
            };
            parents.push(p);
            k = k + 1;
        }
        IdTable { ids, parents }
    }

    /// The parent link recorded for `id`.
    pub fn lookup(&self, id: &[char], Ghost(cs): Ghost<Seq<CommentView>>) -> (r: Option<Option<Vec<char>>>)
        requires
            self.describes(cs),
        ensures
            match r {
                Some(p) => lookup_parent(cs, id@) == Some(opt_chars(p)),
                None => lookup_parent(cs, id@) is None,
            },
    {
        let mut i: usize = self.ids.len();
        while i > 0
            invariant
                i <= cs.len(),
                self.describes(cs),
                forall|k: int| i <= k < cs.len() ==> cs[k].id != id@,
            decreases i,
        {
            i = i - 1;
            if chars_eq(self.ids[i].as_slice(), id) {
                proof {
                    lemma_lookup_last_occurrence(cs, id@, i as int);
                }
                return match &self.parents[i] {
                    Some(p) => Some(Some(copy_chars(p.as_slice()))),
                    None => Some(None),
                };
            }
        }
        proof {
            lemma_lookup_absent(cs, id@);
        }
        None
    }

    /// The root id of the thread `id` belongs to.
    pub fn root_of(&self, id: &[char], Ghost(cs): Ghost<Seq<CommentView>>) -> (r: Vec<char>)
        requires
            self.describes(cs),
        ensures
            r@ == root_id(cs, id@),
    {
        let mut current: Vec<char> = copy_chars(id);
        let mut seen: Vec<Vec<char>> = Vec::new();
        seen.push(copy_chars(id));
        proof {
            assert(seen@.map_values(|v: Vec<char>| v@) =~= seq![id@]);
        }
        loop
            invariant
                self.describes(cs),
                seen@.len() >= 1,
                walk(cs, current@, seen@.map_values(|v: Vec<char>| v@)) == root_id(cs, id@),
            decreases cs.len() + 1 - seen@.len(),
        {
            let ghost sv = seen@.map_values(|v: Vec<char>| v@);
            if seen.len() > self.ids.len() {
                return current;
            }
            match self.lookup(current.as_slice(), Ghost(cs)) {
                Some(Some(parent)) => {
                    if self.lookup(parent.as_slice(), Ghost(cs)).is_none() {
                        return current;
                    }
                    if contains_id(&seen, parent.as_slice()) {
                        return min_of(&seen);
                    }
                    seen.push(copy_chars(parent.as_slice()));
                    proof {
                        assert(seen@.map_values(|v: Vec<char>| v@) =~= sv.push(parent@));
                    }
                    current = parent;
                },
                _ => {
                    return current;
                },
            }
        }
    }
}

/// Whether `id` is among `seen`.
fn contains_id(seen: &Vec<Vec<char>>, id: &[char]) -> (r: bool)
    ensures
        r == seen@.map_values(|v: Vec<char>| v@).contains(id@),
{
    let ghost sv = seen@.map_values(|v: Vec<char>| v@);
    let mut i: usize = 0;
    while i < seen.len()
        invariant
            i <= seen@.len(),
            sv == seen@.map_values(|v: Vec<char>| v@),
            forall|k: int| 0 <= k < i ==> sv[k] != id@,
        decreases seen@.len() - i,
    {
        if chars_eq(seen[i].as_slice(), id) {
            assert(sv[i as int] == id@);
            return true;
        }
        i = i + 1;
    }
    false
}

/// The least of a non-empty list of ids.
fn min_of(seen: &Vec<Vec<char>>) -> (r: Vec<char>)
    requires
        seen@.len() >= 1,
    ensures
        r@ == min_id(seen@.map_values(|v: Vec<char>| v@)),
{
    let ghost sv = seen@.map_values(|v: Vec<char>| v@);
    let mut m: usize = 0;
    let mut i: usize = 1;
    proof {
        assert(sv.subrange(0, 1).len() == 1);
    }
    while i < seen.len()
        invariant
            1 <= i <= seen@.len(),
            m < i,
            sv == seen@.map_values(|v: Vec<char>| v@),
            sv[m as int] == min_id(sv.subrange(0, i as int)),
        decreases seen@.len() - i,
    {
        proof {
            assert(sv.subrange(0, i + 1).drop_last() =~= sv.subrange(0, i as int));
        }
        if lex_compare(seen[i].as_slice(), seen[m].as_slice()) == -1 {
            m = i;
        }
        i = i + 1;
    }
    proof {
        assert(sv.subrange(0, sv.len() as int) =~= sv);
    }
    copy_chars(seen[m].as_slice())
}


// --- grouping comments by root ----------------------------------------------

/// How many of the first `m` comments belong to the thread rooted at `key`.
pub open spec fn count_rooted(cs: Seq<CommentView>, key: Seq<char>, m: int) -> nat
    decreases m,
{
    if m <= 0 {
        0
    } else {
        count_rooted(cs, key, m - 1) + if root_id(cs, cs[m - 1].id) == key {
            1nat
        } else {
            0nat
        }
    }
}

proof fn lemma_count_rooted_zero(cs: Seq<CommentView>, key: Seq<char>, m: int)
    requires
        forall|x: int| 0 <= x < m ==> root_id(cs, cs[x].id) != key,
    ensures
        count_rooted(cs, key, m) == 0,
    decreases m,
{
    if m > 0 {
        lemma_count_rooted_zero(cs, key, m - 1);
    }
}

/// Comments grouped by thread root, in the order the roots are first met.
struct Groups {
    keys: Vec<Vec<char>>,
    members: Vec<Vec<usize>>,
}

/// Whether index `x` is listed in some group.
spec fn is_member(members: Seq<Vec<usize>>, x: int) -> bool {
    exists|g: int, i: int| 0 <= g < members.len() && 0 <= i < members[g]@.len() && #[trigger] members[g]@[i] == x
}

/// Whether `groups` partitions the first `k` comments by root.
spec fn groups_wf(cs: Seq<CommentView>, keys: Seq<Vec<char>>, members: Seq<Vec<usize>>, k: int) -> bool {
    &&& keys.len() == members.len()
    &&& forall|g: int| 0 <= g < members.len() ==> members[g]@.len() > 0
    &&& forall|g: int, i: int| 0 <= g < members.len() && 0 <= i < members[g]@.len() ==> (
        #[trigger] members[g]@[i]) < k
    &&& forall|g: int, i: int| 0 <= g < members.len() && 0 <= i < members[g]@.len() ==> root_id(
        cs,
        cs[members[g]@[i] as int].id,
    ) == keys[g]@
    &&& forall|g1: int, g2: int| 0 <= g1 < g2 < keys.len() ==> keys[g1]@ != keys[g2]@
    &&& forall|x: int| 0 <= x < k ==> is_member(members, x)
    &&& forall|g: int| 0 <= g < members.len() ==> members[g]@.len() == count_rooted(cs, keys[g]@, k)
}

fn group_by_root(roots: &Vec<Vec<char>>, Ghost(cs): Ghost<Seq<CommentView>>) -> (r: Groups)
    requires
        roots@.len() == cs.len(),
        forall|x: int| 0 <= x < cs.len() ==> roots@[x]@ == root_id(cs, cs[x].id),
    ensures
        groups_wf(cs, r.keys@, r.members@, cs.len() as int),
{
    let mut keys: Vec<Vec<char>> = Vec::new();
    let mut members: Vec<Vec<usize>> = Vec::new();
    let mut k: usize = 0;
    while k < roots.len()
        invariant
            k <= roots@.len(),
            roots@.len() == cs.len(),
            forall|x: int| 0 <= x < cs.len() ==> roots@[x]@ == root_id(cs, cs[x].id),
            groups_wf(cs, keys@, members@, k as int),
        decreases roots@.len() - k,
    {
        let mut g: usize = 0;
        while g < keys.len() && !chars_eq(keys[g].as_slice(), roots[k].as_slice())
            invariant
                g <= keys@.len(),
                keys@.len() == members@.len(),
                k < roots@.len(),
                forall|h: int| 0 <= h < g ==> keys@[h]@ != roots@[k as int]@,
            decreases keys@.len() - g,
        {
            g = g + 1;
        }
        let ghost old_keys = keys@;
        let ghost old_members = members@;
        let ghost key = roots@[k as int]@;
        if g < keys.len() {
            let mut list = members.remove(g);
            list.push(k);
            members.insert(g, list);
            proof {
                assert(members@ =~= old_members.update(g as int, members@[g as int]));
                assert(members@[g as int]@ == old_members[g as int]@.push(k));
                assert forall|h: int| 0 <= h < members@.len() implies members@[h]@.len() == count_rooted(cs, keys@[h]@, k + 1) by {
                    if h != g {
                        assert(keys@[h]@ != key);
                    }
                }
                assert forall|x: int| 0 <= x < k + 1 implies is_member(members@, x) by {
                    if x == k {
                        assert(members@[g as int]@[members@[g as int]@.len() - 1] == x);
                    } else {
                        assert(is_member(old_members, x));
                        let (g2, i) = choose|g2: int, i: int| 0 <= g2 < old_members.len() && 0 <= i
                            < old_members[g2]@.len() && #[trigger] old_members[g2]@[i] == x;
                        if g2 == g {
                            assert(members@[g2]@[i] == x);
                        } else {
                            assert(members@[g2] == old_members[g2]);
                        }
                    }
                }
                assert forall|g1: int, i: int| 0 <= g1 < members@.len() && 0 <= i < members@[g1]@.len() implies root_id(
                    cs, cs[members@[g1]@[i] as int].id) == keys@[g1]@ by {
                    if g1 != g {
                        assert(members@[g1] == old_members[g1]);
                    } else if i < old_members[g1]@.len() {
                        assert(members@[g1]@[i] == old_members[g1]@[i]);
                    }
                }
                assert forall|g1: int, i: int| 0 <= g1 < members@.len() && 0 <= i < members@[g1]@.len() implies (
                    #[trigger] members@[g1]@[i]) < k + 1 by {
                    if g1 != g {
                        assert(members@[g1] == old_members[g1]);
                    } else if i < old_members[g1]@.len() {
                        assert(members@[g1]@[i] == old_members[g1]@[i]);
                    }
                }
            }
        } else {
            let mut list: Vec<usize> = Vec::new();
            list.push(k);
            keys.push(copy_chars(roots[k].as_slice()));
            members.push(list);
            proof {
                assert forall|x: int| 0 <= x < k implies root_id(cs, cs[x].id) != key by {
                    assert(is_member(old_members, x));
                    let (g2, i) = choose|g2: int, i: int| 0 <= g2 < old_members.len() && 0 <= i
                        < old_members[g2]@.len() && #[trigger] old_members[g2]@[i] == x;
                    assert(root_id(cs, cs[old_members[g2]@[i] as int].id) == old_keys[g2]@);
                }
                lemma_count_rooted_zero(cs, key, k as int);
                assert forall|h: int| 0 <= h < members@.len() implies members@[h]@.len() == count_rooted(cs, keys@[h]@, k + 1) by {
                    if h < old_members.len() {
                        assert(keys@[h]@ != key);
                        assert(members@[h] == old_members[h]);
                    }
                }
                assert forall|x: int| 0 <= x < k + 1 implies is_member(members@, x) by {
                    if x == k {
                        assert(members@[old_members.len() as int]@[0] == x);
                    } else {
                        assert(is_member(old_members, x));
                        let (g2, i) = choose|g2: int, i: int| 0 <= g2 < old_members.len() && 0 <= i
                            < old_members[g2]@.len() && #[trigger] old_members[g2]@[i] == x;
                        assert(members@[g2] == old_members[g2]);
                    }
                }
                assert forall|g1: int, i: int| 0 <= g1 < members@.len() && 0 <= i < members@[g1]@.len() implies (
                    #[trigger] members@[g1]@[i]) < k + 1 by {
                    if g1 < old_members.len() {
                        assert(members@[g1] == old_members[g1]);
                    }
                }
                assert forall|g1: int, i: int| 0 <= g1 < members@.len() && 0 <= i < members@[g1]@.len() implies root_id(
                    cs, cs[members@[g1]@[i] as int].id) == keys@[g1]@ by {
                    if g1 < old_members.len() {
                        assert(members@[g1] == old_members[g1]);
                    }
                }
            }
        }
        k = k + 1;
    }
    Groups { keys, members }
}


// --- ordering ---------------------------------------------------------------

/// Whether comment `a` may come before comment `b` in a thread: by `updated`,
/// then by id.
pub open spec fn comment_le(a: CommentView, b: CommentView) -> bool {
    lex_lt(a.updated, b.updated) || (a.updated == b.updated && (lex_lt(a.id, b.id) || a.id == b.id))
}

/// Whether thread `a` may come before thread `b`: by line, then by the opening
/// comment's `updated` and id.
pub open spec fn thread_le(a: ThreadView, b: ThreadView) -> bool {
    opt_line_lt(spec_root(a).line, spec_root(b).line) || (spec_root(a).line == spec_root(b).line
        && comment_le(spec_root(a), spec_root(b)))
}

/// The sort key of a comment at `position`: `updated`, then id.
fn comment_key(c: &Comment, line: Option<u32>, position: usize) -> (k: SortKey)
    ensures
        k@ == (KeyView { line, first: c@.updated, second: c@.id, position: position as int }),
{
    SortKey { line, first: chars_of(c.updated.as_str()), second: chars_of(c.id.as_str()), position }
}

/// The members of one group, reordered oldest first.
fn sort_group(cs: &Vec<Comment>, members: &Vec<usize>) -> (r: Vec<usize>)
    requires
        forall|i: int| 0 <= i < members@.len() ==> members@[i] < cs@.len(),
    ensures
        r@.len() == members@.len(),
        forall|j: int| 0 <= j < r@.len() ==> members@.contains(#[trigger] r@[j]),
        forall|i: int| 0 <= i < members@.len() ==> r@.contains(#[trigger] members@[i]),
        forall|j1: int, j2: int| 0 <= j1 < j2 < r@.len() ==> comment_le(cs@[r@[j1] as int]@, cs@[r@[j2] as int]@),
{
    let mut keys: Vec<SortKey> = Vec::new();
    let mut i: usize = 0;
    while i < members.len()
        invariant
            i <= members@.len(),
            forall|i: int| 0 <= i < members@.len() ==> members@[i] < cs@.len(),
            keys@.len() == i,
            forall|j: int| 0 <= j < i ==> keys@[j]@ == (KeyView {
                line: None,
                first: cs@[members@[j] as int]@.updated,
                second: cs@[members@[j] as int]@.id,
                position: j,
            }),
        decreases members@.len() - i,
    {
        keys.push(comment_key(&cs[members[i]], None, i));
        i = i + 1;
    }
    let order = sort_keys(&keys);
    let ghost kv = keys@.map_values(|k: SortKey| k@);
    let mut r: Vec<usize> = Vec::new();
    let mut j: usize = 0;
    while j < order.len()
        invariant
            j <= order@.len(),
            order@.len() == members@.len(),
            keys@.len() == members@.len(),
            is_permutation(order@, members@.len() as int),
            r@.len() == j,
            forall|q: int| 0 <= q < j ==> r@[q] == members@[order@[q] as int],
        decreases order@.len() - j,
    {
        r.push(members[order[j]]);
        j = j + 1;
    }
    proof {
        assert forall|j: int| 0 <= j < r@.len() implies members@.contains(#[trigger] r@[j]) by {
            let i = order@[j] as int;
            assert(0 <= i < members@.len());
            assert(members@[i] == r@[j]);
        }
        assert forall|i: int| 0 <= i < members@.len() implies r@.contains(#[trigger] members@[i]) by {
            assert(order@.contains(i as usize));
            let q = choose|q: int| 0 <= q < order@.len() && order@[q] == i as usize;
            assert(r@[q] == members@[order@[q] as int]);
            assert(r@[q] == members@[i]);
        }
        assert forall|j1: int, j2: int| 0 <= j1 < j2 < r@.len() implies comment_le(cs@[r@[j1] as int]@, cs@[r@[j2] as int]@) by {
            assert(key_lt(kv[order@[j1] as int], kv[order@[j2] as int]));
        }
    }
    r
}


// --- assembly ---------------------------------------------------------------

/// Whether comment `c` appears in one of `ts`.
pub open spec fn appears(ts: Seq<ThreadView>, c: CommentView) -> bool {
    exists|t: int, i: int| 0 <= t < ts.len() && 0 <= i < ts[t].comments.len() && #[trigger] ts[t].comments[i] == c
}

/// The root id of a thread, by its opening comment.
pub open spec fn thread_root_id(cs: Seq<CommentView>, t: ThreadView) -> Seq<char> {
    root_id(cs, spec_root(t).id)
}

/// What `assemble(path, cs)` returns: the threads of `cs`, one per root, each
/// oldest first, ordered by line and then by opening comment.
pub open spec fn assembled(path: Seq<char>, cs: Seq<CommentView>, ts: Seq<ThreadView>) -> bool {
    // every thread hangs off the classified path and holds at least one comment
    &&& forall|t: int| 0 <= t < ts.len() ==> (#[trigger] ts[t]).anchor == spec_classify(path) && ts[t].comments.len() > 0
    // a thread holds comments of one root, and no two threads share a root
    &&& forall|t: int, i: int| 0 <= t < ts.len() && 0 <= i < ts[t].comments.len() ==> root_id(cs, (
        #[trigger] ts[t].comments[i]).id) == thread_root_id(cs, ts[t])
    &&& forall|t1: int, t2: int| 0 <= t1 < t2 < ts.len() ==> thread_root_id(cs, #[trigger] ts[t1]) != thread_root_id(cs, #[trigger] ts[t2])
    // a thread holds exactly as many comments as carry its root, each an input comment
    &&& forall|t: int| 0 <= t < ts.len() ==> (#[trigger] ts[t]).comments.len() == count_rooted(cs, thread_root_id(cs, ts[t]), cs.len() as int)
    &&& forall|t: int, i: int| 0 <= t < ts.len() && 0 <= i < ts[t].comments.len() ==> cs.contains(#[trigger] ts[t].comments[i])
    // and every input comment is in some thread
    &&& forall|k: int| 0 <= k < cs.len() ==> appears(ts, #[trigger] cs[k])
    // oldest first within a thread
    &&& forall|t: int, i: int, j: int| 0 <= t < ts.len() && 0 <= i < j < ts[t].comments.len() ==> comment_le(
        #[trigger] ts[t].comments[i], #[trigger] ts[t].comments[j])
    // threads by line, then opening comment
    &&& forall|t1: int, t2: int| 0 <= t1 < t2 < ts.len() ==> thread_le(#[trigger] ts[t1], #[trigger] ts[t2])
}

/// The order assembly leaves comments and threads in. Within a thread the
/// comments run oldest first — by `updated`, and only comments updated at
/// the same moment by id — so the last is the most recently updated one,
/// whose flag says whether the thread is settled and which a reply answers.
/// Threads run by the line of their opening comment, numerically, a thread
/// without a line first.
pub proof fn lemma_assembly_order(path: Seq<char>, cs: Seq<CommentView>, ts: Seq<ThreadView>)
    requires
        assembled(path, cs, ts),
    ensures
        forall|t: int, i: int, j: int| 0 <= t < ts.len() && 0 <= i < j < ts[t].comments.len()
            ==> !lex_lt((#[trigger] ts[t].comments[j]).updated, (#[trigger] ts[t].comments[i]).updated),
        forall|t: int, i: int, j: int| 0 <= t < ts.len() && 0 <= i < j < ts[t].comments.len()
            && (#[trigger] ts[t].comments[i]).updated == (#[trigger] ts[t].comments[j]).updated
            ==> !lex_lt(ts[t].comments[j].id, ts[t].comments[i].id),
        forall|t: int, k: int| 0 <= t < ts.len() && 0 <= k < ts[t].comments.len()
            ==> !lex_lt(spec_last(ts[t]).updated, (#[trigger] ts[t].comments[k]).updated),
        forall|t1: int, t2: int| 0 <= t1 < t2 < ts.len() ==> match ((#[trigger] ts[t1]).comments[0].line, (#[trigger] ts[t2]).comments[0].line) {
            (Some(x), Some(y)) => x <= y,
            (Some(_), None) => false,
            _ => true,
        },
{
    assert forall|t: int, i: int, j: int| 0 <= t < ts.len() && 0 <= i < j < ts[t].comments.len()
        implies !lex_lt((#[trigger] ts[t].comments[j]).updated, (#[trigger] ts[t].comments[i]).updated)
        && (ts[t].comments[i].updated == ts[t].comments[j].updated ==> !lex_lt(ts[t].comments[j].id, ts[t].comments[i].id)) by {
        let a = ts[t].comments[i];
        let b = ts[t].comments[j];
        assert(comment_le(a, b));
        if lex_lt(a.updated, b.updated) {
            lemma_lex_asymmetric(a.updated, b.updated);
        } else {
            lemma_lex_irreflexive(a.updated);
            if lex_lt(a.id, b.id) {
                lemma_lex_asymmetric(a.id, b.id);
            } else {
                lemma_lex_irreflexive(a.id);
            }
        }
    }
    assert forall|t: int, k: int| 0 <= t < ts.len() && 0 <= k < ts[t].comments.len()
        implies !lex_lt(spec_last(ts[t]).updated, (#[trigger] ts[t].comments[k]).updated) by {
        let n = ts[t].comments.len();
        if k < n - 1 {
            assert(!lex_lt(ts[t].comments[n - 1].updated, ts[t].comments[k].updated));
        } else {
            lemma_lex_irreflexive(ts[t].comments[k].updated);
        }
    }
    assert forall|t1: int, t2: int| 0 <= t1 < t2 < ts.len() implies match ((#[trigger] ts[t1]).comments[0].line, (#[trigger] ts[t2]).comments[0].line) {
            (Some(x), Some(y)) => x <= y,
            (Some(_), None) => false,
            _ => true,
        } by {
        assert(thread_le(ts[t1], ts[t2]));
    }
}

/// A thread holding the comments at `idxs`, in that order.
fn thread_of(anchor: &CommentAnchor, cs: &Vec<Comment>, idxs: &Vec<usize>) -> (t: Thread)
    requires
        forall|j: int| 0 <= j < idxs@.len() ==> idxs@[j] < cs@.len(),
    ensures
        t@.anchor == anchor@,
        t@.comments.len() == idxs@.len(),
        forall|j: int| 0 <= j < idxs@.len() ==> t@.comments[j] == cs@[idxs@[j] as int]@,
{
    let mut comments: Vec<Comment> = Vec::new();
    let mut j: usize = 0;
    while j < idxs.len()
        invariant
            j <= idxs@.len(),
            forall|j: int| 0 <= j < idxs@.len() ==> idxs@[j] < cs@.len(),
            comments@.len() == j,
            forall|q: int| 0 <= q < j ==> comments@[q]@ == cs@[idxs@[q] as int]@,
        decreases idxs@.len() - j,
    {
        comments.push(cs[idxs[j]].duplicate());
        j = j + 1;
    }
    Thread { anchor: anchor.duplicate(), comments }
}

/// Assemble a file's flat comment list into threads.
///
/// `path` is the Gerrit comment path, classified once into a [`CommentAnchor`]
/// so no pseudo-path escapes as a filesystem path.
pub fn assemble(path: &str, comments: Vec<Comment>) -> (r: Vec<Thread>)
    ensures
        assembled(path@, comment_views(comments@), thread_views(r@)),
{
    let ghost csv = comment_views(comments@);
    let table = IdTable::new(&comments);
    let mut roots: Vec<Vec<char>> = Vec::new();
    let mut k: usize = 0;
    while k < comments.len()
        invariant
            k <= comments@.len(),
            csv == comment_views(comments@),
            table.describes(csv),
            roots@.len() == k,
            forall|x: int| 0 <= x < k ==> roots@[x]@ == root_id(csv, csv[x].id),
        decreases comments@.len() - k,
    {
        roots.push(table.root_of(table.ids[k].as_slice(), Ghost(csv)));
        k = k + 1;
    }
    let groups = group_by_root(&roots, Ghost(csv));
    let ghost members = groups.members@;
    let ghost gkeys_v = groups.keys@;

    // each group oldest first
    let mut sorted: Vec<Vec<usize>> = Vec::new();
    let mut g: usize = 0;
    while g < groups.members.len()
        invariant
            g <= members.len(),
            members == groups.members@,
            csv == comment_views(comments@),
            groups_wf(csv, gkeys_v, members, csv.len() as int),
            sorted@.len() == g,
            forall|h: int| 0 <= h < g ==> (#[trigger] sorted@[h])@.len() == members[h]@.len(),
            forall|h: int, j: int| 0 <= h < g && 0 <= j < sorted@[h]@.len() ==> members[h]@.contains(#[trigger] sorted@[h]@[j]),
            forall|h: int, i: int| 0 <= h < g && 0 <= i < members[h]@.len() ==> sorted@[h]@.contains(#[trigger] members[h]@[i]),
            forall|h: int, j1: int, j2: int| 0 <= h < g && 0 <= j1 < j2 < sorted@[h]@.len() ==> comment_le(
                csv[#[trigger] sorted@[h]@[j1] as int], csv[#[trigger] sorted@[h]@[j2] as int]),
        decreases members.len() - g,
    {
        proof {
            assert forall|i: int| 0 <= i < members[g as int]@.len() implies members[g as int]@[i] < comments@.len() by {
                assert(members[g as int]@[i] < csv.len());
            }
        }
        let s = sort_group(&comments, &groups.members[g]);
        sorted.push(s);
        g = g + 1;
    }

    // groups by line, then opening comment
    let mut gkeys: Vec<SortKey> = Vec::new();
    let mut h: usize = 0;
    while h < sorted.len()
        invariant
            h <= sorted@.len(),
            sorted@.len() == members.len(),
            csv == comment_views(comments@),
            groups_wf(csv, gkeys_v, members, csv.len() as int),
            forall|h: int| 0 <= h < sorted@.len() ==> (#[trigger] sorted@[h])@.len() == members[h]@.len(),
            forall|h: int, j: int| 0 <= h < sorted@.len() && 0 <= j < sorted@[h]@.len() ==> members[h]@.contains(#[trigger] sorted@[h]@[j]),
            gkeys@.len() == h,
            forall|q: int| 0 <= q < h ==> (#[trigger] gkeys@[q])@ == (KeyView {
                line: csv[sorted@[q]@[0] as int].line,
                first: csv[sorted@[q]@[0] as int].updated,
                second: csv[sorted@[q]@[0] as int].id,
                position: q,
            }),
        decreases sorted@.len() - h,
    {
        proof {
            assert(sorted@[h as int]@.len() > 0);
            assert(members[h as int]@.contains(sorted@[h as int]@[0]));
        }
        let first = sorted[h][0];
        gkeys.push(comment_key(&comments[first], comments[first].line, h));
        h = h + 1;
    }
    let gorder = sort_keys(&gkeys);
    let ghost gkv = gkeys@.map_values(|k: SortKey| k@);

    let anchor = CommentAnchor::classify(path);
    let mut threads: Vec<Thread> = Vec::new();
    let mut t: usize = 0;
    while t < gorder.len()
        invariant
            t <= gorder@.len(),
            gorder@.len() == sorted@.len(),
            sorted@.len() == members.len(),
            is_permutation(gorder@, sorted@.len() as int),
            anchor@ == spec_classify(path@),
            csv == comment_views(comments@),
            groups_wf(csv, gkeys_v, members, csv.len() as int),
            forall|h: int| 0 <= h < sorted@.len() ==> (#[trigger] sorted@[h])@.len() == members[h]@.len(),
            forall|h: int, j: int| 0 <= h < sorted@.len() && 0 <= j < sorted@[h]@.len() ==> members[h]@.contains(#[trigger] sorted@[h]@[j]),
            threads@.len() == t,
            forall|q: int| 0 <= q < t ==> (#[trigger] threads@[q])@.anchor == anchor@,
            forall|q: int| 0 <= q < t ==> (#[trigger] threads@[q])@.comments.len() == sorted@[gorder@[q] as int]@.len(),
            forall|q: int, j: int| 0 <= q < t && 0 <= j < sorted@[gorder@[q] as int]@.len() ==> #[trigger] threads@[q]@.comments[j] == csv[sorted@[gorder@[q] as int]@[j] as int],
        decreases gorder@.len() - t,
    {
        let g = gorder[t];
        proof {
            assert forall|j: int| 0 <= j < sorted@[g as int]@.len() implies sorted@[g as int]@[j] < comments@.len() by {
                assert(members[g as int]@.contains(sorted@[g as int]@[j]));
                let i = choose|i: int| 0 <= i < members[g as int]@.len() && members[g as int]@[i] == sorted@[g as int]@[j];
                assert(members[g as int]@[i] < csv.len());
            }
        }
        let th = thread_of(&anchor, &comments, &sorted[g]);
        threads.push(th);
        t = t + 1;
    }
    proof {
        assert(sorted@.len() == sorted.len());
        lemma_assembled(path@, csv, threads@, members, gkeys_v, sorted@, gorder@, gkv);
    }
    threads
}


proof fn lemma_assembled(
    path: Seq<char>,
    csv: Seq<CommentView>,
    threads: Seq<Thread>,
    members: Seq<Vec<usize>>,
    keys: Seq<Vec<char>>,
    sorted: Seq<Vec<usize>>,
    gorder: Seq<usize>,
    gkv: Seq<KeyView>,
)
    requires
        groups_wf(csv, keys, members, csv.len() as int),
        sorted.len() == members.len(),
        sorted.len() <= usize::MAX,
        forall|h: int| 0 <= h < sorted.len() ==> (#[trigger] sorted[h])@.len() == members[h]@.len(),
        forall|h: int, j: int| 0 <= h < sorted.len() && 0 <= j < sorted[h]@.len() ==> members[h]@.contains(#[trigger] sorted[h]@[j]),
        forall|h: int, i: int| 0 <= h < sorted.len() && 0 <= i < members[h]@.len() ==> sorted[h]@.contains(#[trigger] members[h]@[i]),
        forall|h: int, j1: int, j2: int| 0 <= h < sorted.len() && 0 <= j1 < j2 < sorted[h]@.len() ==> comment_le(
            csv[#[trigger] sorted[h]@[j1] as int], csv[#[trigger] sorted[h]@[j2] as int]),
        is_permutation(gorder, sorted.len() as int),
        forall|x: usize| x < sorted.len() ==> gorder.contains(x),
        sorted_by_key(gkv, gorder),
        gkv.len() == sorted.len(),
        forall|q: int| 0 <= q < gkv.len() ==> (#[trigger] gkv[q]) == (KeyView {
            line: csv[sorted[q]@[0] as int].line,
            first: csv[sorted[q]@[0] as int].updated,
            second: csv[sorted[q]@[0] as int].id,
            position: q,
        }),
        threads.len() == gorder.len(),
        forall|q: int| 0 <= q < threads.len() ==> (#[trigger] threads[q])@.anchor == spec_classify(path),
        forall|q: int| 0 <= q < threads.len() ==> (#[trigger] threads[q])@.comments.len() == sorted[gorder[q] as int]@.len(),
        forall|q: int, j: int| 0 <= q < threads.len() && 0 <= j < sorted[gorder[q] as int]@.len() ==> #[trigger] threads[q]@.comments[j] == csv[sorted[gorder[q] as int]@[j] as int],
    ensures
        assembled(path, csv, thread_views(threads)),
{
    let ts = thread_views(threads);
    let n = csv.len() as int;
    // the root of every comment in a group is the group's key
    assert forall|h: int, j: int| 0 <= h < sorted.len() && 0 <= j < sorted[h]@.len() implies
        (#[trigger] sorted[h]@[j]) < n && root_id(csv, csv[sorted[h]@[j] as int].id) == keys[h]@ by {
        assert(members[h]@.contains(sorted[h]@[j]));
        let i = choose|i: int| 0 <= i < members[h]@.len() && members[h]@[i] == sorted[h]@[j];
        assert(members[h]@[i] < n);
    }
    assert forall|t: int| 0 <= t < ts.len() implies (#[trigger] ts[t]).anchor == spec_classify(path) && ts[t].comments.len() > 0 by {
        assert(ts[t] == threads[t]@);
        let g = gorder[t] as int;
        assert(members[g]@.len() > 0);
    }
    assert forall|t: int| 0 <= t < ts.len() implies thread_root_id(csv, #[trigger] ts[t]) == keys[gorder[t] as int]@ by {
        assert(ts[t] == threads[t]@);
        let g = gorder[t] as int;
        assert(members[g]@.len() > 0);
        assert(ts[t].comments[0] == csv[sorted[g]@[0] as int]);
        assert(root_id(csv, csv[sorted[g]@[0] as int].id) == keys[g]@);
    }
    assert forall|t: int, i: int| 0 <= t < ts.len() && 0 <= i < ts[t].comments.len() implies root_id(csv, (
        #[trigger] ts[t].comments[i]).id) == thread_root_id(csv, ts[t]) by {
        assert(ts[t] == threads[t]@);
        let g = gorder[t] as int;
        assert(ts[t].comments[i] == csv[sorted[g]@[i] as int]);
        assert(root_id(csv, csv[sorted[g]@[i] as int].id) == keys[g]@);
        assert(thread_root_id(csv, ts[t]) == keys[gorder[t] as int]@);
    }
    assert forall|t1: int, t2: int| 0 <= t1 < t2 < ts.len() implies thread_root_id(csv, #[trigger] ts[t1]) != thread_root_id(csv, #[trigger] ts[t2]) by {
        assert(thread_root_id(csv, ts[t1]) == keys[gorder[t1] as int]@);
        assert(thread_root_id(csv, ts[t2]) == keys[gorder[t2] as int]@);
        let g1 = gorder[t1] as int;
        let g2 = gorder[t2] as int;
        assert(g1 != g2);
        if g1 < g2 {
        } else {
        }
    }
    assert forall|t: int| 0 <= t < ts.len() implies (#[trigger] ts[t]).comments.len() == count_rooted(csv, thread_root_id(csv, ts[t]), n) by {
        assert(ts[t] == threads[t]@);
        assert(thread_root_id(csv, ts[t]) == keys[gorder[t] as int]@);
    }
    assert forall|t: int, i: int| 0 <= t < ts.len() && 0 <= i < ts[t].comments.len() implies csv.contains(#[trigger] ts[t].comments[i]) by {
        assert(ts[t] == threads[t]@);
        let g = gorder[t] as int;
        assert(ts[t].comments[i] == csv[sorted[g]@[i] as int]);
        assert(sorted[g]@[i] < n);
    }
    assert forall|k: int| 0 <= k < n implies appears(ts, #[trigger] csv[k]) by {
        assert(is_member(members, k));
        let (g, i) = choose|g: int, i: int| 0 <= g < members.len() && 0 <= i < members[g]@.len() && #[trigger] members[g]@[i] == k;
        assert(sorted[g]@.contains(members[g]@[i]));
        let j = choose|j: int| 0 <= j < sorted[g]@.len() && sorted[g]@[j] == members[g]@[i];
        assert(0 <= g < sorted.len());
        let gu = g as usize;
        assert(gorder.contains(gu));
        let t = choose|t: int| 0 <= t < gorder.len() && gorder[t] == gu;
        assert(gorder[t] as int == g);
        assert(ts[t] == threads[t]@);
        assert(threads[t]@.comments[j] == csv[sorted[gorder[t] as int]@[j] as int]);
        assert(ts[t].comments[j] == csv[k]);
    }
    assert forall|t: int, i: int, j: int| 0 <= t < ts.len() && 0 <= i < j < ts[t].comments.len() implies comment_le(
        #[trigger] ts[t].comments[i], #[trigger] ts[t].comments[j]) by {
        assert(ts[t] == threads[t]@);
        let g = gorder[t] as int;
        assert(ts[t].comments[i] == csv[sorted[g]@[i] as int]);
        assert(ts[t].comments[j] == csv[sorted[g]@[j] as int]);
    }
    assert forall|t1: int, t2: int| 0 <= t1 < t2 < ts.len() implies thread_le(#[trigger] ts[t1], #[trigger] ts[t2]) by {
        assert(ts[t1] == threads[t1]@);
        assert(ts[t2] == threads[t2]@);
        let g1 = gorder[t1] as int;
        let g2 = gorder[t2] as int;
        assert(key_lt(gkv[g1], gkv[g2]));
        assert(members[g1]@.len() > 0 && members[g2]@.len() > 0);
        assert(spec_root(ts[t1]) == csv[sorted[g1]@[0] as int]);
        assert(spec_root(ts[t2]) == csv[sorted[g2]@[0] as int]);
    }
}


// --- selection --------------------------------------------------------------

/// The threads of one change, plus what was left out of them.
#[derive(Debug, Clone, Default, PartialEq, Eq)]
pub struct ThreadSet {
    /// Threads to triage.
    pub threads: Vec<Thread>,
    /// Unresolved threads dropped because they are anchored on an earlier
    /// patchset. Carried as a count so the omission is reportable — a shorter
    /// queue must never be indistinguishable from a change with fewer comments.
    pub skipped_older_patchsets: usize,
}

/// Whether a thread is triaged on a change at `current`: unresolved, and
/// opened on the current patchset or later.
pub open spec fn is_triagable(t: ThreadView, current: u32) -> bool {
    spec_is_unresolved(t) && spec_root(t).patch_set >= current
}

/// Whether a thread is an omission worth reporting: unresolved, but opened on
/// an earlier patchset.
pub open spec fn is_skipped_older(t: ThreadView, current: u32) -> bool {
    spec_is_unresolved(t) && spec_root(t).patch_set < current
}

/// The triagable threads of `ts`, in order.
pub open spec fn triagable(ts: Seq<ThreadView>, current: u32) -> Seq<ThreadView>
    decreases ts.len(),
{
    if ts.len() == 0 {
        seq![]
    } else if is_triagable(ts.last(), current) {
        triagable(ts.drop_last(), current).push(ts.last())
    } else {
        triagable(ts.drop_last(), current)
    }
}

/// Selection keeps only threads it was given: every selected thread is one
/// of the input's, so what holds of every input thread holds of the selection.
pub proof fn lemma_selected_come_from_input(ts: Seq<ThreadView>, current: u32)
    ensures
        forall|i: int| 0 <= i < triagable(ts, current).len() ==> ts.contains(#[trigger] triagable(ts, current)[i]),
    decreases ts.len(),
{
    if ts.len() > 0 {
        let prev = ts.drop_last();
        lemma_selected_come_from_input(prev, current);
        let sel = triagable(ts, current);
        let psel = triagable(prev, current);
        assert forall|i: int| 0 <= i < sel.len() implies ts.contains(#[trigger] sel[i]) by {
            if i < psel.len() {
                assert(sel[i] == psel[i]);
                let w = choose|w: int| 0 <= w < prev.len() && prev[w] == psel[i];
                assert(ts[w] == prev[w]);
            } else {
                assert(sel[i] == ts.last());
                assert(ts[ts.len() - 1] == ts.last());
            }
        }
    }
}

/// How many of `ts` are unresolved threads on earlier patchsets.
pub open spec fn count_skipped(ts: Seq<ThreadView>, current: u32) -> nat
    decreases ts.len(),
{
    if ts.len() == 0 {
        0
    } else {
        count_skipped(ts.drop_last(), current) + if is_skipped_older(ts.last(), current) {
            1nat
        } else {
            0nat
        }
    }
}

/// How many of `ts` are already resolved.
pub open spec fn count_resolved(ts: Seq<ThreadView>) -> nat
    decreases ts.len(),
{
    if ts.len() == 0 {
        0
    } else {
        count_resolved(ts.drop_last()) + if !spec_is_unresolved(ts.last()) {
            1nat
        } else {
            0nat
        }
    }
}

/// Keep the threads that should be triaged, counting what patchset age drops.
///
/// Retains unresolved threads anchored on `current_patch_set` or later. Robot
/// threads and the user's own threads are deliberately kept.
pub fn select_triagable(threads: Vec<Thread>, current_patch_set: u32) -> (r: ThreadSet)
    requires
        forall|t: int| 0 <= t < threads@.len() ==> (#[trigger] threads@[t])@.comments.len() > 0,
    ensures
        thread_views(r.threads@) == triagable(thread_views(threads@), current_patch_set),
        r.skipped_older_patchsets == count_skipped(thread_views(threads@), current_patch_set),
{
    let ghost tv = thread_views(threads@);
    let mut kept: Vec<Thread> = Vec::new();
    let mut skipped: usize = 0;
    // Walk the threads in order, moving each out as it is judged.
    let mut threads = reversed(threads);
    let mut i: usize = 0;
    let n = threads.len();
    while i < n
        invariant
            n == tv.len(),
            i <= n,
            threads@.len() == n - i,
            forall|j: int| 0 <= j < n - i ==> #[trigger] threads@[j]@ == tv[n - 1 - j],
            forall|j: int| 0 <= j < n - i ==> #[trigger] threads@[j]@.comments.len() > 0,
            forall|t: int| 0 <= t < tv.len() ==> (#[trigger] tv[t]).comments.len() > 0,
            thread_views(kept@) == triagable(tv.subrange(0, i as int), current_patch_set),
            skipped == count_skipped(tv.subrange(0, i as int), current_patch_set),
            skipped <= i,
        decreases n - i,
    {
        let t = threads.pop().unwrap();
        proof {
            assert(t@ == tv[i as int]);
            assert(tv.subrange(0, i + 1).drop_last() =~= tv.subrange(0, i as int));
            assert(tv.subrange(0, i + 1).last() == tv[i as int]);
        }
        if t.is_unresolved() {
            if t.patch_set() < current_patch_set {
                skipped = skipped + 1;
            } else {
                let ghost before = thread_views(kept@);
                kept.push(t);
                proof {
                    assert(thread_views(kept@) =~= before.push(tv[i as int]));
                }
            }
        }
        i = i + 1;
    }
    proof {
        assert(tv.subrange(0, n as int) =~= tv);
    }
    ThreadSet { threads: kept, skipped_older_patchsets: skipped }
}

/// The elements of `v` in reverse order.
pub fn reversed<T>(v: Vec<T>) -> (r: Vec<T>)
    ensures
        r@.len() == v@.len(),
        forall|j: int| 0 <= j < v@.len() ==> #[trigger] r@[j] == v@[v@.len() - 1 - j],
{
    let ghost orig = v@;
    let mut v = v;
    let mut r: Vec<T> = Vec::new();
    while v.len() > 0
        invariant
            v@ == orig.subrange(0, v@.len() as int),
            r@.len() + v@.len() == orig.len(),
            forall|j: int| 0 <= j < r@.len() ==> #[trigger] r@[j] == orig[orig.len() - 1 - j],
        decreases v@.len(),
    {
        let x = v.pop().unwrap();
        r.push(x);
    }
    r
}

/// Every thread is exactly one of: triaged, skipped for its patchset, or
/// already resolved.
pub proof fn lemma_selection_partitions(ts: Seq<ThreadView>, current: u32)
    ensures
        triagable(ts, current).len() + count_skipped(ts, current) + count_resolved(ts) == ts.len(),
    decreases ts.len(),
{
    if ts.len() > 0 {
        lemma_selection_partitions(ts.drop_last(), current);
    }
}

/// Every selected thread is unresolved and on the current patchset or later.
pub proof fn lemma_selected_are_triagable(ts: Seq<ThreadView>, current: u32)
    ensures
        forall|i: int| 0 <= i < triagable(ts, current).len() ==> is_triagable(#[trigger] triagable(ts, current)[i], current),
    decreases ts.len(),
{
    if ts.len() > 0 {
        lemma_selected_are_triagable(ts.drop_last(), current);
        let rest = triagable(ts.drop_last(), current);
        if is_triagable(ts.last(), current) {
            assert forall|i: int| 0 <= i < triagable(ts, current).len() implies is_triagable(#[trigger] triagable(ts, current)[i], current) by {
                if i < rest.len() {
                    assert(triagable(ts, current)[i] == rest[i]);
                }
            }
        }
    }
}

} // verus!
