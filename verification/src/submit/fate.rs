//! What each triaged thread turns into on Gerrit.
//!
//! Resolution and reply are one operation, a review comment, differing only
//! in `unresolved`. All of them go out as one batched post, issued only after
//! a successful push.

use vstd::prelude::*;
use crate::gerrit::api::{ReviewComment, ReviewCommentView, ReviewInput};
use crate::gerrit::anchor::spec_gerrit_path;
use crate::gerrit::comment::opt_view;
use crate::gerrit::thread::{Thread, ThreadView, spec_last, spec_root, thread_wf};
use crate::text::{chars_of, chars_eq, copy_string};
use crate::gerrit::comment::copy_opt;

verus! {

/// What Gerrit is told about a thread.
#[derive(Debug, Clone, PartialEq, Eq)]
pub enum Fate {
    /// A fix was applied and confirmed: resolved.
    Accepted,
    /// Fixed in the user's own editor: resolved exactly like an accepted one.
    FixedByHand,
    /// Disagreed with. `reply` is the approved reply, or `None` when the draft
    /// was declined — which posts nothing.
    Rejected { reply: Option<String> },
    /// Deferred to the end of triage or never decided: no post at all.
    Skipped,
}

/// A fate as plain values.
pub enum FateView {
    Accepted,
    FixedByHand,
    Rejected { reply: Option<Seq<char>> },
    Skipped,
}

impl View for Fate {
    type V = FateView;

    open spec fn view(&self) -> FateView {
        match self {
            Fate::Accepted => FateView::Accepted,
            Fate::FixedByHand => FateView::FixedByHand,
            Fate::Rejected { reply } => FateView::Rejected { reply: opt_view(*reply) },
            Fate::Skipped => FateView::Skipped,
        }
    }
}

impl Fate {
    /// Whether this fate resolves the thread.
    pub fn resolves(&self) -> (r: bool)
        ensures
            r == (self@ is Accepted || self@ is FixedByHand),
    {
        match self {
            Fate::Accepted | Fate::FixedByHand => true,
            _ => false,
        }
    }

    /// A copy of this fate.
    pub fn duplicate(&self) -> (r: Fate)
        ensures
            r@ == self@,
    {
        match self {
            Fate::Accepted => Fate::Accepted,
            Fate::FixedByHand => Fate::FixedByHand,
            Fate::Rejected { reply } => Fate::Rejected { reply: copy_opt(reply) },
            Fate::Skipped => Fate::Skipped,
        }
    }
}

/// A thread with the fate triage gave it.
#[derive(Debug, Clone, PartialEq, Eq)]
pub struct TriagedThread {
    pub thread: Thread,
    pub fate: Fate,
}

/// A triaged thread as plain values.
pub struct TriagedView {
    pub thread: ThreadView,
    pub fate: FateView,
}

impl View for TriagedThread {
    type V = TriagedView;

    open spec fn view(&self) -> TriagedView {
        TriagedView { thread: self.thread@, fate: self.fate@ }
    }
}

pub open spec fn triaged_views(ts: Seq<TriagedThread>) -> Seq<TriagedView> {
    ts.map_values(|t: TriagedThread| t@)
}

/// The review comment a triaged thread posts, if any: resolved threads are
/// closed with `Done.`, a rejection posts its approved reply and stays
/// unresolved, and declined or skipped threads post nothing. The comment
/// replies to the thread's last comment and sits on its opening line.
pub open spec fn spec_review_comment(t: TriagedView) -> Option<ReviewCommentView> {
    let (message, unresolved, posts): (Seq<char>, bool, bool) = match t.fate {
        FateView::Accepted => ("Done."@, false, true),
        FateView::FixedByHand => ("Done."@, false, true),
        FateView::Rejected { reply } => match reply {
            Some(text) => (text, true, true),
            None => (Seq::empty(), true, false),
        },
        FateView::Skipped => (Seq::empty(), false, false),
    };
    if posts {
        Some(ReviewCommentView {
            path: spec_gerrit_path(t.thread.anchor),
            line: spec_root(t.thread).line,
            in_reply_to: spec_last(t.thread).id,
            message,
            unresolved,
        })
    } else {
        None
    }
}

/// The review comments of triaged threads, in order, the silent ones left out.
pub open spec fn spec_review_comments(ts: Seq<TriagedView>) -> Seq<ReviewCommentView>
    decreases ts.len(),
{
    if ts.len() == 0 {
        Seq::empty()
    } else {
        let rest = spec_review_comments(ts.drop_last());
        match spec_review_comment(ts.last()) {
            Some(c) => rest.push(c),
            None => rest,
        }
    }
}

/// The index of the group for `path`, if there is one.
pub open spec fn group_of(groups: Seq<(Seq<char>, Seq<ReviewCommentView>)>, path: Seq<char>) -> Option<int>
    decreases groups.len(),
{
    if groups.len() == 0 {
        None
    } else if groups.last().0 == path {
        match group_of(groups.drop_last(), path) {
            Some(i) => Some(i),
            None => Some(groups.len() - 1),
        }
    } else {
        group_of(groups.drop_last(), path)
    }
}

/// Comments grouped by path, the paths in the order first met.
pub open spec fn grouped(cs: Seq<ReviewCommentView>) -> Seq<(Seq<char>, Seq<ReviewCommentView>)>
    decreases cs.len(),
{
    if cs.len() == 0 {
        Seq::empty()
    } else {
        let groups = grouped(cs.drop_last());
        let c = cs.last();
        match group_of(groups, c.path) {
            Some(i) => groups.update(i, (groups[i].0, groups[i].1.push(c))),
            None => groups.push((c.path, seq![c])),
        }
    }
}

proof fn lemma_group_of(groups: Seq<(Seq<char>, Seq<ReviewCommentView>)>, path: Seq<char>)
    ensures
        match group_of(groups, path) {
            Some(i) => 0 <= i < groups.len() && groups[i].0 == path && forall|k: int| 0 <= k < i ==> (#[trigger] groups[k]).0 != path,
            None => forall|k: int| 0 <= k < groups.len() ==> (#[trigger] groups[k]).0 != path,
        },
    decreases groups.len(),
{
    if groups.len() > 0 {
        lemma_group_of(groups.drop_last(), path);
        assert forall|k: int| 0 <= k < groups.len() - 1 implies #[trigger] groups[k] == groups.drop_last()[k] by {}
    }
}

impl TriagedThread {
    /// The review comment this thread posts, if any.
    pub fn review_comment(&self) -> (r: Option<ReviewComment>)
        requires
            thread_wf(self.thread@),
        ensures
            match r {
                Some(c) => spec_review_comment(self@) == Some(c@),
                None => spec_review_comment(self@) is None,
            },
    {
        let (message, unresolved) = match &self.fate {
            Fate::Accepted | Fate::FixedByHand => ("Done.".to_owned(), false),
            Fate::Rejected { reply } => match reply {
                Some(text) => (copy_string(text), true),
                None => { return None; },
            },
            Fate::Skipped => { return None; },
        };
        Some(ReviewComment {
            path: self.thread.anchor.gerrit_path().to_owned(),
            line: self.thread.line(),
            in_reply_to: self.thread.reply_target().to_owned(),
            message,
            unresolved,
        })
    }
}

fn find_group(groups: &Vec<(String, Vec<ReviewComment>)>, path: &str) -> (r: Option<usize>)
    ensures
        match r {
            Some(i) => group_of(review_groups(groups@), path@) == Some(i as int),
            None => group_of(review_groups(groups@), path@) is None,
        },
{
    proof { lemma_group_of(review_groups(groups@), path@); }
    let p = chars_of(path);
    let mut i: usize = 0;
    while i < groups.len()
        invariant
            i <= groups@.len(),
            p@ == path@,
            forall|k: int| 0 <= k < i ==> (#[trigger] review_groups(groups@)[k]).0 != path@,
        decreases groups@.len() - i,
    {
        let key = chars_of(groups[i].0.as_str());
        if chars_eq(key.as_slice(), p.as_slice()) {
            proof {
                lemma_group_of(review_groups(groups@), path@);
                match group_of(review_groups(groups@), path@) {
                    Some(j) => {
                        if j > i { assert(review_groups(groups@)[i as int].0 == path@); }
                    },
                    None => { assert(review_groups(groups@)[i as int].0 == path@); },
                }
            }
            return Some(i);
        }
        i = i + 1;
    }
    proof {
        lemma_group_of(review_groups(groups@), path@);
        if let Some(j) = group_of(review_groups(groups@), path@) {
            assert(review_groups(groups@)[j].0 == path@);
        }
    }
    None
}

/// Grouped review comments as plain values.
pub open spec fn review_groups(g: Seq<(String, Vec<ReviewComment>)>) -> Seq<(Seq<char>, Seq<ReviewCommentView>)> {
    g.map_values(|e: (String, Vec<ReviewComment>)| (e.0@, e.1@.map_values(|c: ReviewComment| c@)))
}

fn copy_comments(v: &Vec<ReviewComment>) -> (r: Vec<ReviewComment>)
    ensures
        r@.map_values(|c: ReviewComment| c@) == v@.map_values(|c: ReviewComment| c@),
{
    let mut r: Vec<ReviewComment> = Vec::new();
    let mut j: usize = 0;
    while j < v.len()
        invariant
            j <= v@.len(),
            r@.len() == j,
            forall|q: int| 0 <= q < j ==> r@[q]@ == v@[q]@,
        decreases v@.len() - j,
    {
        r.push(v[j].duplicate());
        j = j + 1;
    }
    assert(r@.map_values(|c: ReviewComment| c@) =~= v@.map_values(|c: ReviewComment| c@));
    r
}

/// Build the single batched review from every triaged thread: one comment
/// per thread that posts one, grouped by path.
pub fn build_review(triaged: &[TriagedThread]) -> (r: ReviewInput)
    requires
        forall|i: int| 0 <= i < triaged@.len() ==> thread_wf(#[trigger] triaged@[i].thread@),
    ensures
        r@.message is None,
        r@.comments == grouped(spec_review_comments(triaged_views(triaged@))),
{
    let mut groups: Vec<(String, Vec<ReviewComment>)> = Vec::new();
    let mut i: usize = 0;
    while i < triaged.len()
        invariant
            i <= triaged@.len(),
            forall|k: int| 0 <= k < triaged@.len() ==> thread_wf(#[trigger] triaged@[k].thread@),
            review_groups(groups@) == grouped(spec_review_comments(triaged_views(triaged@).take(i as int))),
        decreases triaged@.len() - i,
    {
        let ghost tv = triaged_views(triaged@).take(i + 1);
        assert(tv.drop_last() =~= triaged_views(triaged@).take(i as int));
        assert(tv.last() == triaged@[i as int]@);
        match triaged[i].review_comment() {
            Some(c) => {
                let ghost cs = spec_review_comments(tv);
                assert(cs.drop_last() =~= spec_review_comments(tv.drop_last()));
                assert(cs.last() == c@);
                let ghost before = review_groups(groups@);
                match find_group(&groups, c.path.as_str()) {
                    Some(g) => {
                        proof { lemma_group_of(before, c@.path); }
                        let mut list = copy_comments(&groups[g].1);
                        let name = copy_string(&groups[g].0);
                        let ghost old_list = list@.map_values(|x: ReviewComment| x@);
                        list.push(c);
                        assert(list@.map_values(|x: ReviewComment| x@) =~= old_list.push(c@));
                        groups.set(g, (name, list));
                        assert(review_groups(groups@) =~= before.update(g as int, (before[g as int].0, before[g as int].1.push(c@))));
                    },
                    None => {
                        let name = copy_string(&c.path);
                        let mut list: Vec<ReviewComment> = Vec::new();
                        list.push(c);
                        assert(list@.map_values(|x: ReviewComment| x@) =~= seq![c@]);
                        groups.push((name, list));
                        assert(review_groups(groups@) =~= before.push((c@.path, seq![c@])));
                    },
                }
            },
            None => {
                assert(spec_review_comments(tv) =~= spec_review_comments(tv.drop_last()));
            },
        }
        i = i + 1;
    }
    assert(triaged_views(triaged@).take(triaged@.len() as int) =~= triaged_views(triaged@));
    let r = ReviewInput { message: None, comments: groups };
    assert(r@.comments =~= review_groups(groups@));
    r
}

} // verus!

verus! {

/// A thread fixed by hand posts exactly what an accepted one does: Gerrit
/// cannot tell the two apart.
pub proof fn lemma_hand_fix_posts_like_acceptance(thread: ThreadView)
    ensures
        spec_review_comment(TriagedView { thread, fate: FateView::FixedByHand })
            == spec_review_comment(TriagedView { thread, fate: FateView::Accepted }),
{
}

/// A skipped thread and a rejection whose draft was declined post nothing;
/// every other fate posts one comment, resolved exactly when the fate
/// resolves, replying to the thread's last comment.
pub proof fn lemma_what_each_fate_posts(t: TriagedView)
    ensures
        (t.fate is Skipped || t.fate == (FateView::Rejected { reply: None })) <==> spec_review_comment(t) is None,
        spec_review_comment(t) matches Some(c) ==> c.in_reply_to == spec_last(t.thread).id
            && c.unresolved == (t.fate is Rejected),
{
}

/// In a batched review every path appears once, no group is empty, and the
/// groups together hold every comment.
pub proof fn lemma_grouped_review(cs: Seq<ReviewCommentView>)
    ensures
        forall|i: int, j: int| 0 <= i < j < grouped(cs).len() ==> grouped(cs)[i].0 != grouped(cs)[j].0,
        forall|i: int| 0 <= i < grouped(cs).len() ==> (#[trigger] grouped(cs)[i]).1.len() > 0,
        forall|i: int, k: int| 0 <= i < grouped(cs).len() && 0 <= k < grouped(cs)[i].1.len()
            ==> (#[trigger] grouped(cs)[i].1[k]).path == grouped(cs)[i].0,
        group_total(grouped(cs)) == cs.len(),
    decreases cs.len(),
{
    if cs.len() > 0 {
        let prev = cs.drop_last();
        lemma_grouped_review(prev);
        let groups = grouped(prev);
        let c = cs.last();
        lemma_group_of(groups, c.path);
        match group_of(groups, c.path) {
            Some(i) => {
                let g2 = groups.update(i, (groups[i].0, groups[i].1.push(c)));
                lemma_group_total_update(groups, i, c);
                assert forall|a: int, b: int| 0 <= a < b < g2.len() implies g2[a].0 != g2[b].0 by {
                    assert(g2[a].0 == groups[a].0 && g2[b].0 == groups[b].0);
                }
                assert forall|a: int, k: int| 0 <= a < g2.len() && 0 <= k < g2[a].1.len()
                    implies (#[trigger] g2[a].1[k]).path == g2[a].0 by {
                    if a == i && k == groups[i].1.len() {
                    } else if a == i {
                        assert(g2[a].1[k] == groups[i].1[k]);
                    }
                }
            },
            None => {
                let g2 = groups.push((c.path, seq![c]));
                lemma_group_total_push(groups, (c.path, seq![c]));
                assert forall|a: int, b: int| 0 <= a < b < g2.len() implies g2[a].0 != g2[b].0 by {
                    if b == groups.len() {
                        assert(groups[a].0 != c.path);
                    } else {
                        assert(g2[a] == groups[a] && g2[b] == groups[b]);
                    }
                }
                assert forall|a: int, k: int| 0 <= a < g2.len() && 0 <= k < g2[a].1.len()
                    implies (#[trigger] g2[a].1[k]).path == g2[a].0 by {
                    if a < groups.len() {
                        assert(g2[a] == groups[a]);
                    }
                }
            },
        }
    }
}

/// The number of comments across all groups.
pub open spec fn group_total(g: Seq<(Seq<char>, Seq<ReviewCommentView>)>) -> nat
    decreases g.len(),
{
    if g.len() == 0 {
        0
    } else {
        group_total(g.drop_last()) + g.last().1.len()
    }
}

proof fn lemma_group_total_push(g: Seq<(Seq<char>, Seq<ReviewCommentView>)>, e: (Seq<char>, Seq<ReviewCommentView>))
    ensures
        group_total(g.push(e)) == group_total(g) + e.1.len(),
{
    assert(g.push(e).drop_last() =~= g);
}

proof fn lemma_group_total_update(g: Seq<(Seq<char>, Seq<ReviewCommentView>)>, i: int, c: ReviewCommentView)
    requires
        0 <= i < g.len(),
    ensures
        group_total(g.update(i, (g[i].0, g[i].1.push(c)))) == group_total(g) + 1,
    decreases g.len(),
{
    let g2 = g.update(i, (g[i].0, g[i].1.push(c)));
    if i == g.len() - 1 {
        assert(g2.drop_last() =~= g.drop_last());
    } else {
        assert(g2.drop_last() =~= g.drop_last().update(i, (g[i].0, g[i].1.push(c))));
        lemma_group_total_update(g.drop_last(), i, c);
    }
}

/// The review names each file once: its comments are grouped by path, one
/// group per path.
pub proof fn lemma_review_names_each_file_once(cs: Seq<ReviewCommentView>)
    ensures
        forall|i: int, j: int| 0 <= i < j < grouped(cs).len() ==> (#[trigger] grouped(cs)[i]).0 != (#[trigger] grouped(cs)[j]).0,
    decreases cs.len(),
{
    if cs.len() > 0 {
        let groups = grouped(cs.drop_last());
        let path = cs.last().path;
        lemma_review_names_each_file_once(cs.drop_last());
        lemma_group_of(groups, path);
        let g2 = grouped(cs);
        assert forall|i: int, j: int| 0 <= i < j < g2.len() implies (#[trigger] g2[i]).0 != (#[trigger] g2[j]).0 by {
            match group_of(groups, path) {
                Some(k) => {
                    assert(g2[i].0 == groups[i].0);
                    assert(g2[j].0 == groups[j].0);
                },
                None => {
                    if j == groups.len() {
                        assert(groups[i].0 != path);
                    } else {
                        assert(g2[i] == groups[i]);
                        assert(g2[j] == groups[j]);
                    }
                },
            }
        }
    }
}

} // verus!
