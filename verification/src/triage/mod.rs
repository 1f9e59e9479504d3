//! The triage queue: what the human decides, and how it becomes finalize's
//! input.
//!
//! Nothing is decided automatically: the verdict informs the human and the
//! human governs. Two rules shape the state machine. Deferral makes the queue
//! non-linear, so "next" and "next wanting attention" are different motions.
//! And triage ends only at an explicit finish prompt, never by running out: reaching
//! the last thread finishes nothing.

pub mod dependencies;
pub mod document;

pub use dependencies::{SharedDependency, collate};
pub use document::Document;

use vstd::prelude::*;
use crate::gerrit::anchor::spec_gerrit_path;
use crate::gerrit::comment::opt_view;
use crate::gerrit::thread::{Thread, ThreadView, spec_root, thread_wf};
use crate::submit::fate::{Fate, FateView, TriagedThread};
use crate::text::{copy_string, str_eq};
use crate::verdict::{Verdict, VerdictView, verdict_views};

verus! {

/// What the human decided about a thread. Distinct from a fate: a decision is
/// what was pressed, a fate what Gerrit is told; `Defer` never survives the
/// end of triage.
#[derive(Debug, Clone, Copy, PartialEq, Eq, Structural)]
pub enum Decision {
    Accept,
    Reject,
    /// Revisit later. When triage ends this becomes skipped.
    Defer,
    /// Already fixed in the user's own editor: resolves without an apply turn.
    FixedByHand,
}

/// Where a rejected thread's reply stands.
#[derive(Debug, Clone, PartialEq, Eq)]
pub enum Reply {
    /// Not answered yet: the reply pass still asks.
    Pending,
    /// Approved text, posted with the rejection.
    Approved(String),
    /// Declined: settled, and posts nothing.
    Declined,
}

/// A reply as plain values.
pub enum ReplyView {
    Pending,
    Approved(Seq<char>),
    Declined,
}

impl View for Reply {
    type V = ReplyView;

    open spec fn view(&self) -> ReplyView {
        match self {
            Reply::Pending => ReplyView::Pending,
            Reply::Approved(t) => ReplyView::Approved(t@),
            Reply::Declined => ReplyView::Declined,
        }
    }
}

impl Reply {
    /// Whether the reply has not been answered yet.
    pub fn is_pending(&self) -> (r: bool)
        ensures
            r == (*self is Pending),
    {
        match self {
            Reply::Pending => true,
            _ => false,
        }
    }
}

/// One thread in the queue, with everything decided about it so far.
#[derive(Debug, Clone, PartialEq)]
pub struct TriageItem {
    pub thread: Thread,
    /// The assistant's adjudication, or `None` when the verdict pass produced none.
    /// Unadjudicated is not the same as empty: it stays visibly missing.
    pub verdict: Option<Verdict>,
    pub decision: Option<Decision>,
    /// The comment's prose after the user edited it, which feeds the apply turn.
    pub edited_prose: Option<String>,
    /// The reply to a rejected thread.
    pub reply: Reply,
}

/// An item as plain values.
pub struct ItemView {
    pub thread: ThreadView,
    pub verdict: Option<VerdictView>,
    pub decision: Option<Decision>,
    pub edited_prose: Option<Seq<char>>,
    pub reply: ReplyView,
}

impl View for TriageItem {
    type V = ItemView;

    open spec fn view(&self) -> ItemView {
        ItemView {
            thread: self.thread@,
            verdict: match self.verdict { Some(v) => Some(v@), None => None },
            decision: self.decision,
            edited_prose: opt_view(self.edited_prose),
            reply: self.reply@,
        }
    }
}

pub open spec fn item_views(items: Seq<TriageItem>) -> Seq<ItemView> {
    items.map_values(|i: TriageItem| i@)
}

/// Whether a thread still wants attention: undecided or deferred.
pub open spec fn spec_is_pending(i: ItemView) -> bool {
    i.decision is None || i.decision == Some(Decision::Defer)
}

/// Whether a thread wants a reply: every rejection, whatever the verdict said.
pub open spec fn spec_needs_reply(i: ItemView) -> bool {
    i.decision == Some(Decision::Reject)
}

/// The prose an apply turn acts on: the user's edit, else the comment's text.
pub open spec fn spec_effective_prose(i: ItemView) -> Seq<char> {
    match i.edited_prose {
        Some(p) => p,
        None => spec_root(i.thread).message,
    }
}

/// The prose an apply turn acts on is what the thread asked for: the message
/// of the thread's opening comment, whatever replies follow it, unless the
/// user rewrote it, in which case it is the rewrite.
pub proof fn lemma_prose_is_the_opening_request(i: ItemView)
    requires
        i.thread.comments.len() > 0,
    ensures
        i.edited_prose is None ==> spec_effective_prose(i) == i.thread.comments[0].message,
        i.edited_prose matches Some(p) ==> spec_effective_prose(i) == p,
{
}

impl TriageItem {
    /// The prose an apply turn should act on.
    pub fn effective_prose(&self) -> (r: &str)
        requires
            thread_wf(self.thread@),
        ensures
            r@ == spec_effective_prose(self@),
            self.edited_prose is None ==> r@ == self@.thread.comments[0].message,
    {
        match &self.edited_prose {
            Some(p) => p.as_str(),
            None => self.thread.root().message.as_str(),
        }
    }

    /// Whether this thread carries no decision at all.
    pub fn is_undecided(&self) -> (r: bool)
        ensures
            r == (self@.decision is None),
    {
        self.decision.is_none()
    }

    /// Whether this thread still wants the human's attention. A deferral is a
    /// decision, but it means "not yet", so navigation comes back to it.
    pub fn is_pending(&self) -> (r: bool)
        ensures
            r == spec_is_pending(self@),
    {
        match self.decision {
            None => true,
            Some(Decision::Defer) => true,
            _ => false,
        }
    }

    /// Whether a reply should be drafted for it.
    pub fn needs_reply(&self) -> (r: bool)
        ensures
            r == spec_needs_reply(self@),
    {
        match self.decision {
            Some(Decision::Reject) => true,
            _ => false,
        }
    }
}

/// What is still unsettled when triage is asked to end.
#[derive(Debug, Clone, Copy, PartialEq, Eq)]
pub struct GateReport {
    /// Threads with no decision at all.
    pub undecided: usize,
    /// Threads explicitly deferred, about to become "not doing it".
    pub deferred: usize,
    /// Rejected threads whose reply is neither approved nor declined.
    pub unreplied: usize,
}

impl GateReport {
    /// Whether anything needs stating before triage ends.
    pub fn is_clean(&self) -> (r: bool)
        ensures
            r == (self.undecided == 0 && self.deferred == 0 && self.unreplied == 0),
    {
        self.undecided == 0 && self.deferred == 0 && self.unreplied == 0
    }
}

/// How many items satisfy a property, by kind: 0 unadjudicated, 1 undecided,
/// 2 deferred, 3 rejected with the reply still pending.
pub open spec fn holds(i: ItemView, what: u8) -> bool {
    if what == 0 {
        i.verdict is None
    } else if what == 1 {
        i.decision is None
    } else if what == 2 {
        i.decision == Some(Decision::Defer)
    } else {
        spec_needs_reply(i) && i.reply is Pending
    }
}

/// The number of items for which `holds(_, what)`.
pub open spec fn count(items: Seq<ItemView>, what: u8) -> nat
    decreases items.len(),
{
    if items.len() == 0 {
        0
    } else {
        count(items.drop_last(), what) + if holds(items.last(), what) { 1nat } else { 0nat }
    }
}

proof fn lemma_count_bound(items: Seq<ItemView>, what: u8)
    ensures
        count(items, what) <= items.len(),
    decreases items.len(),
{
    if items.len() > 0 {
        lemma_count_bound(items.drop_last(), what);
    }
}

/// The fate a thread's decision becomes when triage ends.
pub open spec fn spec_fate(i: ItemView) -> FateView {
    match i.decision {
        Some(Decision::Accept) => FateView::Accepted,
        Some(Decision::FixedByHand) => FateView::FixedByHand,
        Some(Decision::Reject) => FateView::Rejected {
            reply: match i.reply { ReplyView::Approved(t) => Some(t), _ => None },
        },
        _ => FateView::Skipped,
    }
}

/// The first verdict for the thread opened by comment `id`.
pub open spec fn find_verdict(vs: Seq<VerdictView>, id: Seq<char>) -> Option<VerdictView>
    decreases vs.len(),
{
    if vs.len() == 0 {
        None
    } else if vs[0].comment_id == id {
        Some(vs[0])
    } else {
        find_verdict(vs.drop_first(), id)
    }
}

/// The first step in `step..=len` from `cursor`, wrapping, that lands on a
/// thread wanting attention.
pub open spec fn pending_step(items: Seq<ItemView>, cursor: int, step: int) -> Option<int>
    decreases items.len() + 1 - step,
{
    if step < 1 || step > items.len() {
        None
    } else if spec_is_pending(items[(cursor + step) % (items.len() as int)]) {
        Some(step)
    } else {
        pending_step(items, cursor, step + 1)
    }
}

/// Where next-undecided lands: the first thread after the cursor, wrapping
/// once, that wants attention; the cursor stays when none does.
pub open spec fn spec_next_pending(items: Seq<ItemView>, cursor: int) -> int {
    match pending_step(items, cursor, 1) {
        Some(step) => (cursor + step) % (items.len() as int),
        None => cursor,
    }
}

proof fn lemma_pending_step(items: Seq<ItemView>, cursor: int, step: int)
    requires
        items.len() > 0,
        step >= 1,
    ensures
        match pending_step(items, cursor, step) {
            Some(t) => step <= t <= items.len() && spec_is_pending(items[(cursor + t) % (items.len() as int)]),
            None => forall|t: int| step <= t <= items.len()
                ==> !spec_is_pending(#[trigger] items[(cursor + t) % (items.len() as int)]),
        },
    decreases items.len() + 1 - step,
{
    if step <= items.len() {
        lemma_pending_step(items, cursor, step + 1);
    }
}

/// Next-undecided lands on a thread that wants attention whenever one does,
/// wherever the cursor stands, and stays put when none does.
pub proof fn lemma_next_pending_finds_attention(items: Seq<ItemView>, cursor: int)
    requires
        0 <= cursor < items.len(),
    ensures
        0 <= spec_next_pending(items, cursor) < items.len(),
        (exists|i: int| 0 <= i < items.len() && spec_is_pending(#[trigger] items[i]))
            ==> spec_is_pending(items[spec_next_pending(items, cursor)]),
        (forall|i: int| 0 <= i < items.len() ==> !spec_is_pending(#[trigger] items[i]))
            ==> spec_next_pending(items, cursor) == cursor,
{
    let len = items.len() as int;
    lemma_pending_step(items, cursor, 1);
    match pending_step(items, cursor, 1) {
        Some(t) => {
            assert(0 <= (cursor + t) % len < len) by (nonlinear_arith)
                requires len > 0, cursor + t >= 0;
        },
        None => {
            if exists|i: int| 0 <= i < items.len() && spec_is_pending(#[trigger] items[i]) {
                let i = choose|i: int| 0 <= i < items.len() && spec_is_pending(#[trigger] items[i]);
                let t = if i > cursor { i - cursor } else { i - cursor + len };
                assert((cursor + t) % len == i) by (nonlinear_arith)
                    requires
                        0 <= i < len,
                        t == if i > cursor { i - cursor } else { i - cursor + len },
                ;
                assert(!spec_is_pending(items[(cursor + t) % len]));
            }
        },
    }
}

/// The first thread anchored on `path`.
pub open spec fn first_on_path(items: Seq<ItemView>, path: Seq<char>) -> Option<int>
    decreases items.len(),
{
    if items.len() == 0 {
        None
    } else if spec_gerrit_path(items[0].thread.anchor) == path {
        Some(0)
    } else {
        match first_on_path(items.drop_first(), path) {
            Some(i) => Some(i + 1),
            None => None,
        }
    }
}

proof fn lemma_first_on_path(items: Seq<ItemView>, path: Seq<char>)
    ensures
        match first_on_path(items, path) {
            Some(i) => 0 <= i < items.len() && spec_gerrit_path(items[i].thread.anchor) == path
                && forall|k: int| 0 <= k < i ==> spec_gerrit_path((#[trigger] items[k]).thread.anchor) != path,
            None => forall|k: int| 0 <= k < items.len() ==> spec_gerrit_path((#[trigger] items[k]).thread.anchor) != path,
        },
    decreases items.len(),
{
    if items.len() > 0 && spec_gerrit_path(items[0].thread.anchor) != path {
        lemma_first_on_path(items.drop_first(), path);
        assert forall|k: int| 0 < k < items.len() implies #[trigger] items[k] == items.drop_first()[k - 1] by {}
    }
}

/// The triage queue and its cursor.
#[derive(Debug, Clone, PartialEq)]
pub struct Triage {
    pub items: Vec<TriageItem>,
    pub cursor: usize,
    /// Threads dropped for patchset age, carried so the count can be reported
    /// before triage begins.
    pub skipped_older_patchsets: usize,
}

impl Triage {
    /// Every thread is well formed and the cursor is on a thread (or at zero
    /// in an empty queue).
    pub open spec fn wf(&self) -> bool {
        &&& forall|i: int| 0 <= i < self.items@.len() ==> thread_wf(#[trigger] self.items@[i]@.thread)
        &&& (self.items@.len() == 0 ==> self.cursor == 0)
        &&& (self.items@.len() > 0 ==> self.cursor < self.items@.len())
    }

    /// The queue as plain values.
    pub open spec fn view_items(&self) -> Seq<ItemView> {
        item_views(self.items@)
    }

    /// Build a queue from threads and whatever verdicts were produced for
    /// them. A verdict matches by the thread's opening comment id; a thread
    /// with none is kept, unadjudicated, rather than dropped.
    pub fn new(threads: Vec<Thread>, verdicts: &[Verdict], skipped_older_patchsets: usize) -> (r: Triage)
        requires
            forall|i: int| 0 <= i < threads@.len() ==> thread_wf(#[trigger] threads@[i]@),
        ensures
            r.wf(),
            r.cursor == 0,
            r.skipped_older_patchsets == skipped_older_patchsets,
            r.view_items().len() == threads@.len(),
            forall|i: int| 0 <= i < threads@.len() ==> {
                let it = #[trigger] r.view_items()[i];
                &&& it.thread == threads@[i]@
                &&& it.verdict == find_verdict(verdict_views(verdicts@), spec_root(threads@[i]@).id)
                &&& it.decision is None
                &&& it.edited_prose is None
                &&& it.reply is Pending
            },
    {
        let mut items: Vec<TriageItem> = Vec::new();
        let mut i: usize = 0;
        while i < threads.len()
            invariant
                i <= threads@.len(),
                forall|k: int| 0 <= k < threads@.len() ==> thread_wf(#[trigger] threads@[k]@),
                items@.len() == i,
                forall|k: int| 0 <= k < i ==> {
                    let it = #[trigger] items@[k]@;
                    &&& it.thread == threads@[k]@
                    &&& it.verdict == find_verdict(verdict_views(verdicts@), spec_root(threads@[k]@).id)
                    &&& it.decision is None
                    &&& it.edited_prose is None
                    &&& it.reply is Pending
                },
            decreases threads@.len() - i,
        {
            let t = threads[i].duplicate();
            let verdict = matching_verdict(verdicts, t.root().id.as_str());
            items.push(TriageItem { thread: t, verdict, decision: None, edited_prose: None, reply: Reply::Pending });
            i = i + 1;
        }
        Triage { items, cursor: 0, skipped_older_patchsets }
    }
}

impl Triage {
    pub fn is_empty(&self) -> (r: bool)
        ensures
            r == (self.items@.len() == 0),
    {
        self.items.len() == 0
    }

    pub fn len(&self) -> (r: usize)
        ensures
            r == self.items@.len(),
    {
        self.items.len()
    }

    pub fn items(&self) -> (r: &[TriageItem])
        ensures
            r@ == self.items@,
    {
        self.items.as_slice()
    }

    pub fn cursor(&self) -> (r: usize)
        ensures
            r == self.cursor,
    {
        self.cursor
    }

    /// The thread under the cursor.
    /// The thread under the cursor, to change in place; the queue takes
    /// whatever it is left holding.
    pub fn current_mut(&mut self) -> (r: Option<&mut TriageItem>)
        ensures
            match r {
                Some(it) => {
                    &&& old(self).cursor < old(self).items@.len()
                    &&& *it == old(self).items@[old(self).cursor as int]
                    &&& final(self).items@ == old(self).items@.update(old(self).cursor as int, *final(it))
                    &&& final(self).cursor == old(self).cursor
                    &&& final(self).skipped_older_patchsets == old(self).skipped_older_patchsets
                },
                None => old(self).cursor >= old(self).items@.len() && *final(self) == *old(self),
            },
    {
        if self.cursor < self.items.len() {
            Some(&mut self.items[self.cursor])
        } else {
            None
        }
    }

    pub fn current(&self) -> (r: Option<&TriageItem>)
        ensures
            match r {
                Some(it) => self.cursor < self.items@.len() && *it == self.items@[self.cursor as int],
                None => self.cursor >= self.items@.len(),
            },
    {
        if self.cursor < self.items.len() {
            Some(&self.items[self.cursor])
        } else {
            None
        }
    }

    fn count_of(&self, what: u8) -> (r: usize)
        ensures
            r == count(self.view_items(), what),
    {
        let mut c: usize = 0;
        let mut i: usize = 0;
        while i < self.items.len()
            invariant
                i <= self.items@.len(),
                c == count(self.view_items().take(i as int), what),
            decreases self.items@.len() - i,
        {
            let ghost pre = self.view_items().take(i + 1);
            assert(pre.drop_last() =~= self.view_items().take(i as int));
            proof { lemma_count_bound(self.view_items().take(i as int), what); }
            let it = &self.items[i];
            let h = if what == 0 {
                it.verdict.is_none()
            } else if what == 1 {
                it.decision.is_none()
            } else if what == 2 {
                match it.decision { Some(Decision::Defer) => true, _ => false }
            } else {
                it.needs_reply() && it.reply.is_pending()
            };
            if h {
                c = c + 1;
            }
            i = i + 1;
        }
        assert(self.view_items().take(self.items@.len() as int) =~= self.view_items());
        c
    }

    /// Threads whose verdict pass failed, which must be visible as such.
    pub fn unadjudicated(&self) -> (r: usize)
        ensures
            r == count(self.view_items(), 0),
    {
        self.count_of(0)
    }

    /// Threads still carrying no decision.
    pub fn undecided(&self) -> (r: usize)
        ensures
            r == count(self.view_items(), 1),
    {
        self.count_of(1)
    }

    /// Record a decision for the current thread. The human's choice governs,
    /// whatever the verdict said.
    pub fn decide(&mut self, decision: Decision)
        requires
            old(self).wf(),
        ensures
            final(self).wf(),
            final(self).cursor == old(self).cursor,
            final(self).skipped_older_patchsets == old(self).skipped_older_patchsets,
            old(self).items@.len() == 0 ==> final(self).view_items() == old(self).view_items(),
            old(self).items@.len() > 0 ==> final(self).view_items() == old(self).view_items().update(old(self).cursor as int,
                ItemView { decision: Some(decision), ..old(self).view_items()[old(self).cursor as int] }),
    {
        if self.cursor < self.items.len() {
            let mut item = self.items.remove(self.cursor);
            item.decision = Some(decision);
            self.items.insert(self.cursor, item);
            assert(self.view_items() =~= old(self).view_items().update(old(self).cursor as int,
                ItemView { decision: Some(decision), ..old(self).view_items()[old(self).cursor as int] }));
        }
    }

    /// Replace the current thread's prose, which is what the apply turn uses.
    pub fn edit_prose(&mut self, prose: String)
        requires
            old(self).wf(),
        ensures
            final(self).wf(),
            final(self).cursor == old(self).cursor,
            final(self).skipped_older_patchsets == old(self).skipped_older_patchsets,
            old(self).items@.len() == 0 ==> final(self).view_items() == old(self).view_items(),
            old(self).items@.len() > 0 ==> final(self).view_items() == old(self).view_items().update(old(self).cursor as int,
                ItemView { edited_prose: Some(prose@), ..old(self).view_items()[old(self).cursor as int] }),
    {
        if self.cursor < self.items.len() {
            let mut item = self.items.remove(self.cursor);
            item.edited_prose = Some(prose);
            self.items.insert(self.cursor, item);
            assert(self.view_items() =~= old(self).view_items().update(old(self).cursor as int,
                ItemView { edited_prose: Some(prose@), ..old(self).view_items()[old(self).cursor as int] }));
        }
    }

    /// Answer the reply of thread `index`; out of range, nothing happens.
    fn set_reply(&mut self, index: usize, reply: Reply)
        requires
            old(self).wf(),
        ensures
            final(self).wf(),
            final(self).cursor == old(self).cursor,
            final(self).skipped_older_patchsets == old(self).skipped_older_patchsets,
            index >= old(self).items@.len() ==> final(self).view_items() == old(self).view_items(),
            index < old(self).items@.len() ==> final(self).view_items() == old(self).view_items().update(index as int,
                ItemView { reply: reply@, ..old(self).view_items()[index as int] }),
    {
        if index < self.items.len() {
            let mut item = self.items.remove(index);
            item.reply = reply;
            self.items.insert(index, item);
            assert(self.view_items() =~= old(self).view_items().update(index as int,
                ItemView { reply: reply@, ..old(self).view_items()[index as int] }));
        }
    }

    /// Approve a reply for a rejected thread.
    pub fn approve_reply(&mut self, index: usize, reply: String)
        requires
            old(self).wf(),
        ensures
            final(self).wf(),
            final(self).cursor == old(self).cursor,
            final(self).skipped_older_patchsets == old(self).skipped_older_patchsets,
            index >= old(self).items@.len() ==> final(self).view_items() == old(self).view_items(),
            index < old(self).items@.len() ==> final(self).view_items() == old(self).view_items().update(index as int,
                ItemView { reply: ReplyView::Approved(reply@), ..old(self).view_items()[index as int] }),
    {
        self.set_reply(index, Reply::Approved(reply));
    }

    /// Decline the drafted reply for a rejected thread: settled, posting
    /// nothing, and not offered again.
    pub fn decline_reply(&mut self, index: usize)
        requires
            old(self).wf(),
        ensures
            final(self).wf(),
            final(self).cursor == old(self).cursor,
            final(self).skipped_older_patchsets == old(self).skipped_older_patchsets,
            index >= old(self).items@.len() ==> final(self).view_items() == old(self).view_items(),
            index < old(self).items@.len() ==> final(self).view_items() == old(self).view_items().update(index as int,
                ItemView { reply: ReplyView::Declined, ..old(self).view_items()[index as int] }),
    {
        self.set_reply(index, Reply::Declined);
    }

    /// Indices of threads awaiting a reply decision, in queue order.
    pub fn awaiting_replies(&self) -> (r: Vec<usize>)
        ensures
            forall|k: int| 0 <= k < r@.len() ==> (#[trigger] r@[k]) < self.items@.len() && spec_needs_reply(self.view_items()[r@[k] as int]),
            forall|i: int| 0 <= i < self.items@.len() && spec_needs_reply(#[trigger] self.view_items()[i]) ==> r@.contains(i as usize),
            forall|k: int, m: int| 0 <= k < m < r@.len() ==> r@[k] < r@[m],
    {
        let mut r: Vec<usize> = Vec::new();
        let mut i: usize = 0;
        while i < self.items.len()
            invariant
                i <= self.items@.len(),
                forall|k: int| 0 <= k < r@.len() ==> (#[trigger] r@[k]) < i && spec_needs_reply(self.view_items()[r@[k] as int]),
                forall|j: int| 0 <= j < i && spec_needs_reply(#[trigger] self.view_items()[j]) ==> r@.contains(j as usize),
                forall|k: int, m: int| 0 <= k < m < r@.len() ==> r@[k] < r@[m],
            decreases self.items@.len() - i,
        {
            if self.items[i].needs_reply() {
                let ghost before = r@;
                r.push(i);
                assert forall|j: int| 0 <= j < i + 1 && spec_needs_reply(#[trigger] self.view_items()[j]) implies r@.contains(j as usize) by {
                    if j == i {
                        assert(r@[before.len() as int] == j as usize);
                    } else {
                        let q = choose|q: int| 0 <= q < before.len() && before[q] == j as usize;
                        assert(r@[q] == j as usize);
                    }
                }
            }
            i = i + 1;
        }
        r
    }

    /// Move to the adjacent thread. Stops at the ends; reaching the last one
    /// does not end triage.
    pub fn next(&mut self)
        requires
            old(self).wf(),
        ensures
            final(self).wf(),
            final(self).items == old(self).items,
            final(self).skipped_older_patchsets == old(self).skipped_older_patchsets,
            final(self).cursor == if old(self).cursor + 1 < old(self).items@.len() { old(self).cursor + 1 } else { old(self).cursor as int },
    {
        let n = self.items.len();
        if self.cursor + 1 < n {
            self.cursor = self.cursor + 1;
        }
    }

    pub fn prev(&mut self)
        requires
            old(self).wf(),
        ensures
            final(self).wf(),
            final(self).items == old(self).items,
            final(self).skipped_older_patchsets == old(self).skipped_older_patchsets,
            final(self).cursor == if old(self).cursor > 0 { old(self).cursor - 1 } else { 0 },
    {
        self.cursor = self.cursor.saturating_sub(1);
    }

    /// Move to the next thread wanting attention (undecided or deferred),
    /// wrapping once; with none, stay put.
    pub fn next_undecided(&mut self)
        requires
            old(self).wf(),
        ensures
            final(self).wf(),
            final(self).items == old(self).items,
            final(self).skipped_older_patchsets == old(self).skipped_older_patchsets,
            old(self).items@.len() == 0 ==> final(self).cursor == old(self).cursor,
            old(self).items@.len() > 0 ==> final(self).cursor == spec_next_pending(old(self).view_items(), old(self).cursor as int),
    {
        let len = self.items.len();
        if len == 0 {
            return;
        }
        let ghost items = self.view_items();
        let mut k: usize = 0;
        while k < len
            invariant
                len == self.items@.len(),
                len > 0,
                items == self.view_items(),
                self.wf(),
                self.items == old(self).items,
                self.cursor == old(self).cursor,
                self.skipped_older_patchsets == old(self).skipped_older_patchsets,
                k <= len,
                pending_step(items, self.cursor as int, 1) == pending_step(items, self.cursor as int, k + 1),
            decreases len - k,
        {
            let step = k + 1;
            let index = ((self.cursor as u128 + step as u128) % (len as u128)) as usize;
            if self.items[index].is_pending() {
                self.cursor = index;
                return;
            }
            k = k + 1;
        }
    }

    /// Jump to the first thread anchored on `path`, if there is one.
    pub fn jump_to_path(&mut self, path: &str) -> (found: bool)
        requires
            old(self).wf(),
        ensures
            final(self).wf(),
            final(self).items == old(self).items,
            final(self).skipped_older_patchsets == old(self).skipped_older_patchsets,
            found == first_on_path(old(self).view_items(), path@) is Some,
            match first_on_path(old(self).view_items(), path@) {
                Some(i) => final(self).cursor == i,
                None => final(self).cursor == old(self).cursor,
            },
    {
        proof { lemma_first_on_path(self.view_items(), path@); }
        let mut i: usize = 0;
        while i < self.items.len()
            invariant
                i <= self.items@.len(),
                self.items == old(self).items,
                self.cursor == old(self).cursor,
                self.skipped_older_patchsets == old(self).skipped_older_patchsets,
                self.wf(),
                forall|k: int| 0 <= k < i ==> spec_gerrit_path((#[trigger] self.view_items()[k]).thread.anchor) != path@,
                match first_on_path(self.view_items(), path@) {
                    Some(j) => 0 <= j < self.items@.len() && spec_gerrit_path(self.view_items()[j].thread.anchor) == path@
                        && forall|k: int| 0 <= k < j ==> spec_gerrit_path((#[trigger] self.view_items()[k]).thread.anchor) != path@,
                    None => forall|k: int| 0 <= k < self.items@.len() ==> spec_gerrit_path((#[trigger] self.view_items()[k]).thread.anchor) != path@,
                },
            decreases self.items@.len() - i,
        {
            if str_eq(self.items[i].thread.anchor.gerrit_path(), path) {
                proof {
                    assert(self.view_items()[i as int].thread == self.items@[i as int].thread@);
                    match first_on_path(self.view_items(), path@) {
                        Some(j) => { if j > i { } else if j < i { } },
                        None => {},
                    }
                }
                self.cursor = i;
                return true;
            }
            proof { assert(self.view_items()[i as int].thread == self.items@[i as int].thread@); }
            i = i + 1;
        }
        false
    }

    /// What ending triage right now would leave unsettled.
    pub fn gate_report(&self) -> (r: GateReport)
        ensures
            r.undecided == count(self.view_items(), 1),
            r.deferred == count(self.view_items(), 2),
            r.unreplied == count(self.view_items(), 3),
    {
        GateReport { undecided: self.count_of(1), deferred: self.count_of(2), unreplied: self.count_of(3) }
    }

    /// End triage, mapping every thread onto the fate finalize will post.
    /// Deferred and undecided threads both become skipped: at the end "not
    /// yet" becomes "not doing it".
    pub fn finish(self) -> (r: Vec<TriagedThread>)
        ensures
            r@.len() == self.items@.len(),
            forall|i: int| 0 <= i < r@.len() ==> (#[trigger] r@[i])@.thread == self.view_items()[i].thread
                && r@[i]@.fate == spec_fate(self.view_items()[i]),
    {
        let mut r: Vec<TriagedThread> = Vec::new();
        let mut i: usize = 0;
        while i < self.items.len()
            invariant
                i <= self.items@.len(),
                r@.len() == i,
                forall|k: int| 0 <= k < i ==> (#[trigger] r@[k])@.thread == self.view_items()[k].thread
                    && r@[k]@.fate == spec_fate(self.view_items()[k]),
            decreases self.items@.len() - i,
        {
            let item = &self.items[i];
            let fate = match item.decision {
                Some(Decision::Accept) => Fate::Accepted,
                Some(Decision::FixedByHand) => Fate::FixedByHand,
                Some(Decision::Reject) => Fate::Rejected {
                    reply: match &item.reply {
                        Reply::Approved(t) => Some(copy_string(t)),
                        _ => None,
                    },
                },
                _ => Fate::Skipped,
            };
            r.push(TriagedThread { thread: item.thread.duplicate(), fate });
            i = i + 1;
        }
        r
    }
}

/// The first verdict whose comment id is `id`, copied.
fn matching_verdict(verdicts: &[Verdict], id: &str) -> (r: Option<Verdict>)
    ensures
        match r {
            Some(v) => find_verdict(verdict_views(verdicts@), id@) == Some(v@),
            None => find_verdict(verdict_views(verdicts@), id@) is None,
        },
{
    let mut i: usize = 0;
    assert(verdict_views(verdicts@).skip(0) =~= verdict_views(verdicts@));
    while i < verdicts.len()
        invariant
            i <= verdicts@.len(),
            find_verdict(verdict_views(verdicts@), id@) == find_verdict(verdict_views(verdicts@).skip(i as int), id@),
        decreases verdicts@.len() - i,
    {
        assert(verdict_views(verdicts@).skip(i as int).drop_first() =~= verdict_views(verdicts@).skip(i + 1));
        if str_eq(verdicts[i].comment_id.as_str(), id) {
            return Some(verdicts[i].duplicate());
        }
        i = i + 1;
    }
    None
}

} // verus!
