//! The triage application: state, modes, and what each action does to them.
//!
//! Keys become actions (`keys`), actions change state (here), and state is
//! drawn by the terminal front end. Everything that decides what happens
//! lives on this side of that line.

pub mod keys;
pub mod render;
pub mod tree;

pub use keys::{Key, KeyCode, action_for};
pub use render::truncate;
pub use tree::TreeEntry;

use vstd::prelude::*;
use crate::apply::files::WorktreeFiles;
use crate::gerrit::api::ChangeInfo;
use crate::gerrit::thread::thread_wf;
use crate::minibuffer::Minibuffer;
use crate::submit::fate::TriagedThread;
use crate::triage::{Decision, Document, GateReport, ItemView, Reply, ReplyView, SharedDependency, Triage, collate, count, spec_fate, spec_next_pending, spec_needs_reply, spec_effective_prose};
use crate::text::{push_str, push_decimal, spec_decimal};
use crate::verdict::{Verdict, VerdictView, verdict_views};
use crate::triage::document::{is_document_for, string_views};
use crate::triage::dependencies::{collated, dependency_pairs, shared_views};

verus! {

/// What the keyboard currently means.
#[derive(Debug, Clone, Copy, PartialEq, Eq, Structural)]
pub enum Mode {
    /// Deciding on threads.
    Triage,
    /// Editing a comment's prose before it feeds an apply turn.
    Prose,
    /// Editing or approving a drafted reply to a rejected thread.
    Reply,
    /// Answering whether triage should end.
    Gate,
}

/// Something the user asked for.
#[derive(Debug, Clone, Copy, PartialEq, Eq, Structural)]
pub enum Action {
    Decide(Decision),
    Next,
    Prev,
    NextUndecided,
    ToggleTree,
    BeginProseEdit,
    ShowWorktreePath,
    ScrollDocUp,
    ScrollDocDown,
    /// Ask to end triage: opens the question, decides nothing.
    OpenGate,
    /// Submit the minibuffer, or answer the question yes.
    Confirm,
    /// Abandon the minibuffer, or answer the question no.
    Cancel,
    Input(char),
    Backspace,
    Quit,
}

/// Why the application stopped.
#[derive(Debug, Clone, PartialEq, Eq)]
pub enum Outcome {
    /// Still running.
    Running,
    /// Triage ended; these fates go to apply and finalize.
    Finished(Vec<TriagedThread>),
    /// The user aborted. The worktree and any confirmed edits stay put.
    Aborted,
}

/// The triage application's state.
#[derive(Debug)]
pub struct App {
    pub triage: Triage,
    pub change: ChangeInfo,
    pub mode: Mode,
    /// Whether the file tree is shown.
    pub tree_visible: bool,
    /// The active prompt, when one is open.
    pub minibuffer: Option<Minibuffer>,
    /// A one-line message for the status bar.
    pub status: Option<String>,
    /// Where the worktree is, for fixing a thread in one's own editor.
    pub worktree: String,
    /// Vertical scroll of the document pane.
    pub doc_scroll: usize,
    /// The unsettled counts while the end-of-triage question is open.
    pub gate: Option<GateReport>,
    /// Which rejected thread's reply is being edited, in reply mode.
    pub reply_target: Option<usize>,
    pub outcome: Outcome,
}

/// The queue once the reply under edit is answered: empty text declines
/// the draft, any other text approves it as the reply.
pub open spec fn spec_replied(items: Seq<ItemView>, minibuffer: Option<Minibuffer>, target: Option<usize>) -> Seq<ItemView> {
    match (minibuffer, target) {
        (Some(m), Some(i)) => if i < items.len() {
            items.update(i as int, ItemView {
                reply: if m.input@.len() == 0 { ReplyView::Declined } else { ReplyView::Approved(m.input@) },
                ..items[i as int]
            })
        } else {
            items
        },
        _ => items,
    }
}

/// The verdicts present in a queue, in queue order.
pub open spec fn item_verdicts(items: Seq<ItemView>) -> Seq<VerdictView>
    decreases items.len(),
{
    if items.len() == 0 {
        Seq::empty()
    } else {
        let rest = item_verdicts(items.drop_last());
        match items.last().verdict {
            Some(v) => rest.push(v),
            None => rest,
        }
    }
}

/// The notice stated before triage begins: threads left out for patchset
/// age, and threads without a verdict, so a short queue never reads as a
/// change with fewer comments.
pub open spec fn spec_load_notice(skipped: nat, unadjudicated: nat) -> Option<Seq<char>> {
    let a = spec_decimal(skipped) + " thread(s) on earlier patchsets were NOT triaged"@;
    let b = spec_decimal(unadjudicated) + " thread(s) have no verdict"@;
    if skipped > 0 && unadjudicated > 0 {
        Some(a + "; "@ + b)
    } else if skipped > 0 {
        Some(a)
    } else if unadjudicated > 0 {
        Some(b)
    } else {
        None
    }
}

/// The decided queue after decision `d` at the cursor.
pub open spec fn decided(items: Seq<ItemView>, cursor: int, d: Decision) -> Seq<ItemView> {
    if items.len() == 0 { items } else { items.update(cursor, ItemView { decision: Some(d), ..items[cursor] }) }
}

impl App {
    /// The queue is well formed and a reply target names a thread.
    pub open spec fn wf(&self) -> bool {
        &&& self.triage.wf()
        &&& match self.reply_target { Some(i) => i < self.triage.items@.len(), None => true }
    }

    /// A new application over a triage queue. The status bar opens with the
    /// load notice.
    pub fn new(triage: Triage, change: ChangeInfo, worktree: &str) -> (r: App)
        requires
            triage.wf(),
        ensures
            r.wf(),
            r.triage == triage,
            r.mode == Mode::Triage,
            r.tree_visible,
            r.minibuffer is None,
            r.worktree@ == worktree@,
            r.doc_scroll == 0,
            r.gate is None,
            r.reply_target is None,
            r.outcome is Running,
            match r.status {
                Some(s) => spec_load_notice(triage.skipped_older_patchsets as nat, count(triage.view_items(), 0)) == Some(s@),
                None => spec_load_notice(triage.skipped_older_patchsets as nat, count(triage.view_items(), 0)) is None,
            },
    {
        let status = load_notice(&triage);
        App {
            triage,
            change,
            mode: Mode::Triage,
            tree_visible: true,
            minibuffer: None,
            status,
            worktree: worktree.to_owned(),
            doc_scroll: 0,
            gate: None,
            reply_target: None,
            outcome: Outcome::Running,
        }
    }

    /// Whether the loop should stop, and why.
    pub fn outcome(&self) -> (r: &Outcome)
        ensures
            r == &self.outcome,
    {
        &self.outcome
    }

    pub fn is_running(&self) -> (r: bool)
        ensures
            r == (self.outcome is Running),
    {
        match self.outcome {
            Outcome::Running => true,
            _ => false,
        }
    }

    /// The document the thread under the cursor is anchored to, rebuilt on
    /// demand so an edit made in another editor shows on the next redraw.
    pub fn current_document<W: WorktreeFiles>(&self, commit_message: &str, files: &W) -> (r: Document)
        requires
            self.wf(),
        ensures
            self.triage.items@.len() == 0 ==> r.title@ == "no threads"@ && r.anchor_line is None
                && string_views(r.lines@) == seq!["Nothing to triage on the current patchset."@],
            self.triage.items@.len() > 0 ==> is_document_for(r, self.triage.view_items()[self.triage.cursor as int].thread,
                self.change, commit_message@, files.seen()),
    {
        match self.triage.current() {
            Some(item) => {
                assert(thread_wf(self.triage.items@[self.triage.cursor as int]@.thread));
                Document::for_thread(&item.thread, &self.change, commit_message, files)
            },
            None => {
                let mut lines: Vec<String> = Vec::new();
                lines.push("Nothing to triage on the current patchset.".to_owned());
                assert(string_views(lines@) =~= seq!["Nothing to triage on the current patchset."@]);
                Document { title: "no threads".to_owned(), lines, anchor_line: None, highlighted: false }
            },
        }
    }

    /// The facts the verdicts rest on, each shown once.
    pub fn shared_dependencies(&self) -> (r: Vec<SharedDependency>)
        ensures
            shared_views(r@) == collated(dependency_pairs(item_verdicts(self.triage.view_items()))),
    {
        let mut verdicts: Vec<Verdict> = Vec::new();
        let mut i: usize = 0;
        let ghost items = self.triage.view_items();
        assert(items.take(0) =~= Seq::<ItemView>::empty());
        while i < self.triage.items.len()
            invariant
                i <= self.triage.items@.len(),
                items == self.triage.view_items(),
                verdict_views(verdicts@) == item_verdicts(items.take(i as int)),
            decreases self.triage.items@.len() - i,
        {
            assert(items.take(i + 1).drop_last() =~= items.take(i as int));
            assert(items[i as int] == self.triage.items@[i as int]@);
            let ghost before = verdicts@;
            match &self.triage.items[i].verdict {
                Some(v) => {
                    verdicts.push(v.duplicate());
                    assert(verdict_views(verdicts@) =~= verdict_views(before).push(v@));
                },
                None => {},
            }
            i = i + 1;
        }
        assert(items.take(self.triage.items@.len() as int) =~= items);
        collate(verdicts.as_slice())
    }

    /// Record a decision, then move on to the next thread wanting attention.
    /// Advancing is not ending: only the end-of-triage question does that.
    fn decide(&mut self, decision: Decision)
        requires
            old(self).wf(),
        ensures
            final(self).wf(),
            final(self).triage.view_items() == decided(old(self).triage.view_items(), old(self).triage.cursor as int, decision),
            old(self).triage.items@.len() == 0 ==> final(self).triage.cursor == old(self).triage.cursor,
            old(self).triage.items@.len() > 0 ==> final(self).triage.cursor == spec_next_pending(
                decided(old(self).triage.view_items(), old(self).triage.cursor as int, decision), old(self).triage.cursor as int),
            final(self).triage.skipped_older_patchsets == old(self).triage.skipped_older_patchsets,
            final(self).doc_scroll == 0,
            final(self).mode == old(self).mode,
            final(self).outcome == old(self).outcome,
            final(self).minibuffer == old(self).minibuffer,
            final(self).reply_target == old(self).reply_target,
            final(self).gate == old(self).gate,
            final(self).tree_visible == old(self).tree_visible,
    {
        self.triage.decide(decision);
        assert(self.triage.view_items().len() == self.triage.items@.len());
        self.triage.next_undecided();
        self.doc_scroll = 0;
    }

    fn begin_prose_edit(&mut self)
        requires
            old(self).wf(),
        ensures
            final(self).wf(),
            final(self).triage == old(self).triage,
            final(self).outcome == old(self).outcome,
            old(self).triage.items@.len() == 0 ==> final(self).mode == old(self).mode && final(self).minibuffer == old(self).minibuffer,
            old(self).triage.items@.len() > 0 ==> final(self).mode == Mode::Prose && (final(self).minibuffer matches Some(m)
                && m.prompt@ == "Comment: "@ && m.input@ == spec_effective_prose(old(self).triage.view_items()[old(self).triage.cursor as int])),
    {
        let mini = match self.triage.current() {
            Some(item) => {
                assert(thread_wf(item@.thread));
                Minibuffer::editing("Comment: ", item.effective_prose())
            },
            None => { return; },
        };
        self.minibuffer = Some(mini);
        self.mode = Mode::Prose;
    }

    /// Open the end-of-triage question. It reports and asks; it decides
    /// nothing.
    fn open_gate(&mut self)
        requires
            old(self).wf(),
        ensures
            final(self).wf(),
            final(self).triage == old(self).triage,
            final(self).outcome == old(self).outcome,
            final(self).mode == Mode::Gate,
            final(self).gate matches Some(g) && g.undecided == count(old(self).triage.view_items(), 1)
                && g.deferred == count(old(self).triage.view_items(), 2) && g.unreplied == count(old(self).triage.view_items(), 3),
            final(self).minibuffer == old(self).minibuffer,
            final(self).reply_target == old(self).reply_target,
    {
        self.gate = Some(self.triage.gate_report());
        self.mode = Mode::Gate;
    }

    fn submit_prose(&mut self)
        requires
            old(self).wf(),
        ensures
            final(self).wf(),
            final(self).mode == Mode::Triage,
            final(self).minibuffer is None,
            final(self).outcome == old(self).outcome,
            final(self).triage.cursor == old(self).triage.cursor,
            match old(self).minibuffer {
                Some(m) => if m.input@.len() == 0 || old(self).triage.items@.len() == 0 {
                    final(self).triage.view_items() == old(self).triage.view_items()
                } else {
                    final(self).triage.view_items() == old(self).triage.view_items().update(old(self).triage.cursor as int,
                        ItemView { edited_prose: Some(m.input@), ..old(self).triage.view_items()[old(self).triage.cursor as int] })
                },
                None => final(self).triage.view_items() == old(self).triage.view_items(),
            },
    {
        let mini = self.minibuffer.take();
        match mini {
            Some(m) => {
                if !m.is_empty() {
                    self.triage.edit_prose(m.input);
                    assert(self.triage.view_items().len() == self.triage.items@.len());
                }
            },
            None => {},
        }
        self.mode = Mode::Triage;
    }

    /// The first rejected thread still owing a reply, if any.
    fn first_pending_reply(&self) -> (r: Option<usize>)
        requires
            self.wf(),
        ensures
            match r {
                Some(i) => i < self.triage.items@.len() && spec_needs_reply(self.triage.view_items()[i as int])
                    && self.triage.view_items()[i as int].reply is Pending
                    && forall|k: int| 0 <= k < i ==> !(spec_needs_reply(#[trigger] self.triage.view_items()[k]) && self.triage.view_items()[k].reply is Pending),
                None => count(self.triage.view_items(), 3) == 0,
            },
    {
        let waiting = self.triage.awaiting_replies();
        let mut k: usize = 0;
        while k < waiting.len()
            invariant
                self.wf(),
                k <= waiting@.len(),
                forall|q: int| 0 <= q < waiting@.len() ==> (#[trigger] waiting@[q]) < self.triage.items@.len() && spec_needs_reply(self.triage.view_items()[waiting@[q] as int]),
                forall|i: int| 0 <= i < self.triage.items@.len() && spec_needs_reply(#[trigger] self.triage.view_items()[i]) ==> waiting@.contains(i as usize),
                forall|a: int, b: int| 0 <= a < b < waiting@.len() ==> waiting@[a] < waiting@[b],
                forall|q: int| 0 <= q < k ==> !(self.triage.view_items()[#[trigger] waiting@[q] as int].reply is Pending),
            decreases waiting@.len() - k,
        {
            let index = waiting[k];
            if self.triage.items[index].reply.is_pending() {
                proof {
                    assert forall|j: int| 0 <= j < index implies !(spec_needs_reply(#[trigger] self.triage.view_items()[j]) && self.triage.view_items()[j].reply is Pending) by {
                        if spec_needs_reply(self.triage.view_items()[j]) {
                            assert(waiting@.contains(j as usize));
                            let q = choose|q: int| 0 <= q < waiting@.len() && waiting@[q] == j as usize;
                            if q >= k {
                                if q > k { assert(waiting@[k as int] < waiting@[q]); }
                            }
                        }
                    }
                }
                return Some(index);
            }
            k = k + 1;
        }
        proof {
            assert(self.triage.items@.len() == self.triage.items.len());
            assert forall|i: int| 0 <= i < self.triage.items@.len() && spec_needs_reply(#[trigger] self.triage.view_items()[i])
                implies !(self.triage.view_items()[i].reply is Pending) by {
                assert(waiting@.contains(i as usize));
                let q = choose|q: int| 0 <= q < waiting@.len() && waiting@[q] == i as usize;
                assert(!(self.triage.view_items()[waiting@[q] as int].reply is Pending));
            }
            lemma_no_pending_reply(self.triage.view_items());
        }
        None
    }

    /// Move to the next rejected thread still owing a reply, or, with none
    /// left, back to the end-of-triage question.
    fn next_reply(&mut self)
        requires
            old(self).wf(),
        ensures
            final(self).wf(),
            final(self).triage == old(self).triage,
            final(self).outcome == old(self).outcome,
            count(old(self).triage.view_items(), 3) > 0 ==> final(self).mode == Mode::Reply
                && (final(self).reply_target matches Some(i) && spec_needs_reply(old(self).triage.view_items()[i as int])
                    && old(self).triage.view_items()[i as int].reply is Pending)
                && (final(self).minibuffer matches Some(m) && m.prompt@ == "Reply: "@ && m.input@.len() == 0),
            count(old(self).triage.view_items(), 3) == 0 ==> final(self).mode == Mode::Gate && final(self).reply_target is None
                && final(self).minibuffer is None && (final(self).gate matches Some(g) && g.unreplied == 0),
    {
        match self.first_pending_reply() {
            Some(index) => {
                self.reply_target = Some(index);
                self.minibuffer = Some(Minibuffer::new("Reply: "));
                self.mode = Mode::Reply;
                proof { lemma_count_pending_positive(self.triage.view_items(), index as int); }
            },
            None => {
                self.reply_target = None;
                self.minibuffer = None;
                self.mode = Mode::Triage;
                self.open_gate();
            },
        }
    }

    /// Answer the reply under edit. Empty text declines the draft, which
    /// settles it: a declined draft is not offered again.
    fn submit_reply(&mut self)
        requires
            old(self).wf(),
        ensures
            final(self).wf(),
            final(self).outcome == old(self).outcome,
            final(self).triage.cursor == old(self).triage.cursor,
            final(self).triage.view_items() == spec_replied(old(self).triage.view_items(), old(self).minibuffer,
                old(self).reply_target),
    {
        let mini = self.minibuffer.take();
        match (mini, self.reply_target) {
            (Some(m), Some(index)) => {
                if m.is_empty() {
                    self.triage.decline_reply(index);
                } else {
                    self.triage.approve_reply(index, m.input);
                }
            },
            _ => {},
        }
        self.reply_target = None;
        self.next_reply();
    }

    /// Answer yes to ending triage. A rejection still owing a reply diverts
    /// into the reply pass first, so finalize is unattended; otherwise triage
    /// ends with every thread's fate.
    fn close_gate(&mut self)
        requires
            old(self).wf(),
        ensures
            final(self).wf(),
            count(old(self).triage.view_items(), 3) > 0 ==> final(self).outcome == old(self).outcome
                && final(self).mode == Mode::Reply && final(self).triage == old(self).triage,
            count(old(self).triage.view_items(), 3) == 0 ==> final(self).gate is None && (final(self).outcome matches Outcome::Finished(fates)
                && fates@.len() == old(self).triage.items@.len()
                && forall|i: int| 0 <= i < fates@.len() ==> (#[trigger] fates@[i])@.thread == old(self).triage.view_items()[i].thread
                    && fates@[i]@.fate == spec_fate(old(self).triage.view_items()[i])),
    {
        let report = self.triage.gate_report();
        if report.unreplied > 0 {
            self.gate = None;
            self.next_reply();
            return;
        }
        self.gate = None;
        let mut triage = Triage { items: Vec::new(), cursor: 0, skipped_older_patchsets: 0 };
        std::mem::swap(&mut triage, &mut self.triage);
        self.reply_target = None;
        self.outcome = Outcome::Finished(triage.finish());
    }

    /// Back out of whatever is open, deciding nothing.
    fn cancel(&mut self)
        requires
            old(self).wf(),
        ensures
            final(self).wf(),
            final(self).triage == old(self).triage,
            final(self).outcome == old(self).outcome,
            final(self).minibuffer is None,
            final(self).reply_target is None,
            final(self).gate is None,
            final(self).mode == Mode::Triage,
    {
        self.minibuffer = None;
        self.reply_target = None;
        self.gate = None;
        self.mode = Mode::Triage;
    }

    /// Apply one action.
    pub fn handle(&mut self, action: Action)
        requires
            old(self).wf(),
            action == Action::ScrollDocDown ==> old(self).doc_scroll < usize::MAX,
        ensures
            final(self).wf(),
            action == Action::Quit ==> final(self).outcome is Aborted,
            // Triage ends only from the end-of-triage question, and only once no
            // rejection is still waiting for its reply to be approved or declined.
            old(self).outcome is Running && final(self).outcome is Finished ==> action == Action::Confirm
                && old(self).mode == Mode::Gate && count(old(self).triage.view_items(), 3) == 0,
            action != Action::Quit && !(action == Action::Confirm && old(self).mode == Mode::Gate)
                ==> final(self).outcome == old(self).outcome,
            action == Action::Confirm && old(self).mode == Mode::Gate && count(old(self).triage.view_items(), 3) == 0
                ==> (final(self).outcome matches Outcome::Finished(fates) && fates@.len() == old(self).triage.items@.len()
                    && forall|i: int| 0 <= i < fates@.len() ==> (#[trigger] fates@[i])@.fate == spec_fate(old(self).triage.view_items()[i])),
            action == Action::Confirm && old(self).mode == Mode::Gate && count(old(self).triage.view_items(), 3) > 0
                ==> final(self).outcome == old(self).outcome && final(self).mode == Mode::Reply,
            (action matches Action::Decide(d) ==> final(self).triage.view_items() == decided(old(self).triage.view_items(), old(self).triage.cursor as int, d)
                && final(self).doc_scroll == 0 && final(self).mode == old(self).mode),
            action == Action::Next ==> final(self).triage.items == old(self).triage.items && final(self).doc_scroll == 0
                && final(self).triage.cursor == if old(self).triage.cursor + 1 < old(self).triage.items@.len() { old(self).triage.cursor + 1 } else { old(self).triage.cursor as int },
            action == Action::Prev ==> final(self).triage.items == old(self).triage.items && final(self).doc_scroll == 0
                && final(self).triage.cursor == if old(self).triage.cursor > 0 { old(self).triage.cursor - 1 } else { 0 },
            action == Action::NextUndecided && old(self).triage.items@.len() > 0 ==> final(self).triage.items == old(self).triage.items
                && final(self).doc_scroll == 0 && final(self).triage.cursor == spec_next_pending(old(self).triage.view_items(), old(self).triage.cursor as int),
            action == Action::ToggleTree ==> final(self).tree_visible == !old(self).tree_visible,
            action == Action::ScrollDocDown ==> final(self).doc_scroll == old(self).doc_scroll + 1,
            action == Action::ScrollDocUp ==> final(self).doc_scroll == if old(self).doc_scroll > 0 { old(self).doc_scroll - 1 } else { 0 },
            action == Action::ShowWorktreePath ==> (final(self).status matches Some(s) && s@ == "worktree: "@ + old(self).worktree@),
            action == Action::OpenGate ==> final(self).mode == Mode::Gate && final(self).triage == old(self).triage,
            action == Action::Cancel ==> final(self).mode == Mode::Triage && final(self).triage == old(self).triage
                && final(self).minibuffer is None && final(self).gate is None,
            action == Action::Backspace ==> match old(self).minibuffer {
                Some(m) => final(self).minibuffer matches Some(n) && n.prompt == m.prompt
                    && n.input@ == if m.input@.len() > 0 { m.input@.drop_last() } else { m.input@ },
                None => final(self).minibuffer is None,
            },
            action == Action::BeginProseEdit && old(self).triage.items@.len() > 0 ==> final(self).mode == Mode::Prose
                && final(self).triage == old(self).triage && (final(self).minibuffer matches Some(m) && m.prompt@ == "Comment: "@
                && m.input@ == spec_effective_prose(old(self).triage.view_items()[old(self).triage.cursor as int])),
            action == Action::Confirm && old(self).mode == Mode::Prose ==> final(self).mode == Mode::Triage
                && final(self).minibuffer is None && final(self).triage.cursor == old(self).triage.cursor
                && match old(self).minibuffer {
                    Some(m) => if m.input@.len() == 0 || old(self).triage.items@.len() == 0 {
                        final(self).triage.view_items() == old(self).triage.view_items()
                    } else {
                        final(self).triage.view_items() == old(self).triage.view_items().update(old(self).triage.cursor as int,
                            ItemView { edited_prose: Some(m.input@), ..old(self).triage.view_items()[old(self).triage.cursor as int] })
                    },
                    None => final(self).triage.view_items() == old(self).triage.view_items(),
                },
            action == Action::Confirm && old(self).mode == Mode::Reply ==> final(self).triage.view_items()
                == spec_replied(old(self).triage.view_items(), old(self).minibuffer, old(self).reply_target),
            (action matches Action::Input(c) ==> match old(self).minibuffer {
                Some(m) => final(self).minibuffer matches Some(n) && n.input@ == m.input@.push(c) && n.prompt == m.prompt,
                None => final(self).minibuffer is None,
            }),
    {
        self.status = None;
        match action {
            Action::Quit => { self.outcome = Outcome::Aborted; },
            Action::Decide(decision) => self.decide(decision),
            Action::Next => {
                self.triage.next();
                self.doc_scroll = 0;
            },
            Action::Prev => {
                self.triage.prev();
                self.doc_scroll = 0;
            },
            Action::NextUndecided => {
                self.triage.next_undecided();
                self.doc_scroll = 0;
            },
            Action::ToggleTree => { self.tree_visible = !self.tree_visible; },
            Action::ShowWorktreePath => {
                let mut s = String::new();
                push_str(&mut s, "worktree: ");
                push_str(&mut s, self.worktree.as_str());
                self.status = Some(s);
            },
            Action::ScrollDocDown => { self.doc_scroll = self.doc_scroll + 1; },
            Action::ScrollDocUp => { self.doc_scroll = self.doc_scroll.saturating_sub(1); },
            Action::BeginProseEdit => self.begin_prose_edit(),
            Action::OpenGate => self.open_gate(),
            Action::Input(c) => {
                match self.minibuffer {
                    Some(ref mut m) => m.push(c),
                    None => {},
                }
            },
            Action::Backspace => {
                match self.minibuffer {
                    Some(ref mut m) => m.backspace(),
                    None => {},
                }
            },
            Action::Confirm => {
                match self.mode {
                    Mode::Prose => self.submit_prose(),
                    Mode::Reply => self.submit_reply(),
                    Mode::Gate => self.close_gate(),
                    Mode::Triage => {},
                }
            },
            Action::Cancel => self.cancel(),
        }
    }
}

proof fn lemma_count_pending_positive(items: Seq<ItemView>, i: int)
    requires
        0 <= i < items.len(),
        spec_needs_reply(items[i]) && items[i].reply is Pending,
    ensures
        count(items, 3) > 0,
    decreases items.len(),
{
    if i < items.len() - 1 {
        lemma_count_pending_positive(items.drop_last(), i);
    }
}

proof fn lemma_no_pending_reply(items: Seq<ItemView>)
    requires
        forall|i: int| 0 <= i < items.len() && spec_needs_reply(#[trigger] items[i]) ==> !(items[i].reply is Pending),
    ensures
        count(items, 3) == 0,
    decreases items.len(),
{
    if items.len() > 0 {
        let prefix = items.drop_last();
        assert forall|i: int| 0 <= i < prefix.len() && spec_needs_reply(#[trigger] prefix[i]) implies !(prefix[i].reply is Pending) by {
            assert(items[i] == prefix[i]);
        }
        lemma_no_pending_reply(prefix);
    }
}

/// The load notice for a queue.
fn load_notice(triage: &Triage) -> (r: Option<String>)
    ensures
        match r {
            Some(s) => spec_load_notice(triage.skipped_older_patchsets as nat, count(triage.view_items(), 0)) == Some(s@),
            None => spec_load_notice(triage.skipped_older_patchsets as nat, count(triage.view_items(), 0)) is None,
        },
{
    let skipped = triage.skipped_older_patchsets;
    let unadjudicated = triage.unadjudicated();
    if skipped == 0 && unadjudicated == 0 {
        return None;
    }
    let mut s = String::new();
    if skipped > 0 {
        push_decimal(&mut s, skipped as u64);
        push_str(&mut s, " thread(s) on earlier patchsets were NOT triaged");
    }
    if unadjudicated > 0 {
        if skipped > 0 {
            push_str(&mut s, "; ");
        }
        push_decimal(&mut s, unadjudicated as u64);
        push_str(&mut s, " thread(s) have no verdict");
    }
    Some(s)
}

} // verus!
