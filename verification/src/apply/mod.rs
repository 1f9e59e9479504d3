//! Applying accepted fixes, one turn at a time, each confirmed against a diff
//! of exactly what that turn changed.
//!
//! The loop alternates outside work (a turn, a confirmation) with decisions,
//! so it is written as a state machine: [`ApplyRun`] says what to do next and
//! is told what came back. A rejected attempt restores the file to what it
//! held before *that* attempt, never to the original, so an earlier confirmed
//! edit to the same file survives a later rejection.

pub mod files;

pub use files::{FakeWorktree, FilesView, WorktreeFiles};

use vstd::prelude::*;
use crate::diff_view::DiffView;
use crate::driver::{ClaudeDriver, DriverError, SessionId};
use crate::git::{CallView, GitCli};
use crate::driver::spec_driver_error_text;
use crate::git::GitError;
use crate::git::credential::spec_git_error_text;
use crate::gerrit::anchor::{spec_file_path, spec_is_editable};
use crate::gerrit::comment::opt_view;
use crate::submit::fate::{Fate, TriagedThread, TriagedView, triaged_views};
use crate::text::{push_str, copy_string, str_eq};

verus! {

/// What the user said about one turn's diff.
#[derive(Debug, Clone, PartialEq, Eq)]
pub enum ConfirmChoice {
    /// Keep the edit; it is staged.
    Keep,
    /// Undo it and try again with this hint.
    RetryWithHint(String),
    /// Undo it and move on.
    Skip,
}

/// The front end's confirmation of one turn's diff.
pub trait ConfirmEdits {
    fn confirm(&mut self, path: &str, diff: &DiffView) -> ConfirmChoice;
}

/// What applying produced.
#[derive(Debug, Clone, PartialEq, Eq)]
pub struct Applied {
    /// Paths with at least one kept edit, each once, in first-kept order.
    pub staged: Vec<String>,
    pub kept: usize,
    pub skipped: usize,
}

/// Failures applying fixes.
#[derive(Debug, Clone, PartialEq, Eq)]
pub enum ApplyError {
    Driver(DriverError),
    Git(GitError),
    /// A file could not be read or written; names the path.
    Io { path: String, message: String },
}

/// The message describing an apply failure.
pub open spec fn spec_apply_error_text(e: ApplyError) -> Seq<char> {
    match e {
        ApplyError::Driver(d) => spec_driver_error_text(d),
        ApplyError::Git(g) => spec_git_error_text(g),
        ApplyError::Io { path, message } => "could not access "@ + path@ + ": "@ + message@,
    }
}

impl ApplyError {
    /// The human-readable message for this failure.
    pub fn describe(&self) -> (r: String)
        ensures
            r@ == spec_apply_error_text(*self),
    {
        match self {
            ApplyError::Driver(d) => d.describe(),
            ApplyError::Git(g) => g.describe(),
            ApplyError::Io { path, message } => {
                let mut s = String::new();
                push_str(&mut s, "could not access ");
                push_str(&mut s, path.as_str());
                push_str(&mut s, ": ");
                push_str(&mut s, message.as_str());
                s
            },
        }
    }
}

/// Whether a triaged thread gets an apply turn: accepted, on a real file.
/// Hand-fixed threads were already fixed; the pseudo-paths name no file.
pub open spec fn spec_is_applicable(t: TriagedView) -> bool {
    t.fate is Accepted && spec_is_editable(t.thread.anchor)
}

/// The applicable threads, in order.
pub open spec fn spec_applicable(ts: Seq<TriagedView>) -> Seq<TriagedView>
    decreases ts.len(),
{
    if ts.len() == 0 {
        Seq::empty()
    } else {
        let rest = spec_applicable(ts.drop_last());
        if spec_is_applicable(ts.last()) { rest.push(ts.last()) } else { rest }
    }
}

/// The threads that get an apply turn.
pub fn applicable(triaged: &[TriagedThread]) -> (r: Vec<&TriagedThread>)
    ensures
        r@.map_values(|t: &TriagedThread| t@) == spec_applicable(triaged_views(triaged@)),
{
    let mut r: Vec<&TriagedThread> = Vec::new();
    let mut i: usize = 0;
    while i < triaged.len()
        invariant
            i <= triaged@.len(),
            r@.map_values(|t: &TriagedThread| t@) == spec_applicable(triaged_views(triaged@).take(i as int)),
        decreases triaged@.len() - i,
    {
        let item = &triaged[i];
        let ghost tv = triaged_views(triaged@).take(i + 1);
        assert(tv.drop_last() =~= triaged_views(triaged@).take(i as int));
        assert(tv.last() == item@);
        let ok = match item.fate { Fate::Accepted => true, _ => false } && item.thread.anchor.is_editable_file();
        if ok {
            let ghost before = r@;
            r.push(item);
            assert(r@.map_values(|t: &TriagedThread| t@) =~= before.map_values(|t: &TriagedThread| t@).push(item@));
        }
        i = i + 1;
    }
    assert(triaged_views(triaged@).take(triaged@.len() as int) =~= triaged_views(triaged@));
    r
}

/// The prompt of an apply turn. The path alone is named, so the turn reads
/// the file afresh; a hint from a rejected attempt is appended.
pub open spec fn spec_prompt(path: Seq<char>, hint: Option<Seq<char>>) -> Seq<char> {
    let base = "Re-read "@ + path + ", then address the quoted comment there."@;
    match hint {
        Some(h) => base + "\n\nThe previous attempt was rejected: "@ + h,
        None => base,
    }
}

/// The prompt of an apply turn.
pub fn build_prompt(path: &str, hint: Option<&str>) -> (r: String)
    ensures
        r@ == spec_prompt(path@, match hint { Some(h) => Some(h@), None => None }),
{
    let mut prompt = String::new();
    push_str(&mut prompt, "Re-read ");
    push_str(&mut prompt, path);
    push_str(&mut prompt, ", then address the quoted comment there.");
    match hint {
        Some(h) => {
            push_str(&mut prompt, "\n\nThe previous attempt was rejected: ");
            push_str(&mut prompt, h);
        },
        None => {},
    }
    prompt
}

/// What the front end does after a confirmation.
#[derive(Debug, Clone, PartialEq, Eq)]
pub enum Reaction {
    /// Stage the kept edit of `path`.
    Stage { path: String },
    /// Write `contents` back to `path`: the file as it was before this attempt.
    Restore { path: String, contents: String },
}

/// An apply pass in progress over the applicable threads' files.
pub struct ApplyRun {
    /// The file of each applicable thread, in order.
    pub paths: Vec<String>,
    /// How many of them are finished.
    pub next: usize,
    /// The hint for the next attempt, after a rejected one.
    pub hint: Option<String>,
    /// The file as it was when the current attempt began.
    pub snapshot: Option<String>,
    pub applied: Applied,
}

/// `path` added to `staged` unless it is already there.
pub open spec fn staged_after(staged: Seq<Seq<char>>, path: Seq<char>) -> Seq<Seq<char>> {
    if staged.contains(path) { staged } else { staged.push(path) }
}

pub open spec fn string_views(v: Seq<String>) -> Seq<Seq<char>> {
    v.map_values(|s: String| s@)
}

/// What the user's answer about the current attempt does to the pass:
/// keeping stages the file (once) and moves on; retrying keeps the file
/// current and carries the hint; skipping moves on with nothing kept.
pub open spec fn answered(before: ApplyRun, after: ApplyRun, choice: ConfirmChoice) -> bool {
    let path = before.paths@[before.next as int]@;
    &&& after.paths == before.paths
    &&& after.snapshot is None
    &&& match choice {
        ConfirmChoice::Keep => {
            &&& after.next == before.next + 1
            &&& after.hint is None
            &&& after.applied.kept == before.applied.kept + 1
            &&& after.applied.skipped == before.applied.skipped
            &&& string_views(after.applied.staged@) == staged_after(string_views(before.applied.staged@), path)
        },
        ConfirmChoice::RetryWithHint(h) => {
            &&& after.next == before.next
            &&& opt_view(after.hint) == Some(h@)
            &&& after.applied == before.applied
        },
        ConfirmChoice::Skip => {
            &&& after.next == before.next + 1
            &&& after.hint is None
            &&& after.applied.kept == before.applied.kept
            &&& after.applied.skipped == before.applied.skipped + 1
            &&& after.applied.staged == before.applied.staged
        },
    }
}

/// The same answer, variant and hint alike.
pub open spec fn same_choice(a: ConfirmChoice, b: ConfirmChoice) -> bool {
    match (a, b) {
        (ConfirmChoice::Keep, ConfirmChoice::Keep) => true,
        (ConfirmChoice::Skip, ConfirmChoice::Skip) => true,
        (ConfirmChoice::RetryWithHint(x), ConfirmChoice::RetryWithHint(y)) => x@ == y@,
        _ => false,
    }
}

fn copy_choice(c: &ConfirmChoice) -> (r: ConfirmChoice)
    ensures
        same_choice(r, *c),
{
    match c {
        ConfirmChoice::Keep => ConfirmChoice::Keep,
        ConfirmChoice::RetryWithHint(h) => ConfirmChoice::RetryWithHint(copy_string(h)),
        ConfirmChoice::Skip => ConfirmChoice::Skip,
    }
}

impl ApplyRun {
    /// The bookkeeping agrees: every finished file was kept or skipped, and
    /// the staged paths are distinct files of the pass.
    pub open spec fn wf(&self) -> bool {
        &&& self.next <= self.paths@.len()
        &&& self.applied.kept + self.applied.skipped == self.next
        &&& forall|i: int, j: int| 0 <= i < j < self.applied.staged@.len() ==> self.applied.staged@[i]@ != self.applied.staged@[j]@
        &&& forall|i: int| 0 <= i < self.applied.staged@.len() ==> string_views(self.paths@).contains(#[trigger] self.applied.staged@[i]@)
        &&& self.applied.staged@.len() <= self.applied.kept
    }

    /// A pass over the applicable threads of `triaged`.
    pub fn new(triaged: &[TriagedThread]) -> (r: ApplyRun)
        ensures
            r.wf(),
            r.next == 0,
            r.hint is None,
            r.snapshot is None,
            r.applied.staged@.len() == 0,
            string_views(r.paths@) == spec_applicable(triaged_views(triaged@)).map_values(
                |t: TriagedView| spec_file_path(t.thread.anchor)->0),
    {
        let items = applicable(triaged);
        let mut paths: Vec<String> = Vec::new();
        let mut i: usize = 0;
        while i < items.len()
            invariant
                i <= items@.len(),
                items@.map_values(|t: &TriagedThread| t@) == spec_applicable(triaged_views(triaged@)),
                string_views(paths@) == items@.take(i as int).map_values(|t: &TriagedThread| spec_file_path(t@.thread.anchor)->0),
            decreases items@.len() - i,
        {
            let item = items[i];
            proof {
                assert(items@.map_values(|t: &TriagedThread| t@)[i as int] == item@);
                lemma_applicable_is_file(triaged_views(triaged@), i as int);
            }
            let p = match item.thread.anchor.file_path() {
                Some(p) => p.to_owned(),
                None => String::new(),
            };
            let ghost before = paths@;
            paths.push(p);
            assert(string_views(paths@) =~= string_views(before).push(p@));
            assert(items@.take(i + 1).map_values(|t: &TriagedThread| spec_file_path(t@.thread.anchor)->0)
                =~= items@.take(i as int).map_values(|t: &TriagedThread| spec_file_path(t@.thread.anchor)->0).push(p@));
            i = i + 1;
        }
        assert(items@.take(items@.len() as int) =~= items@);
        assert(spec_applicable(triaged_views(triaged@)).map_values(|t: TriagedView| spec_file_path(t.thread.anchor)->0)
            =~= items@.map_values(|t: &TriagedThread| spec_file_path(t@.thread.anchor)->0));
        ApplyRun { paths, next: 0, hint: None, snapshot: None, applied: Applied { staged: Vec::new(), kept: 0, skipped: 0 } }
    }

    /// The file the next attempt is about, or `None` when the pass is done.
    pub fn current_path(&self) -> (r: Option<&str>)
        ensures
            match r {
                Some(p) => self.next < self.paths@.len() && p@ == self.paths@[self.next as int]@,
                None => self.next >= self.paths@.len(),
            },
    {
        if self.next < self.paths.len() {
            Some(self.paths[self.next].as_str())
        } else {
            None
        }
    }

    /// Begin an attempt on the current file, given what it holds now; the
    /// prompt for the turn comes back.
    pub fn begin_attempt(&mut self, snapshot: String) -> (prompt: String)
        requires
            old(self).wf(),
            old(self).next < old(self).paths@.len(),
        ensures
            final(self).wf(),
            final(self).paths == old(self).paths,
            final(self).next == old(self).next,
            final(self).hint == old(self).hint,
            final(self).applied == old(self).applied,
            opt_view(final(self).snapshot) == Some(snapshot@),
            prompt@ == spec_prompt(old(self).paths@[old(self).next as int]@, opt_view(old(self).hint)),
    {
        let prompt = match &self.hint {
            Some(h) => build_prompt(self.paths[self.next].as_str(), Some(h.as_str())),
            None => build_prompt(self.paths[self.next].as_str(), None),
        };
        self.snapshot = Some(snapshot);
        prompt
    }

    /// The diff to confirm: from the file as this attempt began to `edited`,
    /// so it shows only this turn's change.
    pub fn diff(&self, edited: &str) -> (r: DiffView)
        requires
            self.next < self.paths@.len(),
            self.snapshot is Some,
        ensures
            r.wf(),
            r.path@ == self.paths@[self.next as int]@,
            crate::diff_view::row_views(r.rows@) == crate::diff_view::line_changes(
                crate::diff_view::spec_normalize_newlines(self.snapshot->0@),
                crate::diff_view::spec_normalize_newlines(edited@)).map_values(
                |c: (u8, Seq<char>)| crate::diff_view::change_row(c)),
    {
        let before = match &self.snapshot {
            Some(s) => s.as_str(),
            None => "",
        };
        DiffView::new(self.paths[self.next].as_str(), before, edited)
    }

    /// Record the user's answer about the current attempt and say what to do.
    /// Keeping stages the file and moves on; retrying restores the file as
    /// this attempt found it and tries again with the hint; skipping restores
    /// it and moves on.
    pub fn answer(&mut self, choice: ConfirmChoice) -> (r: Reaction)
        requires
            old(self).wf(),
            old(self).next < old(self).paths@.len(),
            old(self).snapshot is Some,
        ensures
            final(self).wf(),
            answered(*old(self), *final(self), choice),
            ({
                let path = old(self).paths@[old(self).next as int]@;
                match choice {
                    ConfirmChoice::Keep => r matches Reaction::Stage { path: p } && p@ == path,
                    _ => r matches Reaction::Restore { path: p, contents } && p@ == path && contents@ == old(self).snapshot->0@,
                }
            }),
    {
        let n = self.paths.len();
        let path = copy_string(&self.paths[self.next]);
        let snapshot = match self.snapshot.take() {
            Some(s) => s,
            None => String::new(),
        };
        match choice {
            ConfirmChoice::Keep => {
                let ghost before = self.applied.staged@;
                if !contains_string(&self.applied.staged, path.as_str()) {
                    self.applied.staged.push(copy_string(&path));
                    assert(string_views(self.applied.staged@) =~= string_views(before).push(path@));
                    assert forall|i: int| 0 <= i < self.applied.staged@.len() implies string_views(self.paths@).contains(#[trigger] self.applied.staged@[i]@) by {
                        if i == before.len() {
                            assert(string_views(self.paths@)[self.next as int] == path@);
                        } else {
                            assert(self.applied.staged@[i] == before[i]);
                        }
                    }
                    assert forall|i: int, j: int| 0 <= i < j < self.applied.staged@.len() implies self.applied.staged@[i]@ != self.applied.staged@[j]@ by {
                        if j == before.len() {
                            assert(string_views(before)[i] == before[i]@);
                        }
                    }
                }
                self.applied.kept = self.applied.kept + 1;
                self.next = self.next + 1;
                self.hint = None;
                Reaction::Stage { path }
            },
            ConfirmChoice::RetryWithHint(h) => {
                self.hint = Some(h);
                Reaction::Restore { path, contents: snapshot }
            },
            ConfirmChoice::Skip => {
                self.applied.skipped = self.applied.skipped + 1;
                self.next = self.next + 1;
                self.hint = None;
                Reaction::Restore { path, contents: snapshot }
            },
        }
    }

    /// Whether every applicable file is finished.
    pub fn is_done(&self) -> (r: bool)
        ensures
            r == (self.next >= self.paths@.len()),
    {
        self.next >= self.paths.len()
    }

    /// One attempt on the current file: read it as it stands, run the apply
    /// turn with this attempt's prompt, take in the turn's edits, show the
    /// user the diff of exactly what the turn changed, and act on the answer
    /// — stage a kept edit, or write the file back as the attempt found it.
    /// The answer comes back.
    /// A failed turn stops the attempt before anything is shown.
    pub fn attempt<D: ClaudeDriver, W: WorktreeFiles, G: GitCli, C: ConfirmEdits>(
        &mut self,
        driver: &mut D,
        git: &mut G,
        files: &mut W,
        worktree_root: &str,
        session: &SessionId,
        confirm: &mut C,
    ) -> (r: Result<ConfirmChoice, ApplyError>)
        requires
            old(self).wf(),
            old(self).next < old(self).paths@.len(),
        ensures
            final(self).wf(),
            final(self).paths == old(self).paths,
            r is Ok ==> final(driver).prompts() == old(driver).prompts().push(
                spec_prompt(old(self).paths@[old(self).next as int]@, opt_view(old(self).hint))),
            match r {
                Ok(choice) => {
                    &&& answered(*old(self), *final(self), choice)
                    // A retried or skipped turn leaves the file as the
                    // attempt found it.
                    &&& !(choice is Keep) ==> final(files).seen().contains_key(old(self).paths@[old(self).next as int]@)
                        && final(files).seen()[old(self).paths@[old(self).next as int]@]
                            == old(files).seen()[old(self).paths@[old(self).next as int]@]
                    &&& final(git).applied() == if choice is Keep {
                        old(git).applied().push(CallView::Stage {
                            worktree: worktree_root@,
                            path: old(self).paths@[old(self).next as int]@,
                        })
                    } else {
                        old(git).applied()
                    }
                },
                // A failed turn stops the attempt: nothing is answered,
                // staged or counted.
                Err(ApplyError::Driver(_)) => {
                    &&& final(self).next == old(self).next
                    &&& final(self).hint == old(self).hint
                    &&& final(self).applied == old(self).applied
                    &&& final(git).applied() == old(git).applied()
                    &&& final(files).seen() == old(files).seen()
                },
                // A file that cannot be read or written stages nothing.
                Err(ApplyError::Io { .. }) => final(git).applied() == old(git).applied(),
                // Staging a kept edit failed: the answer was Keep, and git
                // recorded nothing.
                Err(ApplyError::Git(_)) => {
                    &&& answered(*old(self), *final(self), ConfirmChoice::Keep)
                    &&& final(git).applied() == old(git).applied()
                },
            },
    {
        let path = copy_string(&self.paths[self.next]);
        let snapshot = match files.read(path.as_str()) {
            Ok(s) => s,
            Err(e) => return Err(e),
        };
        let prompt = self.begin_attempt(snapshot);
        match driver.apply_turn(session, prompt.as_str(), worktree_root) {
            Ok(envelope) => match envelope.payload("apply") {
                Ok(()) => {},
                Err(e) => return Err(ApplyError::Driver(e)),
            },
            Err(e) => return Err(ApplyError::Driver(e)),
        }
        files.reload();
        let edited = match files.read(path.as_str()) {
            Ok(s) => s,
            Err(e) => return Err(e),
        };
        let diff = self.diff(edited.as_str());
        let choice = confirm.confirm(path.as_str(), &diff);
        let answer = copy_choice(&choice);
        match self.answer(choice) {
            Reaction::Stage { path: p } => match git.stage(worktree_root, p.as_str()) {
                Ok(()) => {},
                Err(e) => return Err(ApplyError::Git(e)),
            },
            Reaction::Restore { path: p, contents } => match files.write(p.as_str(), contents.as_str()) {
                Ok(()) => {},
                Err(e) => return Err(e),
            },
        }
        Ok(answer)
    }
}

/// Only an accepted thread on a real file gets an apply turn: rejected,
/// skipped and hand-fixed threads, and the pseudo-paths, get none.
pub proof fn lemma_applicable_is_file(ts: Seq<TriagedView>, i: int)
    requires
        0 <= i < spec_applicable(ts).len(),
    ensures
        spec_is_applicable(spec_applicable(ts)[i]),
    decreases ts.len(),
{
    if ts.len() > 0 {
        let rest = spec_applicable(ts.drop_last());
        if i < rest.len() {
            lemma_applicable_is_file(ts.drop_last(), i);
        }
    }
}

/// Every accepted thread on a real file gets its apply turn, in the order
/// triage left them.
pub proof fn lemma_accepted_files_are_applied(ts: Seq<TriagedView>)
    ensures
        forall|k: int| 0 <= k < ts.len() && spec_is_applicable(#[trigger] ts[k]) ==> spec_applicable(ts).contains(ts[k]),
        spec_applicable(ts).len() <= ts.len(),
    decreases ts.len(),
{
    if ts.len() > 0 {
        let prev = ts.drop_last();
        lemma_accepted_files_are_applied(prev);
        let rest = spec_applicable(prev);
        assert forall|k: int| 0 <= k < ts.len() && spec_is_applicable(#[trigger] ts[k]) implies spec_applicable(ts).contains(ts[k]) by {
            if k < ts.len() - 1 {
                assert(ts[k] == prev[k]);
                let w = choose|w: int| 0 <= w < rest.len() && rest[w] == prev[k];
                assert(spec_applicable(ts)[w] == rest[w]);
            } else {
                assert(spec_applicable(ts)[rest.len() as int] == ts.last());
            }
        }
    }
}

fn contains_string(v: &Vec<String>, s: &str) -> (r: bool)
    ensures
        r == string_views(v@).contains(s@),
{
    let mut i: usize = 0;
    while i < v.len()
        invariant
            i <= v@.len(),
            forall|k: int| 0 <= k < i ==> (#[trigger] v@[k])@ != s@,
        decreases v@.len() - i,
    {
        if str_eq(v[i].as_str(), s) {
            assert(string_views(v@)[i as int] == s@);
            return true;
        }
        i = i + 1;
    }
    proof {
        let m = string_views(v@);
        if m.contains(s@) {
            let k = choose|k: int| 0 <= k < m.len() && m[k] == s@;
            assert(v@[k]@ == s@);
        }
    }
    false
}

} // verus!
