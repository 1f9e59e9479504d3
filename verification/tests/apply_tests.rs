use std::cell::RefCell;
use std::rc::Rc;

use remendo::apply::{ApplyError, ApplyRun, Applied, ConfirmChoice, ConfirmEdits, FakeWorktree, FilesView, WorktreeFiles};
use remendo::diff_view::{DiffRow, DiffView};
use remendo::driver::{ClaudeDriver, DriverError, Envelope, FakeDriver, PromptLog, SessionId};
use remendo::gerrit::thread::assemble;
use remendo::gerrit::Comment;
use remendo::git::{FakeGit, GitCall, GitCli};
use remendo::submit::{Fate, TriagedThread};

/// Files that the pass and the driver both see, as a real worktree is.
#[derive(Clone)]
struct SharedFiles(Rc<RefCell<FakeWorktree>>);

impl SharedFiles {
    fn with(files: &[(&str, &str)]) -> SharedFiles {
        SharedFiles(Rc::new(RefCell::new(FakeWorktree::with_files(files))))
    }

    fn contents(&self, path: &str) -> Option<String> {
        self.0.borrow().contents(path)
    }
}

impl WorktreeFiles for SharedFiles {
    fn seen(&self) -> FilesView {
        unreachable!("a proof-only view")
    }
    fn reload(&mut self) {}
    fn read(&self, path: &str) -> Result<String, ApplyError> {
        self.0.borrow().read(path)
    }
    fn write(&mut self, path: &str, contents: &str) -> Result<(), ApplyError> {
        self.0.borrow_mut().write(path, contents)
    }
}

/// A `FakeDriver` whose apply turns edit the shared files.
struct SharedDriver {
    inner: FakeDriver,
    files: SharedFiles,
}

impl SharedDriver {
    fn over(files: &SharedFiles, edits: &[(&str, &str)]) -> SharedDriver {
        let mut inner = FakeDriver::new(FakeWorktree::new());
        for (path, contents) in edits {
            inner = inner.editing(path, contents);
        }
        SharedDriver { inner, files: files.clone() }
    }
}

impl ClaudeDriver for SharedDriver {
    fn prompts(&self) -> PromptLog {
        self.inner.prompts()
    }
    fn verdict_turn(&mut self, session: &SessionId, prompt: &str) -> Result<Envelope<String>, DriverError> {
        self.inner.verdict_turn(session, prompt)
    }
    fn apply_turn(&mut self, session: &SessionId, prompt: &str, worktree: &str) -> Result<Envelope<()>, DriverError> {
        self.inner.worktree = self.files.0.borrow().clone();
        let result = self.inner.apply_turn(session, prompt, worktree);
        *self.files.0.borrow_mut() = self.inner.worktree.clone();
        result
    }
    fn reply_turn(&mut self, session: &SessionId, prompt: &str) -> Result<Envelope<String>, DriverError> {
        self.inner.reply_turn(session, prompt)
    }
}

/// A confirmation that answers from a script, recording the changed lines
/// it was shown.
struct ScriptedConfirm {
    answers: Vec<ConfirmChoice>,
    seen: Vec<(String, Vec<String>)>,
}

impl ScriptedConfirm {
    fn new(answers: Vec<ConfirmChoice>) -> ScriptedConfirm {
        ScriptedConfirm { answers, seen: Vec::new() }
    }
}

impl ConfirmEdits for ScriptedConfirm {
    fn confirm(&mut self, path: &str, diff: &DiffView) -> ConfirmChoice {
        let changed = diff
            .rows
            .iter()
            .filter_map(|row| match row {
                DiffRow::Delete(t) | DiffRow::Insert(t) => Some(t.clone()),
                DiffRow::Equal(_) => None,
            })
            .collect();
        self.seen.push((path.to_string(), changed));
        if self.answers.is_empty() { ConfirmChoice::Skip } else { self.answers.remove(0) }
    }
}

fn accepted(path: &str, id: &str) -> TriagedThread {
    let comment = Comment { unresolved: true, patch_set: 3, line: Some(1), ..Comment::with_id(id) };
    TriagedThread { thread: assemble(path, vec![comment]).remove(0), fate: Fate::Accepted }
}

fn session() -> SessionId {
    SessionId("test-session".into())
}

/// The whole pass: attempts until every accepted file is finished.
fn apply_all<D: ClaudeDriver, W: WorktreeFiles, G: GitCli, C: ConfirmEdits>(
    driver: &mut D,
    git: &mut G,
    files: &mut W,
    triaged: &[TriagedThread],
    confirm: &mut C,
) -> Result<Applied, ApplyError> {
    let mut run = ApplyRun::new(triaged);
    while !run.is_done() {
        run.attempt(driver, git, files, "/wt", &session(), confirm)?;
    }
    Ok(run.applied)
}

#[test]
fn a_confirmed_edit_is_kept_and_staged() {
    let mut wt = SharedFiles::with(&[("a.rs", "fn a() {}\n")]);
    let mut driver = SharedDriver::over(&wt, &[("a.rs", "fn a() { one(); }\n")]);
    let mut git = FakeGit::in_clone("/repo", "u");
    let mut confirm = ScriptedConfirm::new(vec![ConfirmChoice::Keep]);

    let applied = apply_all(&mut driver, &mut git, &mut wt, &[accepted("a.rs", "c1")], &mut confirm).unwrap();

    assert_eq!(applied.kept, 1);
    assert_eq!(applied.staged, vec!["a.rs".to_string()]);
    assert_eq!(wt.contents("a.rs").unwrap(), "fn a() { one(); }\n");
    assert!(git.calls().contains(&GitCall::Stage { worktree: "/wt".into(), path: "a.rs".into() }));
}

#[test]
fn a_skipped_edit_is_reverted_and_not_staged() {
    let mut wt = SharedFiles::with(&[("a.rs", "original\n")]);
    let mut driver = SharedDriver::over(&wt, &[("a.rs", "unwanted\n")]);
    let mut git = FakeGit::in_clone("/repo", "u");
    let mut confirm = ScriptedConfirm::new(vec![ConfirmChoice::Skip]);

    let applied = apply_all(&mut driver, &mut git, &mut wt, &[accepted("a.rs", "c1")], &mut confirm).unwrap();

    assert_eq!(applied.skipped, 1);
    assert!(applied.staged.is_empty());
    assert_eq!(wt.contents("a.rs").unwrap(), "original\n");
    assert!(git.calls().is_empty(), "nothing staged");
}

#[test]
fn the_confirm_diff_shows_only_this_turns_change() {
    let mut wt = SharedFiles::with(&[("a.rs", "fn a() {}\nfn b() {}\n")]);
    let mut driver = SharedDriver::over(
        &wt,
        &[("a.rs", "fn a() { one(); }\nfn b() {}\n"), ("a.rs", "fn a() { one(); }\nfn b() { two(); }\n")],
    );
    let mut git = FakeGit::in_clone("/repo", "u");
    let mut confirm = ScriptedConfirm::new(vec![ConfirmChoice::Keep, ConfirmChoice::Keep]);

    apply_all(&mut driver, &mut git, &mut wt, &[accepted("a.rs", "c1"), accepted("a.rs", "c2")], &mut confirm).unwrap();

    let second_diff = &confirm.seen[1].1;
    assert!(
        second_diff.iter().all(|line| line.contains("fn b()")),
        "comment 2's diff leaked comment 1's work: {second_diff:?}"
    );
}

#[test]
fn a_retry_reverts_then_runs_again_with_the_hint() {
    let mut wt = SharedFiles::with(&[("a.rs", "original\n")]);
    let mut driver = SharedDriver::over(&wt, &[("a.rs", "first attempt\n"), ("a.rs", "second attempt\n")]);
    let mut git = FakeGit::in_clone("/repo", "u");
    let mut confirm =
        ScriptedConfirm::new(vec![ConfirmChoice::RetryWithHint("too broad".into()), ConfirmChoice::Keep]);

    let applied = apply_all(&mut driver, &mut git, &mut wt, &[accepted("a.rs", "c1")], &mut confirm).unwrap();

    assert_eq!(applied.kept, 1);
    assert_eq!(wt.contents("a.rs").unwrap(), "second attempt\n");
    let turns = driver.inner.turns();
    assert_eq!(turns.len(), 2);
    assert!(turns[1].contains("too broad"), "the hint reaches the retry: {:?}", turns[1]);
    assert!(!turns[1].contains("first attempt"), "the rejected attempt was reverted before retrying");
    assert_eq!(confirm.seen[1].1, vec!["original".to_string(), "second attempt".to_string()]);
}

#[test]
fn a_file_touched_by_two_comments_is_staged_once() {
    let mut wt = SharedFiles::with(&[("a.rs", "0\n")]);
    let mut driver = SharedDriver::over(&wt, &[("a.rs", "1\n"), ("a.rs", "2\n")]);
    let mut git = FakeGit::in_clone("/repo", "u");
    let mut confirm = ScriptedConfirm::new(vec![ConfirmChoice::Keep, ConfirmChoice::Keep]);

    let applied =
        apply_all(&mut driver, &mut git, &mut wt, &[accepted("a.rs", "c1"), accepted("a.rs", "c2")], &mut confirm)
            .unwrap();

    assert_eq!(applied.kept, 2);
    assert_eq!(applied.staged, vec!["a.rs".to_string()], "one path entry");
}

#[test]
fn a_failed_turn_stops_rather_than_confirming_nothing() {
    let mut wt = SharedFiles::with(&[("a.rs", "original\n")]);
    let mut driver = SharedDriver::over(&wt, &[]);
    driver.inner = driver.inner.failing();
    let mut git = FakeGit::in_clone("/repo", "u");
    let mut confirm = ScriptedConfirm::new(vec![ConfirmChoice::Keep]);

    let err = apply_all(&mut driver, &mut git, &mut wt, &[accepted("a.rs", "c1")], &mut confirm).unwrap_err();

    assert!(matches!(err, ApplyError::Driver(_)));
    assert!(confirm.seen.is_empty(), "no diff shown for a failed turn");
    assert_eq!(wt.contents("a.rs").unwrap(), "original\n");
}

#[test]
fn an_attempt_returns_the_answer_and_prompts_with_the_path() {
    let mut wt = SharedFiles::with(&[("b.rs", "x\n")]);
    let mut driver = SharedDriver::over(&wt, &[("b.rs", "y\n")]);
    let mut git = FakeGit::in_clone("/repo", "u");
    let mut confirm = ScriptedConfirm::new(vec![ConfirmChoice::RetryWithHint("narrower".into())]);
    let mut run = ApplyRun::new(&[accepted("b.rs", "c1")]);

    let answer = run.attempt(&mut driver, &mut git, &mut wt, "/wt", &session(), &mut confirm).unwrap();

    assert_eq!(answer, ConfirmChoice::RetryWithHint("narrower".into()));
    assert_eq!(driver.inner.turns(), vec!["Re-read b.rs, then address the quoted comment there.".to_string()]);
    assert_eq!(wt.contents("b.rs").unwrap(), "x\n", "restored for the retry");
    assert!(!run.is_done());
    assert_eq!(run.hint, Some("narrower".to_string()));
}

#[test]
fn rejecting_comment_two_preserves_comment_ones_confirmed_edit() {
    let baseline = "fn a() {}\nfn b() {}\n";
    let after_one = "fn a() { one(); }\nfn b() {}\n";
    let after_two = "fn a() { one(); }\nfn b() { two(); }\n";
    let mut wt = SharedFiles::with(&[("a.rs", baseline)]);
    let mut driver = SharedDriver::over(&wt, &[("a.rs", after_one), ("a.rs", after_two)]);
    let mut git = FakeGit::in_clone("/repo", "u");
    let mut confirm = ScriptedConfirm::new(vec![ConfirmChoice::Keep, ConfirmChoice::Skip]);

    let applied =
        apply_all(&mut driver, &mut git, &mut wt, &[accepted("a.rs", "c1"), accepted("a.rs", "c2")], &mut confirm)
            .unwrap();

    assert_eq!(applied.kept, 1);
    assert_eq!(applied.skipped, 1);
    assert_eq!(
        wt.contents("a.rs").unwrap(),
        after_one,
        "comment 1's confirmed edit must survive comment 2's rejection"
    );
    assert!(wt.contents("a.rs").unwrap().contains("one();"), "the destroyed-work regression this test exists for");
}
