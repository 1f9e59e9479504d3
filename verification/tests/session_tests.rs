use remendo::apply::{ApplyRun, ConfirmChoice, FakeWorktree, Reaction, WorktreeFiles, applicable};
use remendo::diff_view::{DiffRow, DiffView, Hunk, build_hunks, build_rows};
use remendo::driver::{ClaudeDriver, DriverError, Envelope, FakeDriver, SessionId};
use remendo::gerrit::thread::assemble;
use remendo::gerrit::{ChangeInfo, Comment, FakeGerrit, RevisionInfo, Thread};
use remendo::git::{CallLog, Credential, CredentialAnswer, FakeGit, GitCall, GitCli, GitError, OptionalAnswer, TextAnswer};
use remendo::text::Text;
use remendo::minibuffer::Minibuffer;
use remendo::submit::{Fate, SubmitError, TriagedThread, finalize, revision_check};
use remendo::workspace::{CacheKey, VerdictCache, SessionPaths, Workspace, WorkspaceError, check_clone, open, state_dir_from, validate};
use remendo::workspace::cache::CACHE_VERSION;

#[test]
fn a_fake_worktree_round_trips_a_file() {
    let mut wt = FakeWorktree::with_files(&[("a.rs", "fn a() {}\n")]);
    assert_eq!(wt.read("a.rs").unwrap(), "fn a() {}\n");
    wt.write("a.rs", "fn a() { one(); }\n").unwrap();
    assert_eq!(wt.read("a.rs").unwrap(), "fn a() { one(); }\n");
}

#[test]
fn a_missing_file_names_itself() {
    let err = FakeWorktree::new().read("nope.rs").unwrap_err();
    assert!(err.describe().contains("nope.rs"), "{}", err.describe());
}

#[test]
fn a_later_fixture_for_the_same_path_wins() {
    let wt = FakeWorktree::with_files(&[("a.rs", "one"), ("a.rs", "two")]);
    assert_eq!(wt.contents("a.rs").unwrap(), "two");
    assert_eq!(wt.contents("b.rs"), None);
}

#[test]
fn pure_add_is_all_inserts_on_the_right() {
    let rows = build_rows("", "a\nb\n");
    assert_eq!(rows, vec![DiffRow::Insert("a".into()), DiffRow::Insert("b".into())]);
}

#[test]
fn pure_delete_is_all_deletes_on_the_left() {
    let rows = build_rows("a\nb\n", "");
    assert_eq!(rows, vec![DiffRow::Delete("a".into()), DiffRow::Delete("b".into())]);
}

#[test]
fn mixed_change_keeps_equal_lines_aligned() {
    let rows = build_rows("keep\nold\ntail\n", "keep\nnew\ntail\n");
    assert_eq!(
        rows,
        vec![
            DiffRow::Equal("keep".into()),
            DiffRow::Delete("old".into()),
            DiffRow::Insert("new".into()),
            DiffRow::Equal("tail".into()),
        ]
    );
}

#[test]
fn crlf_does_not_create_spurious_diffs() {
    let rows = build_rows("a\r\nb\r\n", "a\nb\n");
    assert!(rows.iter().all(|r| matches!(r, DiffRow::Equal(_))));
}

#[test]
fn hunks_group_contiguous_changes() {
    let rows = vec![
        DiffRow::Equal("0".into()),
        DiffRow::Delete("1".into()),
        DiffRow::Insert("2".into()),
        DiffRow::Equal("3".into()),
        DiffRow::Equal("4".into()),
        DiffRow::Insert("5".into()),
    ];
    let hunks = build_hunks(&rows);
    assert_eq!(hunks, vec![Hunk { start: 1, end: 3 }, Hunk { start: 5, end: 6 }]);
}

#[test]
fn next_prev_hunk_wraps_and_scrolls() {
    let mut v = DiffView::new("a.rs", "0\nsame\n", "same\n2\n");
    assert_eq!(v.hunk_count(), 2);
    v.next_hunk();
    assert_eq!(v.current_hunk, 1);
    assert_eq!(v.scroll_offset(), v.hunks[1].start);
    v.next_hunk();
    assert_eq!(v.current_hunk, 0);
    assert_eq!(v.scroll_offset(), v.hunks[0].start);
    v.prev_hunk();
    assert_eq!(v.current_hunk, 1);
}

#[test]
fn hunk_navigation_on_an_unchanged_pair_is_inert() {
    let mut v = DiffView::new("a.rs", "same\n", "same\n");
    assert!(v.is_empty());
    v.next_hunk();
    v.prev_hunk();
    assert_eq!(v.scroll_offset(), 0);
}

#[test]
fn scrolling_clamps_at_both_ends() {
    let mut v = DiffView::new("a.rs", "a\nb\nc\n", "a\nB\nc\n");
    v.scroll_up();
    assert_eq!(v.scroll_offset(), 0);
    v.page_down();
    assert_eq!(v.scroll_offset(), v.rows.len() - 1);
    v.scroll_down();
    assert_eq!(v.scroll_offset(), v.rows.len() - 1);
}

#[test]
fn diff_is_against_the_supplied_before_not_an_original() {
    let baseline = "fn a() {}\nfn b() {}\n";
    let after_first = "fn a() { one(); }\nfn b() {}\n";
    let after_second = "fn a() { one(); }\nfn b() { two(); }\n";
    let view = DiffView::new("a.rs", after_first, after_second);
    let changed: Vec<_> = view.rows.iter().filter(|r| r.is_change()).collect();
    assert_eq!(changed.len(), 2, "only comment 2's line should differ");
    assert!(changed.iter().all(|r| match r {
        DiffRow::Delete(t) | DiffRow::Insert(t) => t.contains("fn b()"),
        DiffRow::Equal(_) => false,
    }));
    let wrong = DiffView::new("a.rs", baseline, after_second);
    let leaked = wrong.rows.iter().any(|r| match r {
        DiffRow::Delete(t) | DiffRow::Insert(t) => t.contains("one();"),
        DiffRow::Equal(_) => false,
    });
    assert!(leaked, "baseline diff contains comment 1's confirmed edit");
}

fn session() -> SessionId {
    SessionId("s".into())
}

#[test]
fn an_apply_turn_edits_the_driven_worktree() {
    let wt = FakeWorktree::with_files(&[("a.rs", "before\n")]);
    let mut driver = FakeDriver::new(wt).editing("a.rs", "after\n");
    driver.apply_turn(&session(), "do it", "/wt").unwrap();
    assert_eq!(driver.worktree.read("a.rs").unwrap(), "after\n");
}

#[test]
fn queued_edits_are_applied_in_order() {
    let wt = FakeWorktree::with_files(&[("a.rs", "0\n")]);
    let mut driver = FakeDriver::new(wt).editing("a.rs", "1\n").editing("a.rs", "2\n");
    driver.apply_turn(&session(), "", "/wt").unwrap();
    assert_eq!(driver.worktree.read("a.rs").unwrap(), "1\n");
    driver.apply_turn(&session(), "", "/wt").unwrap();
    assert_eq!(driver.worktree.read("a.rs").unwrap(), "2\n");
}

#[test]
fn a_turn_with_no_queued_edit_leaves_the_file_alone() {
    let wt = FakeWorktree::with_files(&[("a.rs", "unchanged\n")]);
    let mut driver = FakeDriver::new(wt);
    driver.apply_turn(&session(), "", "/wt").unwrap();
    assert_eq!(driver.worktree.read("a.rs").unwrap(), "unchanged\n");
}

#[test]
fn a_failing_driver_reports_through_the_envelope() {
    let wt = FakeWorktree::with_files(&[("a.rs", "before\n")]);
    let mut driver = FakeDriver::new(wt).editing("a.rs", "after\n").failing();
    let envelope = driver.apply_turn(&session(), "", "/wt").unwrap();
    assert!(envelope.is_error);
    assert!(envelope.payload("apply").is_err());
    assert_eq!(driver.worktree.read("a.rs").unwrap(), "before\n", "a failed turn must not have edited");
}

#[test]
fn prompts_are_recorded_in_order() {
    let mut driver = FakeDriver::new(FakeWorktree::new());
    driver.verdict_turn(&session(), "adjudicate").unwrap();
    driver.reply_turn(&session(), "draft a reply").unwrap();
    assert_eq!(driver.turns(), vec!["adjudicate", "draft a reply"]);
}

#[test]
fn a_reply_turn_returns_its_canned_text() {
    let mut driver = FakeDriver::new(FakeWorktree::new()).replying("Bounded at 8 items.");
    let reply = driver.reply_turn(&session(), "").unwrap().payload("reply").unwrap();
    assert_eq!(reply, "Bounded at 8 items.");
}

#[test]
fn a_successful_envelope_yields_its_payload() {
    let envelope = Envelope { is_error: false, structured_output: Some(42) };
    assert_eq!(envelope.payload("verdict").unwrap(), 42);
}

#[test]
fn a_failed_envelope_is_surfaced_rather_than_parsed() {
    let envelope: Envelope<i32> = Envelope { is_error: true, structured_output: None };
    let err = envelope.payload("verdict").unwrap_err();
    assert!(err.describe().contains("verdict"), "names the turn");
}

#[test]
fn a_missing_payload_is_an_error_not_an_empty_value() {
    let envelope: Envelope<Vec<i32>> = Envelope { is_error: false, structured_output: None };
    assert!(matches!(envelope.payload("verdict"), Err(DriverError::NoStructuredOutput { .. })));
}

#[test]
fn a_session_id_reads_back() {
    assert_eq!(SessionId("abc".into()).as_str(), "abc");
}

fn paths(project: &str, change: &str) -> Result<SessionPaths, WorkspaceError> {
    SessionPaths::new("/state", project, change)
}

#[test]
fn a_session_nests_project_then_change() {
    let p = paths("platform/base", "12345").unwrap();
    assert_eq!(p.root, "/state/remendo/platform/base/12345");
    assert_eq!(p.worktree(), "/state/remendo/platform/base/12345/worktree");
    assert_eq!(p.verdicts(), "/state/remendo/platform/base/12345/verdicts.json");
}

#[test]
fn the_cache_sits_beside_the_worktree_not_inside_it() {
    let p = paths("proj", "1").unwrap();
    assert!(!p.verdicts().starts_with(&p.worktree()));
    assert!(p.verdicts().starts_with(&format!("{}/", p.root)));
}

#[test]
fn different_changes_get_different_sessions() {
    assert_ne!(paths("proj", "1").unwrap(), paths("proj", "2").unwrap());
    assert_ne!(paths("a", "1").unwrap(), paths("b", "1").unwrap());
}

#[test]
fn traversal_in_a_project_name_is_refused() {
    for bad in ["../../etc", "a/../../b", "..", "a/./b", "a//b"] {
        let err = paths(bad, "1").unwrap_err();
        assert!(matches!(err, WorkspaceError::UnsafeName { .. }), "{bad} was accepted");
        assert!(err.describe().contains(bad), "error names the value");
    }
}

#[test]
fn traversal_in_a_change_id_is_refused() {
    assert!(paths("proj", "../../etc").is_err());
    assert!(paths("proj", "").is_err());
}

#[test]
fn surrounding_slashes_are_tolerated() {
    assert_eq!(paths("/proj/", "1").unwrap().root, "/state/remendo/proj/1");
}

#[test]
fn a_backslash_in_a_name_is_refused() {
    assert!(paths("a\\b", "1").is_err());
}

fn change(revision: &str, patch_set: u32) -> ChangeInfo {
    ChangeInfo {
        project: "proj".into(),
        branch: "main".into(),
        current_revision: revision.into(),
        revisions: vec![(revision.into(), RevisionInfo { number: patch_set, git_ref: Some(format!("refs/changes/45/12345/{patch_set}")) })],
        ..ChangeInfo::with_id("12345")
    }
}

fn workspace() -> Workspace {
    Workspace { change: change("sha3", 3), paths: SessionPaths::new("/state", "proj", "12345").unwrap(), resumed: false }
}

fn thread(id: &str) -> Thread {
    let comment = Comment { unresolved: true, patch_set: 3, line: Some(10), ..Comment::with_id(id) };
    assemble("src/a.rs", vec![comment]).remove(0)
}

fn accepted(id: &str) -> TriagedThread {
    TriagedThread { thread: thread(id), fate: Fate::Accepted }
}

#[test]
fn a_clean_finalize_stages_amends_pushes_then_posts_once() {
    let mut git = FakeGit::in_clone("/repo", "u");
    let mut api = FakeGerrit::serving(change("sha3", 3));
    let ws = workspace();
    let done = finalize(&mut git, &mut api, &ws, &[accepted("c1")], &["src/a.rs".to_string()], None).unwrap();
    assert_eq!(done.branch, "main");
    assert_eq!(done.resolved, 1);
    assert_eq!(
        git.calls(),
        vec![
            GitCall::Stage { worktree: ws.worktree(), path: "src/a.rs".into() },
            GitCall::CommitAmend { worktree: ws.worktree(), message: None },
            GitCall::Push { worktree: ws.worktree(), refspec: "HEAD:refs/for/main".into() },
        ]
    );
    assert_eq!(api.posted_reviews().len(), 1, "exactly one batched post");
}

#[test]
fn a_change_that_moved_during_triage_aborts_before_anything_happens() {
    let mut git = FakeGit::in_clone("/repo", "u");
    let mut api = FakeGerrit::serving(change("sha4", 4));
    let err = finalize(&mut git, &mut api, &workspace(), &[accepted("c1")], &[], None).unwrap_err();
    let msg = err.describe();
    assert!(msg.contains("sha3"), "names what was reviewed: {msg}");
    assert!(msg.contains("sha4"), "names what it is now: {msg}");
    assert!(git.calls().is_empty(), "nothing staged, amended or pushed");
    assert!(api.posted_reviews().is_empty(), "nothing settled");
}

struct RejectingGit(FakeGit);

impl GitCli for RejectingGit {
    fn applied(&self) -> CallLog {
        self.0.applied()
    }
    fn root_answer(&self, r: TextAnswer) -> bool {
        self.0.root_answer(r)
    }
    fn remote_answer(&self, remote: Text, r: TextAnswer) -> bool {
        self.0.remote_answer(remote, r)
    }
    fn config_answer(&self, key: Text, r: OptionalAnswer) -> bool {
        self.0.config_answer(key, r)
    }
    fn credential_answer(&self, host: Text, r: CredentialAnswer) -> bool {
        self.0.credential_answer(host, r)
    }
    fn repo_root(&self) -> Result<String, GitError> {
        self.0.repo_root()
    }
    fn remote_url(&self, r: &str) -> Result<String, GitError> {
        self.0.remote_url(r)
    }
    fn config_get(&self, k: &str) -> Result<Option<String>, GitError> {
        self.0.config_get(k)
    }
    fn fill_credential(&self, h: &str) -> Result<Credential, GitError> {
        self.0.fill_credential(h)
    }
    fn fetch(&mut self, r: &str, s: &str) -> Result<(), GitError> {
        self.0.fetch(r, s)
    }
    fn worktree_add(&mut self, p: &str, r: &str) -> Result<(), GitError> {
        self.0.worktree_add(p, r)
    }
    fn stage(&mut self, w: &str, p: &str) -> Result<(), GitError> {
        self.0.stage(w, p)
    }
    fn commit_amend(&mut self, w: &str, m: Option<&str>) -> Result<(), GitError> {
        self.0.commit_amend(w, m)
    }
    fn push(&mut self, _w: &str, _r: &str) -> Result<(), GitError> {
        Err(GitError::CommandFailed {
            command: "push".into(),
            status: "exit status: 1".into(),
            stderr: "remote rejected: no new changes".into(),
        })
    }
}

#[test]
fn a_rejected_push_settles_nothing() {
    let mut git = RejectingGit(FakeGit::in_clone("/repo", "u"));
    let mut api = FakeGerrit::serving(change("sha3", 3));
    let err = finalize(&mut git, &mut api, &workspace(), &[accepted("c1")], &[], None).unwrap_err();
    assert!(matches!(err, SubmitError::PushRejected { .. }));
    assert!(err.describe().contains("worktree is left intact"));
    assert!(api.posted_reviews().is_empty(), "a resolution with no patchset behind it would be a lie");
}

#[test]
fn an_accepted_commit_message_comment_rewrites_the_message() {
    let mut git = FakeGit::in_clone("/repo", "u");
    let mut api = FakeGerrit::serving(change("sha3", 3));
    let ws = workspace();
    finalize(&mut git, &mut api, &ws, &[], &[], Some("Tighten the parser\n\nBug: 41827\n")).unwrap();
    assert!(git.calls().contains(&GitCall::CommitAmend {
        worktree: ws.worktree(),
        message: Some("Tighten the parser\n\nBug: 41827\n".into()),
    }));
}

#[test]
fn every_confirmed_path_is_staged_before_the_amend() {
    let mut git = FakeGit::in_clone("/repo", "u");
    let mut api = FakeGerrit::serving(change("sha3", 3));
    let ws = workspace();
    finalize(&mut git, &mut api, &ws, &[], &["src/a.rs".into(), "src/b.rs".into()], None).unwrap();
    let calls = git.calls();
    let amend_at = calls.iter().position(|c| matches!(c, GitCall::CommitAmend { .. })).expect("amended");
    let staged: Vec<_> = calls[..amend_at].iter().filter(|c| matches!(c, GitCall::Stage { .. })).collect();
    assert_eq!(staged.len(), 2, "both staged, and before the amend");
}

#[test]
fn the_summary_counts_each_fate() {
    let mut git = FakeGit::in_clone("/repo", "u");
    let mut api = FakeGerrit::serving(change("sha3", 3));
    let triaged = vec![
        accepted("c1"),
        TriagedThread { thread: thread("c2"), fate: Fate::FixedByHand },
        TriagedThread { thread: thread("c3"), fate: Fate::Rejected { reply: Some("Disagree.".into()) } },
        TriagedThread { thread: thread("c4"), fate: Fate::Skipped },
    ];
    let done = finalize(&mut git, &mut api, &workspace(), &triaged, &[], None).unwrap();
    assert_eq!(done.resolved, 2);
    assert_eq!(done.replied, 1);
    assert_eq!(done.untouched, 1);
}

#[test]
fn a_finalize_with_nothing_to_settle_still_pushes_the_patchset() {
    let mut git = FakeGit::in_clone("/repo", "u");
    let mut api = FakeGerrit::serving(change("sha3", 3));
    let done = finalize(&mut git, &mut api, &workspace(), &[], &[], None).unwrap();
    assert_eq!(done.resolved, 0);
    assert!(git.calls().iter().any(|c| matches!(c, GitCall::Push { .. })));
    assert_eq!(api.posted_reviews().len(), 1, "the post is still issued; it simply carries no comments");
    assert!(api.posted_reviews()[0].comments.is_empty());
}

#[test]
fn an_abort_report_names_the_worktree() {
    let report = workspace().abort_report();
    assert!(report.starts_with("Nothing was pushed."));
    assert!(report.ends_with("/state/remendo/proj/12345/worktree"));
}

fn accepted_on(path: &str, id: &str) -> TriagedThread {
    let comment = Comment { unresolved: true, patch_set: 3, line: Some(1), ..Comment::with_id(id) };
    TriagedThread { thread: assemble(path, vec![comment]).remove(0), fate: Fate::Accepted }
}

#[test]
fn the_state_machine_restores_the_second_turns_own_snapshot() {
    let after_one = "fn a() { one(); }\nfn b() {}\n";
    let after_two = "fn a() { one(); }\nfn b() { two(); }\n";
    let mut run = ApplyRun::new(&[accepted_on("a.rs", "c1"), accepted_on("a.rs", "c2")]);
    assert_eq!(run.current_path(), Some("a.rs"));
    run.begin_attempt("fn a() {}\nfn b() {}\n".into());
    assert_eq!(run.answer(ConfirmChoice::Keep), Reaction::Stage { path: "a.rs".into() });
    run.begin_attempt(after_one.into());
    let diff = run.diff(after_two);
    assert_eq!(diff.rows.iter().filter(|r| r.is_change()).count(), 2, "only this turn's change");
    assert_eq!(
        run.answer(ConfirmChoice::Skip),
        Reaction::Restore { path: "a.rs".into(), contents: after_one.into() },
        "comment 1's confirmed edit must survive comment 2's rejection"
    );
    assert!(run.is_done());
    assert_eq!(run.applied.kept, 1);
    assert_eq!(run.applied.skipped, 1);
    assert_eq!(run.applied.staged, vec!["a.rs".to_string()]);
}

#[test]
fn a_retry_carries_its_hint_into_the_next_prompt() {
    let mut run = ApplyRun::new(&[accepted_on("a.rs", "c1")]);
    let first = run.begin_attempt("x".into());
    assert_eq!(first, "Re-read a.rs, then address the quoted comment there.");
    run.answer(ConfirmChoice::RetryWithHint("smaller".into()));
    let second = run.begin_attempt("x".into());
    assert!(second.ends_with("The previous attempt was rejected: smaller"));
    assert!(!run.is_done());
}

#[test]
fn only_accepted_file_threads_get_an_apply_turn() {
    let mut by_hand = accepted_on("b.rs", "c2");
    by_hand.fate = Fate::FixedByHand;
    let run = ApplyRun::new(&[accepted_on("a.rs", "c1"), by_hand, accepted_on("/COMMIT_MSG", "m1")]);
    assert_eq!(run.paths, vec!["a.rs".to_string()]);
}

#[test]
fn a_minibuffer_edits_its_input() {
    let mut mini = Minibuffer::new("Comment: ");
    mini.push('h');
    mini.push('é');
    assert_eq!(mini.input, "hé");
    mini.backspace();
    assert_eq!(mini.input, "h");
    assert!(!mini.is_empty());
    assert!(Minibuffer::editing("Reply: ", "").is_empty());
    assert!(!Minibuffer::editing("Reply: ", " ").is_empty(), "a typed space is something typed");
    assert_eq!(Minibuffer::editing("ab", "cd").cursor_column(2, 10), 6);
    assert_eq!(Minibuffer::editing("ab", "cd").cursor_column(0, 3), 2);
}

#[test]
fn a_cache_key_for_another_revision_is_a_miss() {
    let key = CacheKey::new("12345", "sha3");
    assert!(key.matches("12345", "sha3"));
    assert!(!key.matches("12345", "sha4"), "a new patchset is a miss");
}

#[test]
fn a_cache_key_for_another_change_is_a_miss() {
    assert!(!CacheKey::new("12345", "sha3").matches("99999", "sha3"));
}

#[test]
fn a_cache_key_from_a_future_format_is_a_miss() {
    let key = CacheKey { change_id: "12345".into(), revision: "sha3".into(), version: 999 };
    assert!(!key.matches("12345", "sha3"), "a shape we do not understand must not be read as if we did");
    assert_eq!(CacheKey::new("1", "s").version, CACHE_VERSION);
}

#[test]
fn a_workspace_reuses_only_verdicts_for_its_current_revision() {
    let ws = workspace();
    let key = ws.cache_key();
    assert_eq!(key, CacheKey { change_id: "12345".into(), revision: "sha3".into(), version: CACHE_VERSION });
    assert!(ws.may_reuse(&key));
    assert!(!ws.may_reuse(&CacheKey::new("12345", "sha2")), "verdicts of an older patchset are not reused");
}

const ORIGIN: &str = "https://gerrit.corp/a/platform/base";

fn platform_change(revision_ref: Option<&str>) -> ChangeInfo {
    ChangeInfo {
        project: "platform/base".into(),
        branch: "main".into(),
        current_revision: "d3adb33f".into(),
        revisions: vec![("d3adb33f".into(), RevisionInfo { number: 3, git_ref: revision_ref.map(|r| r.to_string()) })],
        ..ChangeInfo::with_id("12345")
    }
}

fn platform_gerrit() -> FakeGerrit {
    FakeGerrit::serving(platform_change(Some("refs/changes/45/12345/3")))
}

#[test]
fn opening_validates_then_creates_the_worktree() {
    let mut git = FakeGit::in_clone("/repo", ORIGIN);
    let validated = validate(&git, &platform_gerrit(), "12345", "/state").unwrap();
    let ws = open(&mut git, validated, false).unwrap();
    assert!(!ws.resumed);
    assert_eq!(ws.change.branch, "main");
    assert_eq!(
        git.calls(),
        vec![
            GitCall::Fetch { remote: "origin".into(), refspec: "refs/changes/45/12345/3".into() },
            GitCall::WorktreeAdd { path: ws.worktree(), revision: "d3adb33f".into() },
        ]
    );
}

#[test]
fn nothing_is_created_when_the_change_is_unknown() {
    let git = FakeGit::in_clone("/repo", ORIGIN);
    let err = validate(&git, &FakeGerrit::new(), "98765", "/state").err().unwrap();
    assert!(matches!(err, WorkspaceError::Gerrit(_)));
    assert!(git.calls().is_empty(), "no git work before validation passes");
}

#[test]
fn nothing_is_created_outside_a_clone() {
    let git = FakeGit::outside_a_clone();
    let err = validate(&git, &platform_gerrit(), "12345", "/state").err().unwrap();
    assert!(matches!(err, WorkspaceError::Git(GitError::NotAClone { .. })));
    assert!(git.calls().is_empty());
}

#[test]
fn a_project_mismatch_names_both_projects() {
    let git = FakeGit::in_clone("/repo", "https://gerrit.corp/a/other/repo");
    let err = validate(&git, &platform_gerrit(), "12345", "/state").err().unwrap();
    let msg = err.describe();
    assert!(msg.contains("platform/base"), "names the change's: {msg}");
    assert!(msg.contains("other/repo"), "names the clone's: {msg}");
    assert!(git.calls().is_empty());
}

#[test]
fn a_relaunch_resumes_instead_of_recreating() {
    let mut git = FakeGit::in_clone("/repo", ORIGIN);
    let validated = validate(&git, &platform_gerrit(), "12345", "/state").unwrap();
    let first = open(&mut git, validated, false).unwrap();
    assert!(!first.resumed);
    let mut git2 = FakeGit::in_clone("/repo", ORIGIN);
    let validated = validate(&git2, &platform_gerrit(), "12345", "/state").unwrap();
    let second = open(&mut git2, validated, true).unwrap();
    assert!(second.resumed);
    assert!(git2.calls().is_empty(), "a resume must not re-fetch or re-add the worktree");
    assert_eq!(first.paths, second.paths);
}

#[test]
fn a_change_with_no_fetchable_ref_is_reported_by_name() {
    let mut git = FakeGit::in_clone("/repo", ORIGIN);
    let gerrit = FakeGerrit::serving(ChangeInfo { revisions: vec![], current_revision: "sha".into(), ..platform_change(None) });
    let validated = validate(&git, &gerrit, "12345", "/state").unwrap();
    let err = open(&mut git, validated, false).err().unwrap();
    let msg = err.describe();
    assert!(msg.contains("12345") && msg.contains("sha"), "{msg}");
}

#[test]
fn the_worktree_path_is_available_for_the_abort_report() {
    let mut git = FakeGit::in_clone("/repo", ORIGIN);
    let validated = validate(&git, &platform_gerrit(), "12345", "/state").unwrap();
    let ws = open(&mut git, validated, false).unwrap();
    let report = ws.abort_report();
    assert!(report.contains(&ws.worktree()));
    assert!(report.contains("Nothing was pushed"));
}

#[test]
fn xdg_state_home_wins_when_set() {
    assert_eq!(state_dir_from(Some("/custom/state"), Some("/home/me")).unwrap(), "/custom/state");
}

#[test]
fn without_xdg_state_home_the_state_lives_under_home() {
    assert_eq!(state_dir_from(None, Some("/home/me")).unwrap(), "/home/me/.local/state");
    assert_eq!(state_dir_from(Some(""), Some("/home/me")).unwrap(), "/home/me/.local/state", "an empty value is unset");
    assert!(matches!(state_dir_from(None, None), Err(WorkspaceError::NoStateDir)));
    assert!(matches!(state_dir_from(Some(""), Some("")), Err(WorkspaceError::NoStateDir)));
}

#[test]
fn a_clone_whose_remote_names_no_project_is_refused_with_its_url() {
    let err = check_clone("git@gerrit.corp:proj.git", &platform_change(None)).unwrap_err();
    assert_eq!(err, WorkspaceError::UndeterminedProject { url: "git@gerrit.corp:proj.git".into() });
    assert!(check_clone(ORIGIN, &platform_change(None)).is_ok());
}

#[test]
fn a_moved_revision_names_both_revisions() {
    assert!(revision_check(&workspace(), &change("sha3", 3)).is_ok());
    match revision_check(&workspace(), &change("sha4", 4)) {
        Err(SubmitError::RevisionMoved { change_id, checked_out, current }) => {
            assert_eq!((change_id.as_str(), checked_out.as_str(), current.as_str()), ("12345", "sha3", "sha4"));
        }
        other => panic!("expected RevisionMoved, got {other:?}"),
    }
}

#[test]
fn pseudo_path_comments_never_get_an_apply_turn() {
    let triaged = vec![accepted_on("/COMMIT_MSG", "m1"), accepted_on("/PATCHSET_LEVEL", "p1"), accepted_on("a.rs", "c1")];
    let selected = applicable(&triaged);
    assert_eq!(selected.len(), 1);
    assert_eq!(selected[0].thread.anchor.file_path(), Some("a.rs"));
}

#[test]
fn only_accepted_threads_are_applied() {
    let on_a = |id: &str| accepted_on("a.rs", id).thread;
    let triaged = vec![
        accepted_on("a.rs", "c1"),
        TriagedThread { thread: on_a("c2"), fate: Fate::Skipped },
        TriagedThread { thread: on_a("c3"), fate: Fate::FixedByHand },
        TriagedThread { thread: on_a("c4"), fate: Fate::Rejected { reply: None } },
    ];
    assert_eq!(applicable(&triaged).len(), 1);
}

#[test]
fn a_fresh_verdict_cache_holds_no_verdicts() {
    let cache = VerdictCache::new("12345", "sha3");
    assert_eq!(cache.get("c1"), None);
    assert!(cache.matches("12345", "sha3"));
    assert!(!cache.matches("12345", "sha4"), "a new patchset is a miss");
    assert!(!cache.matches("67890", "sha3"), "another change is a miss");
}

#[test]
fn a_stored_verdict_is_read_back_and_a_later_one_replaces_it() {
    let mut cache = VerdictCache::new("12345", "sha3");
    cache.put("c1", r#"{"verdict":"agree"}"#);
    cache.put("c2", r#"{"verdict":"unsure"}"#);
    cache.put("c1", r#"{"verdict":"disagree"}"#);
    assert_eq!(cache.get("c1").as_deref(), Some(r#"{"verdict":"disagree"}"#));
    assert_eq!(cache.get("c2").as_deref(), Some(r#"{"verdict":"unsure"}"#));
    assert_eq!(cache.get("c3"), None);
    assert!(cache.matches("12345", "sha3"), "storing does not change the key");
}
