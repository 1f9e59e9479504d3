use remendo::gerrit::thread::assemble;
use remendo::gerrit::{ChangeInfo, Comment, RevisionInfo, Thread};
use remendo::submit::{Fate, TriagedThread, build_review};
use remendo::triage::{Decision, Document, Triage, collate};
use remendo::verdict::{Adjudication, Dependency, DependencyKind, Verdict};
use remendo::apply::{ApplyError, FakeWorktree, FilesView, WorktreeFiles};

fn thread_on(path: &str, id: &str) -> Thread {
    let comment = Comment {
        unresolved: true,
        patch_set: 3,
        line: Some(1),
        message: format!("comment {id}"),
        ..Comment::with_id(id)
    };
    assemble(path, vec![comment]).remove(0)
}

fn verdict_for(id: &str) -> Verdict {
    Verdict { comment_id: id.into(), verdict: Adjudication::Agree, justification: "Real issue.".into(), depends_on: None }
}

fn triage_of(ids: &[&str]) -> Triage {
    let threads: Vec<Thread> = ids.iter().map(|id| thread_on("a.rs", id)).collect();
    let verdicts: Vec<Verdict> = ids.iter().map(|id| verdict_for(id)).collect();
    Triage::new(threads, &verdicts, 0)
}

#[test]
fn verdicts_are_matched_to_their_threads() {
    let triage = triage_of(&["c1", "c2"]);
    assert_eq!(triage.len(), 2);
    assert_eq!(triage.current().unwrap().verdict.as_ref().unwrap().comment_id, "c1");
}

#[test]
fn a_thread_without_a_verdict_is_kept_and_counted_as_unadjudicated() {
    let triage = Triage::new(vec![thread_on("a.rs", "c1")], &[], 0);
    assert_eq!(triage.len(), 1, "kept, not dropped");
    assert!(triage.current().unwrap().verdict.is_none());
    assert_eq!(triage.unadjudicated(), 1);
}

#[test]
fn the_human_decision_governs_whatever_the_verdict_said() {
    let mut triage = triage_of(&["c1"]);
    assert_eq!(triage.current().unwrap().verdict.as_ref().unwrap().verdict, Adjudication::Agree);
    triage.decide(Decision::Reject);
    let fates = triage.finish();
    assert!(matches!(fates[0].fate, Fate::Rejected { .. }));
}

#[test]
fn next_stops_at_the_last_thread() {
    let mut triage = triage_of(&["c1", "c2"]);
    triage.next();
    triage.next();
    triage.next();
    assert_eq!(triage.cursor(), 1, "clamped, not wrapped and not ended");
}

#[test]
fn prev_stops_at_the_first_thread() {
    let mut triage = triage_of(&["c1", "c2"]);
    triage.prev();
    assert_eq!(triage.cursor(), 0);
}

#[test]
fn next_undecided_skips_decided_threads_and_wraps() {
    let mut triage = triage_of(&["c1", "c2", "c3"]);
    triage.decide(Decision::Accept);
    triage.next();
    triage.decide(Decision::Accept);
    triage.cursor = 0;
    triage.next_undecided();
    assert_eq!(triage.cursor(), 2, "skipped the decided c2");
    triage.next_undecided();
    assert_eq!(triage.cursor(), 2);
}

#[test]
fn a_deferred_thread_is_offered_again_by_next_undecided() {
    let mut triage = triage_of(&["c1", "c2"]);
    triage.decide(Decision::Defer);
    triage.next();
    triage.decide(Decision::Accept);
    triage.next_undecided();
    assert_eq!(triage.cursor(), 0, "a deferral is a decision for the queue but not for the end");
}

#[test]
fn next_undecided_on_a_fully_decided_queue_stays_put() {
    let mut triage = triage_of(&["c1"]);
    triage.decide(Decision::Accept);
    triage.next_undecided();
    assert_eq!(triage.cursor(), 0);
}

#[test]
fn jumping_to_a_path_moves_the_cursor() {
    let threads = vec![thread_on("a.rs", "c1"), thread_on("b.rs", "c2")];
    let mut triage = Triage::new(threads, &[], 0);
    assert!(triage.jump_to_path("b.rs"));
    assert_eq!(triage.cursor(), 1);
    assert!(!triage.jump_to_path("nope.rs"));
    assert_eq!(triage.cursor(), 1, "a miss leaves the cursor alone");
}

#[test]
fn edited_prose_replaces_the_comment_for_the_apply_turn() {
    let mut triage = triage_of(&["c1"]);
    assert_eq!(triage.current().unwrap().effective_prose(), "comment c1");
    triage.edit_prose("Only rename the variable, do not refactor.".into());
    assert_eq!(triage.current().unwrap().effective_prose(), "Only rename the variable, do not refactor.");
}

#[test]
fn every_rejection_awaits_a_reply_regardless_of_the_verdict() {
    let mut triage = triage_of(&["c1", "c2"]);
    triage.decide(Decision::Reject);
    triage.next();
    triage.decide(Decision::Accept);
    assert_eq!(triage.awaiting_replies(), vec![0]);
}

#[test]
fn an_approved_reply_reaches_the_fate() {
    let mut triage = triage_of(&["c1"]);
    triage.decide(Decision::Reject);
    triage.approve_reply(0, "Bounded at 8 items.".into());
    let fates = triage.finish();
    assert_eq!(fates[0].fate, Fate::Rejected { reply: Some("Bounded at 8 items.".into()) });
}

#[test]
fn a_declined_draft_leaves_the_rejection_without_a_reply() {
    let mut triage = triage_of(&["c1"]);
    triage.decide(Decision::Reject);
    let fates = triage.finish();
    assert_eq!(fates[0].fate, Fate::Rejected { reply: None });
}

#[test]
fn a_declined_reply_is_settled_for_the_end_of_triage() {
    let mut triage = triage_of(&["c1"]);
    triage.decide(Decision::Reject);
    assert_eq!(triage.gate_report().unreplied, 1);
    triage.decline_reply(0);
    assert_eq!(triage.gate_report().unreplied, 0);
    assert_eq!(triage.finish()[0].fate, Fate::Rejected { reply: None });
}

#[test]
fn the_gate_reports_what_is_still_unsettled() {
    let mut triage = triage_of(&["c1", "c2", "c3"]);
    triage.decide(Decision::Defer);
    triage.next();
    triage.decide(Decision::Reject);
    let report = triage.gate_report();
    assert_eq!(report.undecided, 1);
    assert_eq!(report.deferred, 1);
    assert_eq!(report.unreplied, 1);
    assert!(!report.is_clean());
}

#[test]
fn a_fully_settled_queue_reports_a_clean_gate() {
    let mut triage = triage_of(&["c1"]);
    triage.decide(Decision::Accept);
    assert!(triage.gate_report().is_clean());
}

#[test]
fn deferred_and_undecided_both_become_skipped() {
    let mut triage = triage_of(&["c1", "c2"]);
    triage.decide(Decision::Defer);
    let fates = triage.finish();
    assert_eq!(fates[0].fate, Fate::Skipped, "deferred");
    assert_eq!(fates[1].fate, Fate::Skipped, "never decided");
}

#[test]
fn each_decision_maps_to_its_fate() {
    let mut triage = triage_of(&["c1", "c2", "c3", "c4"]);
    triage.decide(Decision::Accept);
    triage.next();
    triage.decide(Decision::FixedByHand);
    triage.next();
    triage.decide(Decision::Reject);
    triage.approve_reply(2, "No.".into());
    triage.next();
    triage.decide(Decision::Defer);
    let fates = triage.finish();
    assert_eq!(fates[0].fate, Fate::Accepted);
    assert_eq!(fates[1].fate, Fate::FixedByHand);
    assert_eq!(fates[2].fate, Fate::Rejected { reply: Some("No.".into()) });
    assert_eq!(fates[3].fate, Fate::Skipped);
}

#[test]
fn the_patchset_skip_count_is_carried_for_reporting() {
    let triage = Triage::new(vec![thread_on("a.rs", "c1")], &[], 3);
    assert_eq!(triage.skipped_older_patchsets, 3);
}

#[test]
fn an_empty_queue_gates_cleanly_and_finishes_empty() {
    let triage = Triage::new(Vec::new(), &[], 0);
    assert!(triage.is_empty());
    assert!(triage.gate_report().is_clean());
    assert!(triage.finish().is_empty());
}

fn review_thread(path: &str, id: &str) -> Thread {
    let comment = Comment { unresolved: true, patch_set: 3, line: Some(10), ..Comment::with_id(id) };
    assemble(path, vec![comment]).remove(0)
}

fn exchange_on(path: &str) -> Thread {
    let first = Comment { unresolved: true, patch_set: 3, line: Some(10), updated: "2026-08-01 10:00".into(), ..Comment::with_id("first") };
    let last = Comment {
        in_reply_to: Some("first".into()),
        unresolved: true,
        patch_set: 3,
        updated: "2026-08-01 11:00".into(),
        ..Comment::with_id("last")
    };
    assemble(path, vec![first, last]).remove(0)
}

fn triaged(thread: Thread, fate: Fate) -> TriagedThread {
    TriagedThread { thread, fate }
}

#[test]
fn an_accepted_thread_is_resolved() {
    let review = build_review(&[triaged(review_thread("a.rs", "c1"), Fate::Accepted)]);
    let comment = &review.comments_at("a.rs").unwrap()[0];
    assert!(!comment.unresolved);
    assert_eq!(comment.line, Some(10));
    assert_eq!(comment.message, "Done.");
}

#[test]
fn a_hand_fixed_thread_is_indistinguishable_from_an_accepted_one() {
    let applied = build_review(&[triaged(review_thread("a.rs", "c1"), Fate::Accepted)]);
    let by_hand = build_review(&[triaged(review_thread("a.rs", "c1"), Fate::FixedByHand)]);
    assert_eq!(applied, by_hand);
}

#[test]
fn a_rejected_thread_posts_its_reply_and_stays_unresolved() {
    let review = build_review(&[triaged(
        review_thread("a.rs", "c1"),
        Fate::Rejected { reply: Some("Bounded at 8 items, so O(n²) is not a concern here.".into()) },
    )]);
    let comment = &review.comments_at("a.rs").unwrap()[0];
    assert!(comment.unresolved, "stating a disagreement does not settle it");
    assert!(comment.message.contains("Bounded at 8"));
}

#[test]
fn a_declined_draft_posts_nothing() {
    let review = build_review(&[triaged(review_thread("a.rs", "c1"), Fate::Rejected { reply: None })]);
    assert!(review.comments.is_empty());
}

#[test]
fn skipped_threads_are_omitted_entirely() {
    let review = build_review(&[triaged(review_thread("a.rs", "c1"), Fate::Skipped)]);
    assert!(review.comments.is_empty(), "a skipped thread is neither resolved nor replied to");
}

#[test]
fn a_reply_targets_the_threads_last_comment() {
    let review = build_review(&[triaged(exchange_on("a.rs"), Fate::Rejected { reply: Some("Still disagree.".into()) })]);
    assert_eq!(review.comments_at("a.rs").unwrap()[0].in_reply_to, "last");
}

#[test]
fn several_threads_on_one_file_share_a_path_entry() {
    let review = build_review(&[
        triaged(review_thread("a.rs", "c1"), Fate::Accepted),
        triaged(review_thread("a.rs", "c2"), Fate::Accepted),
    ]);
    assert_eq!(review.comments_at("a.rs").unwrap().len(), 2);
    assert_eq!(review.comments.len(), 1, "one entry per path");
}

#[test]
fn a_commit_message_thread_posts_under_its_pseudo_path() {
    let review = build_review(&[triaged(review_thread("/COMMIT_MSG", "m1"), Fate::Accepted)]);
    assert!(review.comments_at("/COMMIT_MSG").is_some());
}

#[test]
fn a_change_level_thread_posts_without_a_line() {
    let comment = Comment { unresolved: true, ..Comment::with_id("p1") };
    let thread = assemble("/PATCHSET_LEVEL", vec![comment]).remove(0);
    let review = build_review(&[triaged(thread, Fate::Rejected { reply: Some("No.".into()) })]);
    let posted = &review.comments_at("/PATCHSET_LEVEL").unwrap()[0];
    assert_eq!(posted.line, None);
}

#[test]
fn a_mixed_triage_carries_only_the_fates_that_post() {
    let review = build_review(&[
        triaged(review_thread("a.rs", "c1"), Fate::Accepted),
        triaged(review_thread("a.rs", "c2"), Fate::Skipped),
        triaged(review_thread("b.rs", "c3"), Fate::FixedByHand),
        triaged(review_thread("b.rs", "c4"), Fate::Rejected { reply: Some("Disagree.".into()) }),
        triaged(review_thread("b.rs", "c5"), Fate::Rejected { reply: None }),
    ]);
    assert_eq!(review.comments_at("a.rs").unwrap().len(), 1, "skipped is dropped");
    assert_eq!(review.comments_at("b.rs").unwrap().len(), 2, "declined draft is dropped");
    let resolved = review.comments_at("b.rs").unwrap().iter().filter(|c| !c.unresolved).count();
    assert_eq!(resolved, 1);
}

#[test]
fn an_empty_triage_produces_an_empty_review() {
    assert!(build_review(&[]).comments.is_empty());
}

#[test]
fn resolves_reports_which_fates_settle_a_thread() {
    assert!(Fate::Accepted.resolves());
    assert!(Fate::FixedByHand.resolves());
    assert!(!Fate::Rejected { reply: None }.resolves());
    assert!(!Fate::Skipped.resolves());
}

fn dep_verdict(id: &str, deps: Option<Vec<Dependency>>) -> Verdict {
    Verdict { comment_id: id.into(), verdict: Adjudication::Unsure, justification: "…".into(), depends_on: deps }
}

fn dep(fact: &str, flips_to: Option<Adjudication>) -> Dependency {
    Dependency { fact: fact.into(), kind: DependencyKind::TeamConvention, verify: format!("settle: {fact}"), flips_to }
}

#[test]
fn a_fact_shared_by_three_verdicts_is_presented_once() {
    let verdicts = vec![
        dep_verdict("c1", Some(vec![dep("the Bug: trailer convention", None)])),
        dep_verdict("c2", Some(vec![dep("the Bug: trailer convention", None)])),
        dep_verdict("c3", Some(vec![dep("the Bug: trailer convention", None)])),
    ];
    let collated = collate(&verdicts);
    assert_eq!(collated.len(), 1, "one entry, not three");
    assert_eq!(collated[0].verdict_count(), 3);
    assert_eq!(collated[0].comment_ids, vec!["c1", "c2", "c3"]);
    assert!(collated[0].is_shared());
}

#[test]
fn distinct_facts_stay_distinct() {
    let verdicts = vec![
        dep_verdict("c1", Some(vec![dep("the CI matrix", None)])),
        dep_verdict("c2", Some(vec![dep("the rustc version", None)])),
    ];
    assert_eq!(collate(&verdicts).len(), 2);
}

#[test]
fn one_verdict_resting_on_two_facts_contributes_to_both() {
    let verdicts = vec![dep_verdict("c1", Some(vec![dep("the CI matrix", None), dep("the rustc version", None)]))];
    let collated = collate(&verdicts);
    assert_eq!(collated.len(), 2);
    assert!(collated.iter().all(|d| d.comment_ids == vec!["c1"]));
}

#[test]
fn self_contained_verdicts_contribute_nothing() {
    let verdicts = vec![dep_verdict("c1", None)];
    assert!(collate(&verdicts).is_empty());
}

#[test]
fn a_shared_flips_to_survives_when_every_verdict_agrees() {
    let verdicts = vec![
        dep_verdict("c1", Some(vec![dep("the convention", Some(Adjudication::Agree))])),
        dep_verdict("c2", Some(vec![dep("the convention", Some(Adjudication::Agree))])),
    ];
    let collated = collate(&verdicts);
    assert_eq!(collated[0].flips_to, Some(Adjudication::Agree));
}

#[test]
fn conflicting_flips_to_claims_collapse_to_none() {
    let verdicts = vec![
        dep_verdict("c1", Some(vec![dep("the convention", Some(Adjudication::Agree))])),
        dep_verdict("c2", Some(vec![dep("the convention", Some(Adjudication::Disagree))])),
    ];
    let collated = collate(&verdicts);
    assert_eq!(collated[0].flips_to, None);
    assert_eq!(collated[0].verdict_count(), 2, "still shared");
}

#[test]
fn the_verify_text_is_carried_through_for_display() {
    let verdicts = vec![dep_verdict("c1", Some(vec![dep("the CI matrix", None)]))];
    assert_eq!(collate(&verdicts)[0].verify, "settle: the CI matrix");
}

#[test]
fn a_verdict_declaring_the_same_fact_twice_is_counted_once() {
    let verdicts = vec![dep_verdict("c1", Some(vec![dep("the CI matrix", None), dep("the CI matrix", None)]))];
    let collated = collate(&verdicts);
    assert_eq!(collated.len(), 1);
    assert_eq!(collated[0].verdict_count(), 1, "one verdict, not two");
}

#[test]
fn order_is_first_seen() {
    let verdicts = vec![
        dep_verdict("c1", Some(vec![dep("second-met fact", None)])),
        dep_verdict("c2", Some(vec![dep("first-met fact", None)])),
    ];
    let collated = collate(&verdicts);
    assert_eq!(collated[0].fact, "second-met fact");
}

#[test]
fn a_self_contained_verdict_has_no_dependencies() {
    let v = dep_verdict("c1", None);
    assert!(v.is_self_contained());
    assert_eq!(v.dependencies().len(), 0);
    let w = dep_verdict("c2", Some(vec![dep("a", Some(Adjudication::Agree)), dep("b", None)]));
    assert_eq!(w.dependencies().len(), 2);
    assert!(!w.is_self_contained());
    assert_eq!(w.dependencies()[0].flips_to, Some(Adjudication::Agree));
}

#[test]
fn every_adjudication_has_its_label() {
    assert_eq!(Adjudication::Agree.label(), "agree");
    assert_eq!(Adjudication::Disagree.label(), "disagree");
    assert_eq!(Adjudication::Unsure.label(), "unsure");
}

fn thread_at(path: &str, line: Option<u32>) -> Thread {
    let comment = Comment { unresolved: true, patch_set: 3, line, ..Comment::with_id("c1") };
    assemble(path, vec![comment]).remove(0)
}

fn doc_change() -> ChangeInfo {
    ChangeInfo {
        project: "proj".into(),
        branch: "main".into(),
        subject: "Tighten the parser".into(),
        current_revision: "sha3".into(),
        revisions: vec![("sha3".into(), RevisionInfo { number: 3, git_ref: Some("refs/changes/45/12345/3".into()) })],
        ..ChangeInfo::with_id("12345")
    }
}

const MESSAGE: &str = "Tighten the parser\n\nStrip the guard first.\n\nBug: 41827\n";

#[test]
fn a_file_thread_reads_the_worktree_and_is_highlighted() {
    let files = FakeWorktree::with_files(&[("a.rs", "fn a() {}\nfn b() {}\n")]);
    let doc = Document::for_thread(&thread_at("a.rs", Some(2)), &doc_change(), MESSAGE, &files);
    assert_eq!(doc.title, "a.rs");
    assert_eq!(doc.lines, vec!["fn a() {}", "fn b() {}"]);
    assert_eq!(doc.anchor_line, Some(2));
    assert_eq!(doc.anchor_index(), Some(1));
    assert!(doc.highlighted);
}

#[test]
fn an_unreadable_file_becomes_a_placeholder() {
    let files = FakeWorktree::new();
    let doc = Document::for_thread(&thread_at("gone.rs", Some(1)), &doc_change(), MESSAGE, &files);
    assert_eq!(doc.lines.len(), 1);
    assert!(doc.lines[0].contains("gone.rs"));
}

#[test]
fn a_commit_message_thread_maps_past_gerrits_header() {
    let files = FakeWorktree::new();
    let doc = Document::for_thread(&thread_at("/COMMIT_MSG", Some(7)), &doc_change(), MESSAGE, &files);
    assert_eq!(doc.title, "/COMMIT_MSG");
    assert_eq!(doc.lines[0], "Tighten the parser");
    assert_eq!(doc.anchor_line, Some(1), "the subject");
    assert!(!doc.highlighted, "a commit message is prose");
}

#[test]
fn a_comment_on_gerrits_synthetic_header_anchors_nowhere() {
    let files = FakeWorktree::new();
    let doc = Document::for_thread(&thread_at("/COMMIT_MSG", Some(3)), &doc_change(), MESSAGE, &files);
    assert_eq!(doc.anchor_line, None, "rather than pointing somewhere wrong");
}

#[test]
fn a_change_level_thread_gets_a_synthetic_overview() {
    let files = FakeWorktree::new();
    let doc = Document::for_thread(&thread_at("/PATCHSET_LEVEL", None), &doc_change(), MESSAGE, &files);
    assert_eq!(doc.title, "/PATCHSET_LEVEL");
    assert!(doc.lines.iter().any(|l| l.contains("Tighten the parser")));
    assert!(doc.lines.iter().any(|l| l.contains("main")));
    assert!(doc.lines.iter().any(|l| l == "Patchset 3 (sha3)"));
    assert_eq!(doc.anchor_line, None, "it anchors to nothing");
}

/// A worktree that fails the test if it is read at all.
struct NeverRead;

impl WorktreeFiles for NeverRead {
    fn seen(&self) -> FilesView {
        unreachable!("a proof-only view")
    }
    fn reload(&mut self) {}
    fn read(&self, path: &str) -> Result<String, ApplyError> {
        panic!("the filesystem was consulted for {path}");
    }
    fn write(&mut self, _: &str, _: &str) -> Result<(), ApplyError> {
        unreachable!()
    }
}

#[test]
fn no_pseudo_path_is_ever_read_from_the_worktree() {
    for path in ["/COMMIT_MSG", "/PATCHSET_LEVEL"] {
        Document::for_thread(&thread_at(path, Some(7)), &doc_change(), MESSAGE, &NeverRead);
    }
}

#[test]
fn the_current_thread_can_be_changed_in_place() {
    let mut triage = triage_of(&["c1", "c2"]);
    triage.next();
    if let Some(item) = triage.current_mut() {
        item.edited_prose = Some("reworded".into());
    }
    assert_eq!(triage.items[1].edited_prose.as_deref(), Some("reworded"));
    assert_eq!(triage.items[0].edited_prose, None);
    assert_eq!(triage.cursor, 1);
}
