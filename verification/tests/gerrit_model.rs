use remendo::gerrit::api::{ChangeInfo, GerritApi, ReviewInput, RevisionInfo};
use remendo::gerrit::thread::{assemble, select_triagable};
use remendo::gerrit::{Author, CommentAnchor, Comment, FakeGerrit, GerritError, load_change};
use remendo::gerrit::load::loaded_from;
use remendo::gerrit::worker::{GerritEvent, GerritRequest, serve_one};

fn comment(id: &str, reply_to: Option<&str>, updated: &str, unresolved: bool) -> Comment {
    Comment {
        in_reply_to: reply_to.map(str::to_string),
        updated: updated.into(),
        unresolved,
        patch_set: 1,
        line: Some(10),
        ..Comment::with_id(id)
    }
}

fn at_patch_set(id: &str, patch_set: u32, unresolved: bool) -> Comment {
    Comment { updated: "t".into(), unresolved, patch_set, ..Comment::with_id(id) }
}

#[test]
fn a_thread_closed_by_its_reply_is_resolved() {
    let threads = assemble(
        "a.rs",
        vec![comment("a", None, "2026-08-01 10:00", true), comment("b", Some("a"), "2026-08-01 11:00", false)],
    );
    assert_eq!(threads.len(), 1);
    assert!(!threads[0].is_unresolved());
    assert!(threads[0].comments[0].unresolved, "the opening comment still says unresolved");
}

#[test]
fn a_thread_reopened_by_a_later_comment_is_unresolved() {
    let threads = assemble(
        "a.rs",
        vec![
            comment("a", None, "2026-08-01 10:00", true),
            comment("b", Some("a"), "2026-08-01 11:00", false),
            comment("c", Some("b"), "2026-08-01 12:00", true),
        ],
    );
    assert!(threads[0].is_unresolved());
}

#[test]
fn the_whole_exchange_is_kept_in_order() {
    let threads = assemble(
        "a.rs",
        vec![
            comment("c", Some("b"), "2026-08-01 12:00", true),
            comment("a", None, "2026-08-01 10:00", true),
            comment("b", Some("a"), "2026-08-01 11:00", true),
        ],
    );
    let ids: Vec<&str> = threads[0].comments.iter().map(|c| c.id.as_str()).collect();
    assert_eq!(ids, vec!["a", "b", "c"], "ordered oldest first");
    assert_eq!(threads[0].root().id, "a", "anchor comes from the first");
    assert_eq!(threads[0].reply_target(), "c", "reply targets the last");
}

#[test]
fn a_branching_thread_resolves_by_recency() {
    let threads = assemble(
        "a.rs",
        vec![
            comment("a", None, "2026-08-01 10:00", true),
            comment("b", Some("a"), "2026-08-01 11:00", true),
            comment("c", Some("a"), "2026-08-01 12:00", false),
        ],
    );
    assert_eq!(threads.len(), 1, "one thread, not two");
    assert_eq!(threads[0].reply_target(), "c");
    assert!(!threads[0].is_unresolved(), "state is the most recent flag");
}

#[test]
fn independent_roots_become_separate_threads() {
    let threads = assemble(
        "a.rs",
        vec![comment("a", None, "2026-08-01 10:00", true), comment("b", None, "2026-08-01 11:00", true)],
    );
    assert_eq!(threads.len(), 2);
}

#[test]
fn a_reply_whose_parent_is_absent_becomes_its_own_thread() {
    let threads = assemble("a.rs", vec![comment("orphan", Some("elsewhere"), "2026-08-01 10:00", true)]);
    assert_eq!(threads.len(), 1);
    assert_eq!(threads[0].root().id, "orphan");
}

#[test]
fn a_cyclic_chain_terminates() {
    let threads = assemble(
        "a.rs",
        vec![comment("a", Some("b"), "2026-08-01 10:00", true), comment("b", Some("a"), "2026-08-01 11:00", true)],
    );
    assert_eq!(threads.len(), 1, "the cycle collapses to one thread");
}

#[test]
fn assembly_is_stable_across_input_order() {
    let forward = assemble(
        "a.rs",
        vec![comment("a", None, "2026-08-01 10:00", true), comment("b", None, "2026-08-01 11:00", true)],
    );
    let reversed = assemble(
        "a.rs",
        vec![comment("b", None, "2026-08-01 11:00", true), comment("a", None, "2026-08-01 10:00", true)],
    );
    assert_eq!(forward, reversed, "the triage queue must not reshuffle");
}

#[test]
fn the_anchor_is_classified_once_for_the_thread() {
    let threads = assemble("/COMMIT_MSG", vec![comment("a", None, "t", true)]);
    assert_eq!(threads[0].anchor, CommentAnchor::CommitMessage);
    assert_eq!(threads[0].anchor.file_path(), None);
}

#[test]
fn resolved_threads_are_not_triaged_and_not_counted_as_skipped() {
    let threads = assemble("a.rs", vec![at_patch_set("a", 3, false)]);
    let set = select_triagable(threads, 3);
    assert!(set.threads.is_empty());
    assert_eq!(set.skipped_older_patchsets, 0, "resolved is not 'skipped'");
}

#[test]
fn older_patchset_threads_are_skipped_and_counted() {
    let threads = assemble("a.rs", vec![at_patch_set("old", 1, true), at_patch_set("cur", 3, true)]);
    let set = select_triagable(threads, 3);
    assert_eq!(set.threads.len(), 1);
    assert_eq!(set.threads[0].root().id, "cur");
    assert_eq!(set.skipped_older_patchsets, 1);
}

#[test]
fn a_resolved_older_thread_is_not_double_counted() {
    let threads = assemble("a.rs", vec![at_patch_set("old", 1, false)]);
    let set = select_triagable(threads, 3);
    assert_eq!(set.skipped_older_patchsets, 0);
}

#[test]
fn robot_and_self_authored_threads_are_kept() {
    let robot = Comment { robot_id: Some("clippy".into()), unresolved: true, patch_set: 2, ..Comment::with_id("r") };
    let mine = Comment {
        author: Author { account_id: Some(7), ..Author::default() },
        unresolved: true,
        patch_set: 2,
        ..Comment::with_id("m")
    };
    let set = select_triagable(assemble("a.rs", vec![robot, mine]), 2);
    assert_eq!(set.threads.len(), 2, "both are in scope");
    assert!(set.threads.iter().any(|t| t.is_robot()));
    assert!(set.threads.iter().any(|t| t.started_by() == Some(7)));
}

#[test]
fn a_minimal_comment_has_the_defaults() {
    let c = Comment::with_id("abc");
    assert_eq!(c.id, "abc");
    assert_eq!(c.in_reply_to, None);
    assert!(!c.unresolved);
    assert!(!c.is_robot());
    assert_eq!(c.author_name(), "(unknown)");
}

#[test]
fn a_named_author_is_shown_by_name() {
    let c = Comment { author: Author { account_id: Some(7), name: Some("Rafa".into()), email: None }, ..Comment::with_id("c1") };
    assert_eq!(c.author_name(), "Rafa");
}

fn change_body() -> ChangeInfo {
    ChangeInfo {
        project: "proj".into(),
        branch: "main".into(),
        subject: "Tighten the response parser".into(),
        current_revision: "d3adb33f".into(),
        revisions: vec![
            ("c0ffee11".into(), RevisionInfo { number: 1, git_ref: Some("refs/changes/45/12345/1".into()) }),
            ("d3adb33f".into(), RevisionInfo { number: 3, git_ref: Some("refs/changes/45/12345/3".into()) }),
        ],
        ..ChangeInfo::with_id("proj~main~I0123456789abcdef")
    }
}

#[test]
fn a_change_exposes_the_fields_finalize_needs() {
    let change = change_body();
    assert_eq!(change.project, "proj");
    assert_eq!(change.branch, "main");
    assert_eq!(change.current_patch_set(), 3);
    assert_eq!(change.current_revision_ref(), Some("refs/changes/45/12345/3"));
}

#[test]
fn a_change_without_revision_detail_degrades_rather_than_panicking() {
    let change = ChangeInfo { project: "p".into(), branch: "main".into(), current_revision: "sha".into(), ..ChangeInfo::with_id("") };
    assert_eq!(change.current_patch_set(), 0);
    assert_eq!(change.current_revision_ref(), None);
}

#[test]
fn an_older_revision_does_not_supply_the_current_patch_set() {
    assert_eq!(change_body().current_patch_set(), 3, "reads the CURRENT revision");
}

#[test]
fn a_served_change_is_what_the_fake_answers() {
    let gerrit = FakeGerrit::serving(change_body());
    let change = gerrit.change("12345").unwrap();
    assert_eq!(change.project, "proj");
    assert_eq!(change.current_patch_set(), 3);
    assert_eq!(change.current_revision_ref(), Some("refs/changes/45/12345/3"));
}

#[test]
fn an_empty_fake_reports_the_change_id_it_was_asked_for() {
    let err = FakeGerrit::new().change("98765").unwrap_err();
    assert!(err.describe().contains("98765"), "{}", err.describe());
}

#[test]
fn comments_and_robot_comments_are_separate_paths() {
    let human = Comment::with_id("h1");
    let robot = Comment { robot_id: Some("clippy".into()), ..Comment::with_id("r1") };
    let gerrit = FakeGerrit::serving(change_body())
        .with_comments("src/a.rs", vec![human])
        .with_robot_comments("src/a.rs", vec![robot]);
    let human_groups = gerrit.comments("1").unwrap();
    let robot_groups = gerrit.robot_comments("1").unwrap();
    assert_eq!(human_groups[0].1.len(), 1);
    assert_eq!(robot_groups[0].1.len(), 1);
    assert!(!human_groups[0].1[0].is_robot(), "the endpoints must not bleed into each other");
}

#[test]
fn posted_reviews_are_recorded_for_assertion() {
    let mut gerrit = FakeGerrit::serving(change_body());
    assert!(gerrit.posted_reviews().is_empty());
    gerrit.post_review("12345", &ReviewInput::new()).unwrap();
    assert_eq!(gerrit.posted_reviews().len(), 1, "finalize must issue exactly one batched post");
}

fn load_change_body() -> ChangeInfo {
    ChangeInfo {
        project: "proj".into(),
        branch: "main".into(),
        current_revision: "sha3".into(),
        revisions: vec![("sha3".into(), RevisionInfo { number: 3, git_ref: Some("refs/changes/45/12345/3".into()) })],
        ..ChangeInfo::with_id("proj~main~I0123")
    }
}

fn load_comment(id: &str, patch_set: u32, unresolved: bool) -> Comment {
    Comment { patch_set, unresolved, updated: "2026-08-01 10:00".into(), line: Some(10), ..Comment::with_id(id) }
}

fn load_robot(id: &str, patch_set: u32) -> Comment {
    Comment {
        robot_id: Some("clippy".into()),
        patch_set,
        unresolved: true,
        updated: "2026-08-01 10:00".into(),
        line: Some(20),
        ..Comment::with_id(id)
    }
}

fn gerrit() -> FakeGerrit {
    FakeGerrit::serving(load_change_body())
}

#[test]
fn a_change_loads_with_its_threads() {
    let api = gerrit().with_comments("src/a.rs", vec![load_comment("c1", 3, true)]);
    let loaded = load_change(&api, "12345").unwrap();
    assert_eq!(loaded.change.branch, "main");
    assert_eq!(loaded.threads.threads.len(), 1);
    assert!(!loaded.is_empty());
}

#[test]
fn both_comment_endpoints_reach_triage() {
    let api = gerrit()
        .with_comments("src/a.rs", vec![load_comment("h1", 3, true)])
        .with_robot_comments("src/a.rs", vec![load_robot("r1", 3)]);
    let loaded = load_change(&api, "12345").unwrap();
    assert_eq!(loaded.threads.threads.len(), 2, "human + robot");
    assert!(loaded.threads.threads.iter().any(|t| t.is_robot()));
    assert!(loaded.threads.threads.iter().any(|t| !t.is_robot()));
}

#[test]
fn a_robot_and_a_human_comment_on_one_file_stay_separate_threads() {
    let api = gerrit()
        .with_comments("src/a.rs", vec![load_comment("h1", 3, true)])
        .with_robot_comments("src/a.rs", vec![load_robot("r1", 3)]);
    let loaded = load_change(&api, "12345").unwrap();
    let roots: Vec<&str> = loaded.threads.threads.iter().map(|t| t.root().id.as_str()).collect();
    assert_eq!(roots.len(), 2);
    assert!(roots.contains(&"h1") && roots.contains(&"r1"));
}

#[test]
fn older_patchset_threads_are_skipped_and_counted_through_the_load() {
    let api = gerrit().with_comments("src/a.rs", vec![load_comment("old", 1, true), load_comment("cur", 3, true)]);
    let loaded = load_change(&api, "12345").unwrap();
    assert_eq!(loaded.threads.threads.len(), 1);
    assert_eq!(loaded.threads.skipped_older_patchsets, 1);
}

#[test]
fn a_change_with_nothing_unresolved_loads_empty() {
    let api = gerrit().with_comments("src/a.rs", vec![load_comment("done", 3, false)]);
    let loaded = load_change(&api, "12345").unwrap();
    assert!(loaded.is_empty(), "callers exit gracefully on this");
    assert_eq!(loaded.threads.skipped_older_patchsets, 0);
}

#[test]
fn pseudo_paths_are_classified_through_the_load() {
    let api = gerrit()
        .with_comments("/COMMIT_MSG", vec![load_comment("m1", 3, true)])
        .with_comments("/PATCHSET_LEVEL", vec![load_comment("p1", 3, true)]);
    let loaded = load_change(&api, "12345").unwrap();
    let anchors: Vec<&CommentAnchor> = loaded.threads.threads.iter().map(|t| &t.anchor).collect();
    assert_eq!(anchors.len(), 2, "the two pseudo-paths are distinct keys");
    assert!(anchors.contains(&&CommentAnchor::CommitMessage));
    assert!(anchors.contains(&&CommentAnchor::ChangeLevel));
    assert!(anchors.iter().all(|a| a.file_path().is_none()));
    assert!(anchors.iter().all(|a| !a.is_editable_file()));
}

#[test]
fn thread_order_is_stable_across_loads() {
    let api = gerrit()
        .with_comments("src/z.rs", vec![load_comment("z1", 3, true)])
        .with_comments("src/a.rs", vec![load_comment("a1", 3, true)]);
    let first = load_change(&api, "12345").unwrap();
    let second = load_change(&api, "12345").unwrap();
    assert_eq!(first, second, "the triage queue must not reshuffle");
    assert_eq!(first.threads.threads[0].root().id, "a1", "paths in sorted order");
}

#[test]
fn an_unknown_change_fails_before_anything_else() {
    let err = load_change(&FakeGerrit::new(), "98765").unwrap_err();
    assert!(matches!(err, GerritError::NoSuchChange { .. }));
    assert!(err.describe().contains("98765"));
}

#[test]
fn a_load_request_is_served_by_loading_the_change() {
    let mut api = gerrit().with_comments("src/a.rs", vec![load_comment("c1", 3, true)]);
    match serve_one(&mut api, GerritRequest::LoadChange { change_id: "12345".into() }) {
        GerritEvent::ChangeLoaded(loaded) => {
            assert_eq!(loaded.change.branch, "main");
            assert_eq!(loaded.threads.threads.len(), 1);
        }
        other => panic!("expected ChangeLoaded, got {other:?}"),
    }
    assert!(api.posted_reviews().is_empty(), "loading posts nothing");
}

#[test]
fn a_failed_load_is_served_as_an_event_rather_than_a_panic() {
    let mut api = FakeGerrit::new();
    match serve_one(&mut api, GerritRequest::LoadChange { change_id: "98765".into() }) {
        GerritEvent::Failed(err) => assert!(err.describe().contains("98765")),
        other => panic!("expected Failed, got {other:?}"),
    }
}

#[test]
fn a_review_post_request_posts_once_and_reports_completion() {
    let mut api = gerrit();
    let event = serve_one(&mut api, GerritRequest::PostReview { change_id: "12345".into(), review: Box::new(ReviewInput::default()) });
    assert!(matches!(event, GerritEvent::ReviewPosted));
    assert_eq!(api.posted_reviews().len(), 1);
}

#[test]
fn gerrits_answers_load_into_current_threads_with_older_ones_counted() {
    let human = vec![("src/b.rs".to_string(), vec![load_comment("h1", 3, true), load_comment("h2", 2, true)])];
    let robot = vec![("src/a.rs".to_string(), vec![load_robot("r1", 3)])];
    let loaded = loaded_from(load_change_body(), human, &robot);
    assert_eq!(loaded.change.branch, "main");
    let paths: Vec<String> = loaded.threads.threads.iter().map(|t| t.anchor.gerrit_path().to_string()).collect();
    assert_eq!(paths, vec!["src/a.rs", "src/b.rs"], "paths in order");
    assert_eq!(loaded.threads.skipped_older_patchsets, 1, "the patchset-2 thread is counted, not triaged");
}
