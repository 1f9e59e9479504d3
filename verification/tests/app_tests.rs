use remendo::app::keys::{Key, KeyCode, action_for};
use remendo::app::render::truncate;
use remendo::app::tree::{entries, selected};
use remendo::app::{Action, App, Mode, Outcome};
use remendo::gerrit::thread::assemble;
use remendo::gerrit::{ChangeInfo, Comment, Thread};
use remendo::submit::Fate;
use remendo::triage::{Decision, Triage};
use remendo::verdict::{Adjudication, Verdict};

fn thread_on(path: &str, id: &str) -> Thread {
    let comment = Comment {
        unresolved: true,
        patch_set: 3,
        line: Some(1),
        message: format!("comment {id}"),
        ..Comment::with_id(id)
    };
    assemble(path, vec![comment]).remove(0)
}

fn change() -> ChangeInfo {
    ChangeInfo {
        project: "proj".into(),
        branch: "main".into(),
        subject: "s".into(),
        current_revision: "sha3".into(),
        ..ChangeInfo::with_id("12345")
    }
}

fn app_with(ids: &[&str]) -> App {
    let threads: Vec<Thread> = ids.iter().map(|id| thread_on("a.rs", id)).collect();
    App::new(Triage::new(threads, &[], 0), change(), "/wt")
}

fn key(code: KeyCode) -> Key {
    Key::new(code)
}

fn ch(c: char) -> Key {
    key(KeyCode::Char(c))
}

fn ctrl(c: char) -> Key {
    Key::ctrl(KeyCode::Char(c))
}

#[test]
fn deciding_advances_to_the_next_thread_wanting_attention() {
    let mut app = app_with(&["c1", "c2"]);
    app.handle(Action::Decide(Decision::Accept));
    assert_eq!(app.triage.cursor(), 1, "flow continues");
    assert!(app.is_running(), "but triage has not ended");
}

#[test]
fn deciding_the_last_thread_does_not_end_triage() {
    let mut app = app_with(&["c1"]);
    app.handle(Action::Decide(Decision::Accept));
    assert!(app.is_running());
    assert_eq!(app.mode, Mode::Triage);
}

#[test]
fn the_tree_toggles() {
    let mut app = app_with(&["c1"]);
    assert!(app.tree_visible);
    app.handle(Action::ToggleTree);
    assert!(!app.tree_visible);
    app.handle(Action::ToggleTree);
    assert!(app.tree_visible);
}

#[test]
fn the_worktree_path_is_obtainable_mid_review() {
    let mut app = app_with(&["c1"]);
    app.handle(Action::ShowWorktreePath);
    assert!(app.status.as_ref().unwrap().contains("/wt"));
}

#[test]
fn scrolling_clamps_at_the_top() {
    let mut app = app_with(&["c1"]);
    app.handle(Action::ScrollDocUp);
    assert_eq!(app.doc_scroll, 0);
    app.handle(Action::ScrollDocDown);
    assert_eq!(app.doc_scroll, 1);
}

#[test]
fn moving_between_threads_resets_the_document_scroll() {
    let mut app = app_with(&["c1", "c2"]);
    app.handle(Action::ScrollDocDown);
    app.handle(Action::Next);
    assert_eq!(app.doc_scroll, 0);
}

#[test]
fn editing_prose_starts_from_the_existing_comment() {
    let mut app = app_with(&["c1"]);
    app.handle(Action::BeginProseEdit);
    assert_eq!(app.mode, Mode::Prose);
    assert_eq!(app.minibuffer.as_ref().unwrap().input, "comment c1");
}

#[test]
fn submitted_prose_becomes_what_the_apply_turn_uses() {
    let mut app = app_with(&["c1"]);
    app.handle(Action::BeginProseEdit);
    for _ in 0.."comment c1".len() {
        app.handle(Action::Backspace);
    }
    for c in "rename only".chars() {
        app.handle(Action::Input(c));
    }
    app.handle(Action::Confirm);
    assert_eq!(app.mode, Mode::Triage);
    assert_eq!(app.triage.current().unwrap().effective_prose(), "rename only");
}

#[test]
fn cancelling_prose_leaves_the_comment_alone() {
    let mut app = app_with(&["c1"]);
    app.handle(Action::BeginProseEdit);
    app.handle(Action::Input('x'));
    app.handle(Action::Cancel);
    assert_eq!(app.mode, Mode::Triage);
    assert_eq!(app.triage.current().unwrap().effective_prose(), "comment c1");
}

#[test]
fn the_gate_reports_before_it_closes() {
    let mut app = app_with(&["c1", "c2"]);
    app.handle(Action::OpenGate);
    assert_eq!(app.mode, Mode::Gate);
    assert_eq!(app.gate.unwrap().undecided, 2);
    assert!(app.is_running(), "opening the question decides nothing");
}

#[test]
fn answering_the_gate_no_returns_to_triage_unchanged() {
    let mut app = app_with(&["c1"]);
    app.handle(Action::OpenGate);
    app.handle(Action::Cancel);
    assert_eq!(app.mode, Mode::Triage);
    assert!(app.is_running());
}

#[test]
fn answering_the_gate_yes_finishes_with_fates() {
    let mut app = app_with(&["c1", "c2"]);
    app.handle(Action::Decide(Decision::Accept));
    app.handle(Action::Decide(Decision::Defer));
    app.handle(Action::OpenGate);
    app.handle(Action::Confirm);
    match app.outcome() {
        Outcome::Finished(fates) => {
            assert_eq!(fates[0].fate, Fate::Accepted);
            assert_eq!(fates[1].fate, Fate::Skipped, "deferred becomes skipped");
        }
        other => panic!("expected Finished, got {other:?}"),
    }
}

#[test]
fn a_rejection_without_a_reply_diverts_the_gate_into_the_reply_pass() {
    let mut app = app_with(&["c1"]);
    app.handle(Action::Decide(Decision::Reject));
    app.handle(Action::OpenGate);
    app.handle(Action::Confirm);
    assert_eq!(app.mode, Mode::Reply, "not finished — a reply is owed");
    assert!(app.is_running());
    assert!(app.minibuffer.is_some());
}

#[test]
fn approving_a_reply_carries_it_to_the_fate() {
    let mut app = app_with(&["c1"]);
    app.handle(Action::Decide(Decision::Reject));
    app.handle(Action::OpenGate);
    app.handle(Action::Confirm);
    for c in "Bounded at 8.".chars() {
        app.handle(Action::Input(c));
    }
    app.handle(Action::Confirm);
    app.handle(Action::Confirm);
    match app.outcome() {
        Outcome::Finished(fates) => assert_eq!(fates[0].fate, Fate::Rejected { reply: Some("Bounded at 8.".into()) }),
        other => panic!("expected Finished, got {other:?}"),
    }
}

#[test]
fn an_empty_reply_is_a_declined_draft_and_posts_nothing() {
    let mut app = app_with(&["c1"]);
    app.handle(Action::Decide(Decision::Reject));
    app.handle(Action::OpenGate);
    app.handle(Action::Confirm);
    app.handle(Action::Confirm);
    app.handle(Action::Confirm);
    match app.outcome() {
        Outcome::Finished(fates) => assert_eq!(fates[0].fate, Fate::Rejected { reply: None }),
        other => panic!("expected Finished, got {other:?}"),
    }
}

#[test]
fn a_declined_draft_is_not_offered_again() {
    let mut app = app_with(&["c1"]);
    app.handle(Action::Decide(Decision::Reject));
    app.handle(Action::OpenGate);
    app.handle(Action::Confirm);
    assert_eq!(app.mode, Mode::Reply);
    app.handle(Action::Confirm);
    assert_eq!(app.mode, Mode::Gate, "a declined draft settles; it must not re-prompt");
    assert_eq!(app.triage.gate_report().unreplied, 0);
}

#[test]
fn several_rejections_are_replied_to_one_after_another() {
    let mut app = app_with(&["c1", "c2"]);
    app.handle(Action::Decide(Decision::Reject));
    app.handle(Action::Decide(Decision::Reject));
    app.handle(Action::OpenGate);
    app.handle(Action::Confirm);
    assert_eq!(app.mode, Mode::Reply);
    app.handle(Action::Input('a'));
    app.handle(Action::Confirm);
    assert_eq!(app.mode, Mode::Reply, "the second rejection still owes one");
    app.handle(Action::Input('b'));
    app.handle(Action::Confirm);
    assert_eq!(app.mode, Mode::Gate, "both answered, the question returns");
}

#[test]
fn quitting_aborts_without_fates() {
    let mut app = app_with(&["c1"]);
    app.handle(Action::Quit);
    assert_eq!(*app.outcome(), Outcome::Aborted);
    assert!(!app.is_running());
}

#[test]
fn skipped_and_unadjudicated_counts_are_stated_up_front() {
    let app = App::new(Triage::new(vec![thread_on("a.rs", "c1")], &[], 3), change(), "/wt");
    let notice = app.status.expect("a notice");
    assert!(notice.contains("3 thread(s) on earlier patchsets"));
    assert!(notice.contains("1 thread(s) have no verdict"));
}

#[test]
fn a_clean_load_says_nothing() {
    let verdict = Verdict {
        comment_id: "c1".into(),
        verdict: Adjudication::Agree,
        justification: "…".into(),
        depends_on: None,
    };
    let app = App::new(Triage::new(vec![thread_on("a.rs", "c1")], &[verdict], 0), change(), "/wt");
    assert_eq!(app.status, None);
}

#[test]
fn an_empty_queue_shows_a_placeholder_document() {
    let app = App::new(Triage::new(Vec::new(), &[], 0), change(), "/wt");
    let doc = app.current_document("msg", &remendo::apply::FakeWorktree::new());
    assert_eq!(doc.title, "no threads");
}

#[test]
fn every_decision_has_a_binding() {
    for (c, decision) in [
        ('a', Decision::Accept),
        ('r', Decision::Reject),
        ('d', Decision::Defer),
        ('h', Decision::FixedByHand),
    ] {
        assert_eq!(action_for(ch(c), Mode::Triage), Some(Action::Decide(decision)), "`{c}` should decide");
    }
}

#[test]
fn navigation_has_both_letter_and_arrow_bindings() {
    assert_eq!(action_for(ch('n'), Mode::Triage), Some(Action::Next));
    assert_eq!(action_for(key(KeyCode::Down), Mode::Triage), Some(Action::Next));
    assert_eq!(action_for(ch('p'), Mode::Triage), Some(Action::Prev));
    assert_eq!(action_for(key(KeyCode::Up), Mode::Triage), Some(Action::Prev));
    assert_eq!(action_for(key(KeyCode::Tab), Mode::Triage), Some(Action::NextUndecided));
}

#[test]
fn the_remaining_5_5_bindings_are_present() {
    assert_eq!(action_for(ch('e'), Mode::Triage), Some(Action::BeginProseEdit));
    assert_eq!(action_for(ch('t'), Mode::Triage), Some(Action::ToggleTree));
    assert_eq!(action_for(ch('w'), Mode::Triage), Some(Action::ShowWorktreePath));
}

#[test]
fn printable_keys_are_text_while_editing_not_commands() {
    for c in ['a', 'r', 'd', 'q', 'F'] {
        assert_eq!(action_for(ch(c), Mode::Prose), Some(Action::Input(c)), "`{c}` must be text in prose mode");
        assert_eq!(action_for(ch(c), Mode::Reply), Some(Action::Input(c)));
    }
}

#[test]
fn text_mode_submits_and_cancels() {
    assert_eq!(action_for(key(KeyCode::Enter), Mode::Prose), Some(Action::Confirm));
    assert_eq!(action_for(key(KeyCode::Esc), Mode::Prose), Some(Action::Cancel));
    assert_eq!(action_for(key(KeyCode::Backspace), Mode::Prose), Some(Action::Backspace));
}

#[test]
fn ending_triage_is_an_uppercase_deliberate_key() {
    assert_eq!(action_for(ch('F'), Mode::Triage), Some(Action::OpenGate));
    assert_eq!(action_for(ch('f'), Mode::Triage), None, "lowercase must not end triage by accident");
}

#[test]
fn the_gate_is_a_yes_no_question() {
    assert_eq!(action_for(ch('y'), Mode::Gate), Some(Action::Confirm));
    assert_eq!(action_for(key(KeyCode::Enter), Mode::Gate), Some(Action::Confirm));
    assert_eq!(action_for(ch('n'), Mode::Gate), Some(Action::Cancel));
    assert_eq!(action_for(key(KeyCode::Esc), Mode::Gate), Some(Action::Cancel));
}

#[test]
fn n_means_next_in_triage_but_no_at_the_gate() {
    assert_eq!(action_for(ch('n'), Mode::Triage), Some(Action::Next));
    assert_eq!(action_for(ch('n'), Mode::Gate), Some(Action::Cancel));
}

#[test]
fn ctrl_c_quits_from_every_mode() {
    for mode in [Mode::Triage, Mode::Prose, Mode::Reply, Mode::Gate] {
        assert_eq!(action_for(ctrl('c'), mode), Some(Action::Quit), "ctrl-c must escape {mode:?}");
    }
}

#[test]
fn unbound_keys_produce_nothing() {
    assert_eq!(action_for(key(KeyCode::Other), Mode::Triage), None);
    assert_eq!(action_for(key(KeyCode::Other), Mode::Gate), None);
}

#[test]
fn truncation_counts_characters_not_bytes() {
    assert_eq!(truncate("hello", 10), "hello");
    assert_eq!(truncate("hello", 5), "hello");
    assert_eq!(truncate("hello", 4), "hel…");
    assert_eq!(truncate("ãéîõü", 3), "ãé…");
}

#[test]
fn truncation_survives_a_zero_width() {
    assert_eq!(truncate("hello", 0), "…");
}

fn triage_of(pairs: &[(&str, &str)]) -> Triage {
    let threads = pairs.iter().map(|(p, id)| thread_on(p, id)).collect();
    Triage::new(threads, &[], 0)
}

#[test]
fn threads_are_grouped_by_document_with_counts() {
    let triage = triage_of(&[("a.rs", "c1"), ("a.rs", "c2"), ("b.rs", "c3")]);
    let entries = entries(&triage);
    assert_eq!(entries.len(), 2);
    assert_eq!(entries[0].path, "a.rs");
    assert_eq!(entries[0].total, 2);
    assert_eq!(entries[1].total, 1);
}

#[test]
fn progress_tracks_decisions() {
    let mut triage = triage_of(&[("a.rs", "c1"), ("a.rs", "c2")]);
    assert_eq!(entries(&triage)[0].progress(), "0/2");
    assert!(!entries(&triage)[0].is_complete());
    triage.decide(Decision::Accept);
    assert_eq!(entries(&triage)[0].progress(), "1/2");
    triage.next();
    triage.decide(Decision::Reject);
    let entries = entries(&triage);
    assert_eq!(entries[0].progress(), "2/2");
    assert!(entries[0].is_complete());
}

#[test]
fn a_deferred_thread_counts_as_decided_for_progress() {
    let mut triage = triage_of(&[("a.rs", "c1")]);
    triage.decide(Decision::Defer);
    assert_eq!(entries(&triage)[0].progress(), "1/1");
}

#[test]
fn pseudo_paths_appear_and_are_marked_as_non_files() {
    let triage = triage_of(&[("a.rs", "c1"), ("/COMMIT_MSG", "m1"), ("/PATCHSET_LEVEL", "p1")]);
    let entries = entries(&triage);
    assert_eq!(entries.len(), 3);
    assert!(entries[0].is_file);
    assert!(!entries[1].is_file, "/COMMIT_MSG is not a file");
    assert!(!entries[2].is_file, "/PATCHSET_LEVEL is not a file");
    assert_eq!(entries[0].kind_marker(), " ");
    assert_eq!(entries[1].kind_marker(), "*");
}

#[test]
fn order_follows_the_queue_not_the_alphabet() {
    let triage = triage_of(&[("z.rs", "c1"), ("a.rs", "c2")]);
    let entries = entries(&triage);
    assert_eq!(entries[0].path, "z.rs", "the queue's order, not sorted");
}

#[test]
fn the_selected_entry_follows_the_cursor() {
    let mut triage = triage_of(&[("a.rs", "c1"), ("b.rs", "c2")]);
    let entries = entries(&triage);
    assert_eq!(selected(&triage, &entries), Some(0));
    triage.next();
    assert_eq!(selected(&triage, &entries), Some(1));
}

#[test]
fn an_empty_queue_has_no_entries() {
    let triage = Triage::new(Vec::new(), &[], 0);
    assert!(entries(&triage).is_empty());
    assert_eq!(selected(&triage, &[]), None);
}
