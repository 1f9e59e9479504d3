use remendo::gerrit::thread::{ThreadSet, assemble};
use remendo::gerrit::{Author, ChangeInfo, Comment, LoadedChange, RevisionInfo};
use remendo::report::{endpoint_of, fates_report, threads_report, workspace_report};
use remendo::submit::{Fate, TriagedThread};
use remendo::workspace::{SessionPaths, Workspace};

fn change() -> ChangeInfo {
    ChangeInfo {
        project: "platform/base".into(),
        branch: "main".into(),
        subject: "Tighten the parser".into(),
        current_revision: "d3adb33f".into(),
        revisions: vec![("d3adb33f".into(), RevisionInfo { number: 3, git_ref: None })],
        ..ChangeInfo::with_id("12345")
    }
}

fn comment(id: &str, line: Option<u32>, author: &str) -> Comment {
    Comment {
        unresolved: true,
        patch_set: 3,
        line,
        author: Author { account_id: None, name: Some(author.into()), email: None },
        ..Comment::with_id(id)
    }
}

#[test]
fn the_endpoint_comes_from_the_origin_remote() {
    assert_eq!(
        endpoint_of("ssh://me@gerrit.corp:29418/proj").unwrap(),
        ("https://gerrit.corp/".to_string(), "gerrit.corp".to_string())
    );
    assert_eq!(endpoint_of("git@gerrit.corp:proj.git").unwrap_err(), "could not derive Gerrit's URL from origin `git@gerrit.corp:proj.git`");
}

#[test]
fn the_workspace_report_says_what_was_opened() {
    let ws = Workspace { change: change(), paths: SessionPaths::new("/state", "platform/base", "12345").unwrap(), resumed: true };
    assert_eq!(
        workspace_report(&ws),
        "12345 — Tighten the parser\n  project  platform/base\n  branch   main\n  patchset 3 (d3adb33f)\n  worktree /state/remendo/platform/base/12345/worktree (resumed)\n"
    );
}

#[test]
fn the_threads_report_lists_each_thread_and_states_what_was_skipped() {
    let mut threads = assemble("src/a.rs", vec![comment("c1", Some(10), "Ana")]);
    threads.extend(assemble("/COMMIT_MSG", vec![comment("c2", Some(7), "Bo"), Comment { in_reply_to: Some("c2".into()), updated: "2".into(), ..comment("c3", Some(7), "Cy") }]));
    let loaded = LoadedChange { change: change(), threads: ThreadSet { threads, skipped_older_patchsets: 2 } };
    assert_eq!(
        threads_report(&loaded),
        "\n2 unresolved thread(s) to triage:\n  src/a.rs:10  (1 comment(s), by Ana)\n  CommitMessage  (2 comment(s), by Bo)\n\n2 unresolved thread(s) on earlier patchsets were NOT triaged — their line anchors address code that has since changed.\n"
    );
}

#[test]
fn an_empty_change_is_reported_as_such() {
    let loaded = LoadedChange { change: change(), threads: ThreadSet { threads: vec![], skipped_older_patchsets: 0 } };
    assert_eq!(threads_report(&loaded), "\nNo unresolved comment threads on the current patchset.\n");
}

#[test]
fn the_fates_report_counts_what_triage_decided() {
    let thread = assemble("src/a.rs", vec![comment("c1", Some(1), "Ana")]).remove(0);
    let fates = vec![
        TriagedThread { thread: thread.clone(), fate: Fate::Accepted },
        TriagedThread { thread: thread.clone(), fate: Fate::FixedByHand },
        TriagedThread { thread: thread.clone(), fate: Fate::Rejected { reply: Some("No.".into()) } },
        TriagedThread { thread: thread.clone(), fate: Fate::Rejected { reply: None } },
        TriagedThread { thread, fate: Fate::Skipped },
    ];
    assert_eq!(fates_report(&fates), "triage complete: 2 to resolve, 1 to reply to, 2 left alone\n");
}
