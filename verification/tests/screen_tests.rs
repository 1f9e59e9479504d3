use remendo::app::render::{
    Piece, Tone, decision_suffix, document_top, gate_text, line_number, status_text, thread_lines, tree_line,
    verdict_lines,
};
use remendo::app::tree::TreeEntry;
use remendo::app::App;
use remendo::gerrit::thread::assemble;
use remendo::gerrit::{Author, ChangeInfo, Comment, Thread};
use remendo::pane::{Cursor, DocumentPane, selection_cells};
use remendo::triage::{Decision, GateReport, Reply, Triage, TriageItem};
use remendo::verdict::{Adjudication, Dependency, DependencyKind, Verdict};

fn comment(id: &str, author: Option<&str>, message: &str) -> Comment {
    Comment {
        unresolved: true,
        patch_set: 3,
        line: Some(1),
        message: message.into(),
        author: Author { account_id: None, name: author.map(|a| a.to_string()), email: None },
        ..Comment::with_id(id)
    }
}

fn thread(comments: Vec<Comment>) -> Thread {
    assemble("a.rs", comments).remove(0)
}

fn item(verdict: Option<Verdict>, decision: Option<Decision>) -> TriageItem {
    TriageItem {
        thread: thread(vec![comment("c1", Some("Ana"), "Check for null.")]),
        verdict,
        decision,
        edited_prose: None,
        reply: Reply::Pending,
    }
}

fn verdict(depends_on: Option<Vec<Dependency>>) -> Verdict {
    Verdict { comment_id: "c1".into(), verdict: Adjudication::Agree, justification: "Real issue.".into(), depends_on }
}

fn texts(lines: &[Vec<Piece>]) -> Vec<String> {
    lines.iter().map(|l| l.iter().map(|p| p.text.as_str()).collect::<String>()).collect()
}

fn piece(text: &str, tone: Tone) -> Piece {
    Piece { text: text.into(), tone }
}

#[test]
fn each_decision_is_shown_after_the_adjudication() {
    assert_eq!(decision_suffix(Some(Decision::Accept)), "   → accepted");
    assert_eq!(decision_suffix(Some(Decision::Reject)), "   → rejected");
    assert_eq!(decision_suffix(Some(Decision::Defer)), "   → deferred");
    assert_eq!(decision_suffix(Some(Decision::FixedByHand)), "   → fixed by hand");
    assert_eq!(decision_suffix(None), "");
}

#[test]
fn a_missing_verdict_looks_missing() {
    let lines = verdict_lines(&item(None, None));
    assert_eq!(lines, vec![vec![piece("UNADJUDICATED — the verdict pass produced nothing for this thread", Tone::Alarm)]]);
}

#[test]
fn a_self_contained_verdict_says_it_rests_on_the_code() {
    let lines = verdict_lines(&item(Some(verdict(None)), Some(Decision::Accept)));
    assert_eq!(lines[0], vec![piece("AGREE", Tone::Agree), piece("   → accepted", Tone::Muted)]);
    assert_eq!(texts(&lines), vec!["AGREE   → accepted", "Real issue.", "", "rests on the code alone"]);
    assert_eq!(lines[3][0].tone, Tone::Muted);
}

#[test]
fn the_facts_a_verdict_rests_on_are_listed_with_their_check() {
    let deps = vec![
        Dependency {
            fact: "CI runs clippy".into(),
            kind: DependencyKind::CiConfig,
            verify: "look at .gitlab-ci.yml".into(),
            flips_to: Some(Adjudication::Disagree),
        },
        Dependency { fact: "Team style".into(), kind: DependencyKind::TeamConvention, verify: "ask".into(), flips_to: None },
    ];
    let lines = verdict_lines(&item(Some(verdict(Some(deps))), None));
    assert_eq!(
        texts(&lines),
        vec![
            "AGREE",
            "Real issue.",
            "",
            "RESTS ON — settle these yourself",
            "• CI runs clippy",
            "  check: look at .gitlab-ci.yml",
            "  otherwise → disagree",
            "• Team style",
            "  check: ask",
        ]
    );
    assert_eq!(lines[3][0].tone, Tone::Heading);
}

#[test]
fn the_thread_panel_shows_every_comment_under_its_author() {
    let mut it = item(None, None);
    it.thread = thread(vec![
        comment("c1", Some("Ana"), "Check for null."),
        Comment { in_reply_to: Some("c1".into()), updated: "2024-01-02".into(), ..comment("c2", None, "Still open?") },
    ]);
    it.edited_prose = Some("Check for None.".into());
    let lines = thread_lines(&it);
    assert_eq!(
        texts(&lines),
        vec!["Ana:", "Check for null.", "(unknown):", "Still open?", "(edited) Check for None."]
    );
    assert_eq!(lines[0][0].tone, Tone::Heading);
    assert_eq!(lines[4][0].tone, Tone::Edited);
}

#[test]
fn the_gate_names_what_would_be_left_untouched() {
    assert_eq!(gate_text(&GateReport { undecided: 0, deferred: 0, unreplied: 0 }), " End triage and begin applying? (y/n) ");
    assert_eq!(
        gate_text(&GateReport { undecided: 2, deferred: 1, unreplied: 3 }),
        " End triage? 2 undecided, 1 deferred, 3 awaiting a reply — undecided and deferred will be left untouched. (y/n) "
    );
}

fn change() -> ChangeInfo {
    ChangeInfo { project: "proj".into(), branch: "main".into(), current_revision: "sha3".into(), ..ChangeInfo::with_id("12345") }
}

#[test]
fn the_status_row_shows_position_undecided_and_keys() {
    let threads = vec![thread(vec![comment("c1", None, "x")]), thread(vec![comment("c2", None, "y")])];
    let mut app = App::new(Triage::new(threads, &[], 0), change(), "/wt");
    app.status = None;
    assert_eq!(
        status_text(&app),
        " 1/2  2 undecided   a accept · r reject · d defer · h hand · e edit · tab next-undecided · t tree · w worktree · F finish · q quit "
    );
    app.status = Some("worktree: /wt".into());
    assert_eq!(status_text(&app), " worktree: /wt ");
}

#[test]
fn a_tree_line_marks_pseudo_paths_and_fits_its_column() {
    let file = TreeEntry { path: "src/a.rs".into(), is_file: true, total: 3, decided: 2 };
    assert_eq!(tree_line(&file, 24), " src/a.rs 2/3");
    let msg = TreeEntry { path: "/COMMIT_MSG".into(), is_file: false, total: 1, decided: 0 };
    assert_eq!(tree_line(&msg, 14), "*/COMM… 0/1");
}

#[test]
fn the_anchor_sits_a_third_of_the_way_down() {
    assert_eq!(document_top(Some(30), 30, 0), 20);
    assert_eq!(document_top(Some(30), 30, 4), 24);
    assert_eq!(document_top(Some(2), 30, 0), 0, "no scrolling above the first line");
    assert_eq!(document_top(None, 30, 5), 5);
}

#[test]
fn line_numbers_are_right_aligned_and_one_based() {
    assert_eq!(line_number(0, 4), "   1 ");
    assert_eq!(line_number(99, 3), "100 ");
    assert_eq!(line_number(12345, 3), "12346 ", "a wide number is never cut");
}

#[test]
fn a_selection_covers_its_cells_on_each_row() {
    // From (1, 2) to (3, 4) in a view 10 columns wide, not scrolled.
    assert_eq!(selection_cells(0, (1, 2), (3, 4), 0, 5, 10), None, "before the selection");
    assert_eq!(selection_cells(1, (1, 2), (3, 4), 0, 5, 10), Some((2, 4)), "to one past the line's end");
    assert_eq!(selection_cells(2, (1, 2), (3, 4), 0, 7, 10), Some((0, 8)));
    assert_eq!(selection_cells(3, (1, 2), (3, 4), 0, 9, 10), Some((0, 4)));
    assert_eq!(selection_cells(4, (1, 2), (3, 4), 0, 9, 10), None, "after the selection");
    // Scrolled past the selected part of a row, nothing is painted there.
    assert_eq!(selection_cells(3, (1, 2), (3, 4), 6, 9, 10), None);
    // Clipped to the view's width.
    assert_eq!(selection_cells(2, (1, 2), (3, 4), 0, 30, 10), Some((0, 10)));
}

#[test]
fn the_pane_status_names_the_document_and_the_cursor() {
    let mut pane = DocumentPane::new();
    pane.cursor = Cursor { line: 4, col: 0, target_col: 0 };
    assert_eq!(pane.status_text(Some("src/a.rs")), " src/a.rs    Ln 5, Col 1 ");
    assert_eq!(pane.status_text(None), " [No Name]    Ln 5, Col 1 ");
}

#[test]
fn the_current_line_row_follows_the_scroll() {
    let mut pane = DocumentPane::new();
    pane.cursor = Cursor { line: 12, col: 7, target_col: 7 };
    pane.scroll_row = 10;
    pane.scroll_col = 3;
    assert_eq!(pane.current_line_row(5), Some(2));
    assert_eq!(pane.current_line_row(2), None, "below the view");
    assert_eq!(pane.cursor_cell(), (4, 2));
    pane.scroll_row = 20;
    assert_eq!(pane.current_line_row(5), None, "above the view");
    assert_eq!(pane.cursor_cell(), (4, 0));
}
