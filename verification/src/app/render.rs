//! What the terminal front end shows, as text: the verdict panel, the
//! thread, the bottom row, the tree lines, and fitting text to a width.
//! Colours and layout are the front end's; every word is decided here.

use vstd::prelude::*;
use crate::text::{chars_of, string_of, string_of_range, push_char, push_str, push_decimal, spec_decimal};
use crate::triage::{Decision, ItemView, TriageItem, GateReport, count};
use crate::verdict::{Adjudication, DependencyView, spec_dependencies};
use crate::gerrit::comment::{CommentView, unknown_author};
use crate::app::App;
use crate::app::tree::TreeEntry;

verus! {

/// `text` cut to `width` columns: whole when it fits, otherwise its first
/// `width - 1` characters and an ellipsis. Characters are counted, not bytes,
/// so a multi-byte line is never split mid-character.
pub open spec fn spec_truncate(text: Seq<char>, width: nat) -> Seq<char> {
    if text.len() <= width {
        text
    } else {
        text.take(if width > 0 { width - 1 } else { 0 }).push('…')
    }
}

/// Cut `text` to `width` columns.
pub fn truncate(text: &str, width: usize) -> (r: String)
    ensures
        r@ == spec_truncate(text@, width as nat),
        width > 0 ==> r@.len() <= width,
        text@.len() <= width ==> r@ == text@,
{
    let v = chars_of(text);
    if v.len() <= width {
        return string_of(v.as_slice());
    }
    let keep = if width > 0 { width - 1 } else { 0 };
    let mut s = string_of_range(v.as_slice(), 0, keep);
    push_char(&mut s, '…');
    s
}


/// How a run of text is emphasised; the front end picks the colours.
#[derive(Debug, Clone, Copy, PartialEq, Eq, Structural)]
pub enum Tone {
    Plain,
    Muted,
    /// A heading: an author, or what a verdict rests on.
    Heading,
    /// An adjudication, in its own colour.
    Agree,
    Disagree,
    Unsure,
    /// Something missing that must look missing.
    Alarm,
    /// The user's edited prose.
    Edited,
}

/// A run of text in one tone.
#[derive(Debug, Clone, PartialEq, Eq)]
pub struct Piece {
    pub text: String,
    pub tone: Tone,
}

pub open spec fn piece_views(line: Seq<Piece>) -> Seq<(Seq<char>, Tone)> {
    line.map_values(|p: Piece| (p.text@, p.tone))
}

pub open spec fn line_views(lines: Seq<Vec<Piece>>) -> Seq<Seq<(Seq<char>, Tone)>> {
    lines.map_values(|l: Vec<Piece>| piece_views(l@))
}

/// A line of one piece.
pub open spec fn single(text: Seq<char>, tone: Tone) -> Seq<Seq<(Seq<char>, Tone)>> {
    seq![seq![(text, tone)]]
}

fn push_single(lines: &mut Vec<Vec<Piece>>, text: String, tone: Tone)
    ensures
        line_views(final(lines)@) == line_views(old(lines)@) + single(text@, tone),
{
    let ghost before = lines@;
    let line = vec![Piece { text, tone }];
    assert(piece_views(line@) =~= seq![(text@, tone)]);
    lines.push(line);
    assert(line_views(lines@) =~= line_views(before) + single(text@, tone));
}

/// What the user decided, after the adjudication.
pub open spec fn spec_decision_suffix(d: Option<Decision>) -> Seq<char> {
    match d {
        Some(Decision::Accept) => "   → accepted"@,
        Some(Decision::Reject) => "   → rejected"@,
        Some(Decision::Defer) => "   → deferred"@,
        Some(Decision::FixedByHand) => "   → fixed by hand"@,
        None => Seq::empty(),
    }
}

/// What the user decided, shown after the adjudication; nothing before a
/// decision.
pub fn decision_suffix(decision: Option<Decision>) -> (r: &'static str)
    ensures
        r@ == spec_decision_suffix(decision),
{
    match decision {
        Some(Decision::Accept) => "   → accepted",
        Some(Decision::Reject) => "   → rejected",
        Some(Decision::Defer) => "   → deferred",
        Some(Decision::FixedByHand) => "   → fixed by hand",
        None => {
            proof { reveal_strlit(""); }
            ""
        },
    }
}

/// An adjudication's label in capitals.
pub open spec fn shouted_label(a: Adjudication) -> Seq<char> {
    match a {
        Adjudication::Agree => "AGREE"@,
        Adjudication::Disagree => "DISAGREE"@,
        Adjudication::Unsure => "UNSURE"@,
    }
}

/// An adjudication's label.
pub open spec fn spec_label(a: Adjudication) -> Seq<char> {
    match a {
        Adjudication::Agree => "agree"@,
        Adjudication::Disagree => "disagree"@,
        Adjudication::Unsure => "unsure"@,
    }
}

pub open spec fn label_tone(a: Adjudication) -> Tone {
    match a {
        Adjudication::Agree => Tone::Agree,
        Adjudication::Disagree => Tone::Disagree,
        Adjudication::Unsure => Tone::Unsure,
    }
}

fn shouted(a: Adjudication) -> (r: &'static str)
    ensures
        r@ == shouted_label(a),
{
    match a {
        Adjudication::Agree => "AGREE",
        Adjudication::Disagree => "DISAGREE",
        Adjudication::Unsure => "UNSURE",
    }
}

fn tone_of(a: Adjudication) -> (r: Tone)
    ensures
        r == label_tone(a),
{
    match a {
        Adjudication::Agree => Tone::Agree,
        Adjudication::Disagree => Tone::Disagree,
        Adjudication::Unsure => Tone::Unsure,
    }
}

/// The lines of one fact a verdict rests on: the fact, how to check it, and
/// what the verdict would become were it false. The check is prose, shown and
/// never run.
pub open spec fn dependency_block(d: DependencyView) -> Seq<Seq<(Seq<char>, Tone)>> {
    single("• "@ + d.fact, Tone::Plain) + single("  check: "@ + d.verify, Tone::Muted) + match d.flips_to {
        Some(a) => single("  otherwise → "@ + spec_label(a), Tone::Muted),
        None => Seq::empty(),
    }
}

pub open spec fn dependency_blocks(ds: Seq<DependencyView>) -> Seq<Seq<(Seq<char>, Tone)>>
    decreases ds.len(),
{
    if ds.len() == 0 {
        Seq::empty()
    } else {
        dependency_blocks(ds.drop_last()) + dependency_block(ds.last())
    }
}

/// The text of the unadjudicated state.
pub open spec fn unadjudicated_text() -> Seq<char> {
    "UNADJUDICATED — the verdict pass produced nothing for this thread"@
}

/// The verdict panel of a thread: its adjudication with the user's decision,
/// the justification, and the facts it rests on; a thread without a verdict
/// says so instead of showing an empty one.
pub open spec fn spec_verdict_lines(i: ItemView) -> Seq<Seq<(Seq<char>, Tone)>> {
    match i.verdict {
        None => single(unadjudicated_text(), Tone::Alarm),
        Some(v) => {
            let ds = spec_dependencies(v);
            seq![seq![(shouted_label(v.verdict), label_tone(v.verdict)), (spec_decision_suffix(i.decision), Tone::Muted)]]
                + single(v.justification, Tone::Plain) + single(Seq::empty(), Tone::Plain)
                + if ds.len() == 0 {
                    single("rests on the code alone"@, Tone::Muted)
                } else {
                    single("RESTS ON — settle these yourself"@, Tone::Heading) + dependency_blocks(ds)
                }
        },
    }
}

/// The verdict panel of `item`.
pub fn verdict_lines(item: &TriageItem) -> (r: Vec<Vec<Piece>>)
    ensures
        line_views(r@) == spec_verdict_lines(item@),
{
    let mut lines: Vec<Vec<Piece>> = Vec::new();
    let verdict = match &item.verdict {
        Some(v) => v,
        None => {
            push_single(&mut lines, "UNADJUDICATED — the verdict pass produced nothing for this thread".to_owned(), Tone::Alarm);
            assert(line_views(lines@) =~= spec_verdict_lines(item@));
            return lines;
        },
    };
    let header = vec![
        Piece { text: shouted(verdict.verdict).to_owned(), tone: tone_of(verdict.verdict) },
        Piece { text: decision_suffix(item.decision).to_owned(), tone: Tone::Muted },
    ];
    assert(piece_views(header@) =~= seq![(shouted_label(verdict.verdict), label_tone(verdict.verdict)),
        (spec_decision_suffix(item.decision), Tone::Muted)]);
    lines.push(header);
    assert(line_views(lines@) =~= seq![piece_views(header@)]);
    push_single(&mut lines, crate::text::copy_string(&verdict.justification), Tone::Plain);
    push_single(&mut lines, String::new(), Tone::Plain);
    let ghost top = line_views(lines@);
    let deps = verdict.dependencies();
    if deps.len() == 0 {
        push_single(&mut lines, "rests on the code alone".to_owned(), Tone::Muted);
        assert(line_views(lines@) =~= spec_verdict_lines(item@));
        return lines;
    }
    push_single(&mut lines, "RESTS ON — settle these yourself".to_owned(), Tone::Heading);
    let ghost head = line_views(lines@);
    let ghost ds = spec_dependencies(verdict@);
    let mut k: usize = 0;
    assert(ds.take(0) =~= Seq::<DependencyView>::empty());
    assert(head =~= head + dependency_blocks(ds.take(0)));
    while k < deps.len()
        invariant
            k <= deps@.len(),
            crate::verdict::dependency_views(deps@) == ds,
            line_views(lines@) == head + dependency_blocks(ds.take(k as int)),
        decreases deps@.len() - k,
    {
        let d = &deps[k];
        assert(ds[k as int] == d@);
        assert(ds.take(k + 1).drop_last() =~= ds.take(k as int));
        let mut fact = String::new();
        push_str(&mut fact, "• ");
        push_str(&mut fact, d.fact.as_str());
        push_single(&mut lines, fact, Tone::Plain);
        let mut check = String::new();
        push_str(&mut check, "  check: ");
        push_str(&mut check, d.verify.as_str());
        push_single(&mut lines, check, Tone::Muted);
        match d.flips_to {
            Some(a) => {
                let mut other = String::new();
                push_str(&mut other, "  otherwise → ");
                push_str(&mut other, a.label());
                push_single(&mut lines, other, Tone::Muted);
            },
            None => {},
        }
        assert(line_views(lines@) =~= head + dependency_blocks(ds.take(k + 1)));
        k = k + 1;
    }
    assert(ds.take(deps@.len() as int) =~= ds);
    assert(line_views(lines@) =~= spec_verdict_lines(item@));
    lines
}

/// An author's name, or the placeholder for a comment without one.
pub open spec fn author_of(c: CommentView) -> Seq<char> {
    match c.author.name {
        Some(n) => n,
        None => unknown_author(),
    }
}

pub open spec fn comment_blocks(cs: Seq<CommentView>) -> Seq<Seq<(Seq<char>, Tone)>>
    decreases cs.len(),
{
    if cs.len() == 0 {
        Seq::empty()
    } else {
        comment_blocks(cs.drop_last()) + single(author_of(cs.last()) + ":"@, Tone::Heading)
            + single(cs.last().message, Tone::Plain)
    }
}

/// The whole exchange, oldest first, each comment under its author, then the
/// user's edited prose when there is some.
pub open spec fn spec_thread_lines(i: ItemView) -> Seq<Seq<(Seq<char>, Tone)>> {
    comment_blocks(i.thread.comments) + match i.edited_prose {
        Some(e) => single("(edited) "@ + e, Tone::Edited),
        None => Seq::empty(),
    }
}

/// The thread panel of `item`.
pub fn thread_lines(item: &TriageItem) -> (r: Vec<Vec<Piece>>)
    ensures
        line_views(r@) == spec_thread_lines(item@),
{
    let mut lines: Vec<Vec<Piece>> = Vec::new();
    let comments = &item.thread.comments;
    let ghost cs = item@.thread.comments;
    let mut k: usize = 0;
    assert(cs.take(0) =~= Seq::<CommentView>::empty());
    while k < comments.len()
        invariant
            k <= comments@.len(),
            cs == comments@.map_values(|c: crate::gerrit::comment::Comment| c@),
            line_views(lines@) == comment_blocks(cs.take(k as int)),
        decreases comments@.len() - k,
    {
        let c = &comments[k];
        assert(cs[k as int] == c@);
        assert(cs.take(k + 1).drop_last() =~= cs.take(k as int));
        let mut head = String::new();
        push_str(&mut head, c.author_name());
        push_str(&mut head, ":");
        push_single(&mut lines, head, Tone::Heading);
        push_single(&mut lines, crate::text::copy_string(&c.message), Tone::Plain);
        assert(line_views(lines@) =~= comment_blocks(cs.take(k + 1)));
        k = k + 1;
    }
    assert(cs.take(comments@.len() as int) =~= cs);
    match &item.edited_prose {
        Some(e) => {
            let mut t = String::new();
            push_str(&mut t, "(edited) ");
            push_str(&mut t, e.as_str());
            push_single(&mut lines, t, Tone::Edited);
        },
        None => {},
    }
    assert(line_views(lines@) =~= spec_thread_lines(item@));
    lines
}

/// The end-of-triage question: a plain yes/no when nothing is unsettled,
/// otherwise what would be left untouched.
pub open spec fn spec_gate_text(undecided: nat, deferred: nat, unreplied: nat) -> Seq<char> {
    if undecided == 0 && deferred == 0 && unreplied == 0 {
        " End triage and begin applying? (y/n) "@
    } else {
        " End triage? "@ + spec_decimal(undecided) + " undecided, "@ + spec_decimal(deferred) + " deferred, "@
            + spec_decimal(unreplied) + " awaiting a reply — undecided and deferred will be left untouched. (y/n) "@
    }
}

/// The end-of-triage question for `report`.
pub fn gate_text(report: &GateReport) -> (r: String)
    ensures
        r@ == spec_gate_text(report.undecided as nat, report.deferred as nat, report.unreplied as nat),
{
    if report.is_clean() {
        return " End triage and begin applying? (y/n) ".to_owned();
    }
    let mut s = String::new();
    push_str(&mut s, " End triage? ");
    push_decimal(&mut s, report.undecided as u64);
    push_str(&mut s, " undecided, ");
    push_decimal(&mut s, report.deferred as u64);
    push_str(&mut s, " deferred, ");
    push_decimal(&mut s, report.unreplied as u64);
    push_str(&mut s, " awaiting a reply — undecided and deferred will be left untouched. (y/n) ");
    s
}

/// The key help shown while triaging.
pub open spec fn key_help() -> Seq<char> {
    "   a accept · r reject · d defer · h hand · e edit · tab next-undecided · t tree · w worktree · F finish · q quit "@
}

/// The bottom row while triaging: a pending message, or where the cursor is,
/// how many threads are undecided, and the keys.
pub open spec fn spec_status_text(status: Option<Seq<char>>, cursor: nat, len: nat, undecided: nat) -> Seq<char> {
    match status {
        Some(s) => " "@ + s + " "@,
        None => " "@ + spec_decimal(cursor + 1) + "/"@ + spec_decimal(len) + "  "@ + spec_decimal(undecided)
            + " undecided"@ + key_help(),
    }
}

/// The bottom row of `app` outside the end-of-triage question.
pub fn status_text(app: &App) -> (r: String)
    requires
        app.triage.wf(),
    ensures
        r@ == spec_status_text(crate::gerrit::comment::opt_view(app.status), app.triage.cursor as nat,
            app.triage.items@.len(), count(app.triage.view_items(), 1)),
{
    let mut s = String::new();
    match &app.status {
        Some(status) => {
            push_str(&mut s, " ");
            push_str(&mut s, status.as_str());
            push_str(&mut s, " ");
        },
        None => {
            let len = app.triage.len();
            let cursor = app.triage.cursor();
            assert(cursor < len || cursor == 0);
            push_str(&mut s, " ");
            push_decimal(&mut s, (cursor + 1) as u64);
            push_str(&mut s, "/");
            push_decimal(&mut s, len as u64);
            push_str(&mut s, "  ");
            push_decimal(&mut s, app.triage.undecided() as u64);
            push_str(&mut s, " undecided");
            push_str(&mut s, "   a accept · r reject · d defer · h hand · e edit · tab next-undecided · t tree · w worktree · F finish · q quit ");
        },
    }
    s
}

/// One line of the tree: the pseudo-path marker, the path cut to the column,
/// and the progress.
pub fn tree_line(entry: &TreeEntry, width: usize) -> (r: String)
    requires
        width >= 8,
    ensures
        r@ == (if entry.is_file { " "@ } else { "*"@ }) + spec_truncate(entry.path@, (width - 8) as nat) + " "@
            + spec_decimal(entry.decided as nat) + "/"@ + spec_decimal(entry.total as nat),
{
    let mut s = String::new();
    push_str(&mut s, entry.kind_marker());
    let cut = truncate(entry.path.as_str(), width - 8);
    push_str(&mut s, cut.as_str());
    push_str(&mut s, " ");
    let progress = entry.progress();
    push_str(&mut s, progress.as_str());
    s
}

/// The first document row shown: a third of the height above the anchored
/// line, then moved by the user's scrolling.
pub open spec fn spec_document_top(anchor: Option<usize>, height: nat, scroll: nat) -> int {
    let a: int = match anchor { Some(i) => i as int, None => 0 };
    let base: int = if a >= height / 3 { a - height / 3 } else { 0 };
    base + scroll
}

/// The first document row shown.
pub fn document_top(anchor: Option<usize>, height: usize, scroll: usize) -> (r: usize)
    requires
        spec_document_top(anchor, height as nat, scroll as nat) <= usize::MAX,
    ensures
        r == spec_document_top(anchor, height as nat, scroll as nat),
{
    let a = match anchor {
        Some(i) => i,
        None => 0,
    };
    let third = height / 3;
    let base = if a >= third { a - third } else { 0 };
    base + scroll
}

/// `s` right-aligned in `width` columns: spaces before it when it is shorter.
pub open spec fn pad_left(s: Seq<char>, width: nat) -> Seq<char> {
    if s.len() >= width {
        s
    } else {
        Seq::new((width - s.len()) as nat, |i: int| ' ') + s
    }
}

/// A line-number gutter cell: the 1-based number right-aligned in `width`
/// columns, then a space.
pub fn line_number(index: usize, width: usize) -> (r: String)
    requires
        index < usize::MAX,
    ensures
        r@ == pad_left(spec_decimal((index + 1) as nat), width as nat) + " "@,
{
    let digits = crate::text::decimal((index as u64) + 1);
    let n = digits.unicode_len();
    let mut s = String::new();
    let mut k: usize = n;
    while k < width
        invariant
            n <= k,
            k <= width || k == n,
            s@ == Seq::new((k - n) as nat, |i: int| ' '),
        decreases width - k,
    {
        let ghost before = s@;
        push_char(&mut s, ' ');
        assert(s@ =~= Seq::new((k + 1 - n) as nat, |i: int| ' '));
        k = k + 1;
    }
    push_str(&mut s, digits.as_str());
    push_str(&mut s, " ");
    proof {
        if n >= width {
            assert(Seq::new((k - n) as nat, |i: int| ' ') =~= Seq::<char>::empty());
            assert(s@ =~= digits@ + " "@);
        } else {
            assert(s@ =~= Seq::new((width - n) as nat, |i: int| ' ') + digits@ + " "@);
        }
    }
    s
}

} // verus!
