//! The plain-text reports printed around the triage screen: which Gerrit to
//! talk to, what was opened, what is to be triaged, and what triage decided.
//! Output is plain text; each report ends its lines with `\n`.

use vstd::prelude::*;
use crate::app::render::author_of;
use crate::gerrit::anchor::{AnchorView, CommentAnchor};
use crate::gerrit::api::spec_current_patch_set;
use crate::gerrit::base_url::{host_of, spec_derive, spec_host_of};

use crate::gerrit::load::LoadedChange;
use crate::gerrit::thread::{Thread, ThreadView, spec_root, thread_views, thread_wf};
use crate::submit::fate::{TriagedThread, triaged_views};
use crate::submit::{fate_count, summarize};
use crate::text::{push_str, push_decimal, spec_decimal};
use crate::workspace::Workspace;
use crate::workspace::paths::spec_join;

verus! {

/// Where Gerrit is reached: its REST base URL and its host.
pub open spec fn spec_endpoint(origin: Seq<char>) -> Result<(Seq<char>, Seq<char>), Seq<char>> {
    match spec_derive(origin) {
        None => Err("could not derive Gerrit's URL from origin `"@ + origin + "`"@),
        Some(base) => match spec_host_of(base) {
            None => Err("could not read a host from the derived URL `"@ + base + "`"@),
            Some(host) => Ok((base, host)),
        },
    }
}

/// The Gerrit a clone's `origin` remote leads to, as `(base URL, host)`: the
/// host is what the credential is asked for. A remote that yields no URL is
/// reported with the remote.
pub fn endpoint_of(origin: &str) -> (r: Result<(String, String), String>)
    ensures
        match (r, spec_endpoint(origin@)) {
            (Ok((b, h)), Ok((sb, sh))) => b@ == sb && h@ == sh,
            (Err(m), Err(sm)) => m@ == sm,
            _ => false,
        },
{
    let base = match crate::gerrit::base_url::derive(origin) {
        Some(b) => b,
        None => {
            let mut m = String::new();
            push_str(&mut m, "could not derive Gerrit's URL from origin `");
            push_str(&mut m, origin);
            push_str(&mut m, "`");
            return Err(m);
        },
    };
    let host = match host_of(base.as_str()) {
        Some(h) => h.to_owned(),
        None => {
            let mut m = String::new();
            push_str(&mut m, "could not read a host from the derived URL `");
            push_str(&mut m, base.as_str());
            push_str(&mut m, "`");
            return Err(m);
        },
    };
    Ok((base, host))
}

/// What was opened: the change, its project, branch and patchset, and where
/// its worktree is, created or resumed.
pub open spec fn spec_workspace_report(ws: Workspace) -> Seq<char> {
    ws.change.id@ + " — "@ + ws.change.subject@ + "\n"@
        + "  project  "@ + ws.change.project@ + "\n"@
        + "  branch   "@ + ws.change.branch@ + "\n"@
        + "  patchset "@ + spec_decimal(spec_current_patch_set(ws.change@) as nat) + " ("@ + ws.change.current_revision@ + ")\n"@
        + "  worktree "@ + spec_join(ws.paths.root@, "worktree"@) + " ("@ + (if ws.resumed { "resumed"@ } else { "created"@ })
        + ")\n"@
}

/// The report of an opened workspace.
pub fn workspace_report(ws: &Workspace) -> (r: String)
    ensures
        r@ == spec_workspace_report(*ws),
{
    let change = &ws.change;
    let mut s = String::new();
    push_str(&mut s, change.id.as_str());
    push_str(&mut s, " — ");
    push_str(&mut s, change.subject.as_str());
    push_str(&mut s, "\n");
    push_str(&mut s, "  project  ");
    push_str(&mut s, change.project.as_str());
    push_str(&mut s, "\n");
    push_str(&mut s, "  branch   ");
    push_str(&mut s, change.branch.as_str());
    push_str(&mut s, "\n");
    push_str(&mut s, "  patchset ");
    push_decimal(&mut s, change.current_patch_set() as u64);
    push_str(&mut s, " (");
    push_str(&mut s, change.current_revision.as_str());
    push_str(&mut s, ")\n");
    push_str(&mut s, "  worktree ");
    let w = ws.worktree();
    push_str(&mut s, w.as_str());
    push_str(&mut s, " (");
    push_str(&mut s, if ws.resumed { "resumed" } else { "created" });
    push_str(&mut s, ")\n");
    s
}

/// Where a thread is: `path:line` on a file, the path alone without a line,
/// and the anchor's name for the commit message or the change itself.
pub open spec fn spec_location(t: ThreadView) -> Seq<char> {
    match t.anchor {
        AnchorView::File(p) => match spec_root(t).line {
            Some(l) => p + ":"@ + spec_decimal(l as nat),
            None => p,
        },
        AnchorView::CommitMessage => "CommitMessage"@,
        AnchorView::ChangeLevel => "ChangeLevel"@,
    }
}

/// One thread's line: where it is, how many comments, and who opened it.
pub open spec fn spec_thread_entry(t: ThreadView) -> Seq<char> {
    "  "@ + spec_location(t) + "  ("@ + spec_decimal(t.comments.len()) + " comment(s), by "@
        + author_of(spec_root(t)) + ")\n"@
}

pub open spec fn thread_entries(ts: Seq<ThreadView>) -> Seq<char>
    decreases ts.len(),
{
    if ts.len() == 0 {
        Seq::empty()
    } else {
        thread_entries(ts.drop_last()) + spec_thread_entry(ts.last())
    }
}

/// What there is to triage, and how many threads were left out for being on
/// an earlier patchset: a skipped thing must never look like an absent one.
pub open spec fn spec_threads_report(ts: Seq<ThreadView>, skipped: nat) -> Seq<char> {
    (if ts.len() == 0 {
        "\nNo unresolved comment threads on the current patchset.\n"@
    } else {
        "\n"@ + spec_decimal(ts.len()) + " unresolved thread(s) to triage:\n"@ + thread_entries(ts)
    }) + if skipped > 0 {
        "\n"@ + spec_decimal(skipped)
            + " unresolved thread(s) on earlier patchsets were NOT triaged — their line anchors address code that has since changed.\n"@
    } else {
        Seq::empty()
    }
}

fn location(t: &Thread) -> (r: String)
    requires
        thread_wf(t@),
    ensures
        r@ == spec_location(t@),
{
    let mut s = String::new();
    match &t.anchor {
        CommentAnchor::File(path) => {
            push_str(&mut s, path.as_str());
            match t.line() {
                Some(l) => {
                    push_str(&mut s, ":");
                    push_decimal(&mut s, l as u64);
                },
                None => {},
            }
        },
        CommentAnchor::CommitMessage => push_str(&mut s, "CommitMessage"),
        CommentAnchor::ChangeLevel => push_str(&mut s, "ChangeLevel"),
    }
    s
}

/// The report of a loaded change's threads.
pub fn threads_report(loaded: &LoadedChange) -> (r: String)
    requires
        forall|i: int| 0 <= i < loaded.threads.threads@.len() ==> thread_wf(#[trigger] loaded.threads.threads@[i]@),
    ensures
        r@ == spec_threads_report(thread_views(loaded.threads.threads@), loaded.threads.skipped_older_patchsets as nat),
{
    let threads = &loaded.threads.threads;
    let ghost ts = thread_views(threads@);
    let mut s = String::new();
    if threads.len() == 0 {
        push_str(&mut s, "\nNo unresolved comment threads on the current patchset.\n");
    } else {
        push_str(&mut s, "\n");
        push_decimal(&mut s, threads.len() as u64);
        push_str(&mut s, " unresolved thread(s) to triage:\n");
        let ghost head = s@;
        let mut i: usize = 0;
        assert(ts.take(0) =~= Seq::<ThreadView>::empty());
        assert(s@ =~= head + thread_entries(ts.take(0)));
        while i < threads.len()
            invariant
                i <= threads@.len(),
                ts == thread_views(threads@),
                forall|k: int| 0 <= k < threads@.len() ==> thread_wf(#[trigger] threads@[k]@),
                s@ == head + thread_entries(ts.take(i as int)),
            decreases threads@.len() - i,
        {
            let t = &threads[i];
            assert(ts[i as int] == t@);
            assert(ts.take(i + 1).drop_last() =~= ts.take(i as int));
            assert(thread_wf(t@));
            push_str(&mut s, "  ");
            let loc = location(t);
            push_str(&mut s, loc.as_str());
            push_str(&mut s, "  (");
            push_decimal(&mut s, t.comments.len() as u64);
            push_str(&mut s, " comment(s), by ");
            push_str(&mut s, t.root().author_name());
            push_str(&mut s, ")\n");
            assert(s@ =~= head + thread_entries(ts.take(i + 1)));
            i = i + 1;
        }
        assert(ts.take(threads@.len() as int) =~= ts);
    }
    if loaded.threads.skipped_older_patchsets > 0 {
        push_str(&mut s, "\n");
        push_decimal(&mut s, loaded.threads.skipped_older_patchsets as u64);
        push_str(&mut s, " unresolved thread(s) on earlier patchsets were NOT triaged — their line anchors address code that has since changed.\n");
    }
    s
}

/// What triage decided, counted: threads to resolve, rejections to reply to,
/// and threads left alone.
pub open spec fn spec_fates_report(resolve: nat, reply: nat, alone: nat) -> Seq<char> {
    "triage complete: "@ + spec_decimal(resolve) + " to resolve, "@ + spec_decimal(reply) + " to reply to, "@
        + spec_decimal(alone) + " left alone\n"@
}

/// The report of a finished triage.
pub fn fates_report(fates: &[TriagedThread]) -> (r: String)
    ensures
        r@ == spec_fates_report(fate_count(triaged_views(fates@), 0), fate_count(triaged_views(fates@), 1),
            fate_count(triaged_views(fates@), 2)),
{
    let counts = summarize(String::new(), fates);
    let mut s = String::new();
    push_str(&mut s, "triage complete: ");
    push_decimal(&mut s, counts.resolved as u64);
    push_str(&mut s, " to resolve, ");
    push_decimal(&mut s, counts.replied as u64);
    push_str(&mut s, " to reply to, ");
    push_decimal(&mut s, counts.untouched as u64);
    push_str(&mut s, " left alone\n");
    s
}

} // verus!
