# remendo

`remendo <change-id>` triages the unresolved review threads of a Gerrit change
from the keyboard: it checks the change out into a dedicated worktree, shows
each thread beside the code it is anchored to, records the user's decision
(accept, reject with a reply, defer, fixed by hand), and turns the decisions
into one batched review post that is only ever sent after the patchset behind
it was pushed.

## Layout

- `src/` — the library, verified with Verus. Everything that decides lives
  here, each function with a `requires`/`ensures` contract:
  - `gerrit/` — anchors and pseudo-paths, comments and threads (assembly by
    `in_reply_to`, resolution by the last comment, selection of the current
    patchset's threads), the REST client's URLs and error taxonomy, response
    guard stripping, base-URL and project derivation, the worker's per-request
    step, and an in-memory fake server.
  - `git/` — the git operations as a trait, what the real `git` is asked and
    how its answers are read, credential parsing, and a recording fake.
  - `triage/` — the triage queue and its navigation, decisions, replies, the
    end-of-triage report, the documents shown, and shared dependencies.
  - `submit/` — the fate of every thread, the review post built from them, and
    finalize (revision check, stage, amend, push, then one post).
  - `apply/` — which threads get an apply turn, the prompt, the
    snapshot/confirm/restore state machine of an apply pass, and one attempt
    of it over the driver, the worktree and git.
  - `workspace/` — session paths, validation before anything is created, the
    worktree, and the verdict cache (its key and each comment's verdict).
  - `app/` — key bindings, the application state machine, and every word the
    triage screen shows; `pane`, `search`, `buffer`, `diff_view`, `minibuffer`
    — the read-only document pane, its search, and the side-by-side diff.
  - `report.rs` — the plain-text reports printed around the screen.
  - `text.rs`, `order.rs` — string and ordering utilities with their proofs.
- `app/` — the program: argument handling, the `git` processes, the HTTP client
  (`ureq`) and JSON (`serde`), the Gerrit worker thread, files on disk, and the
  terminal (`ratatui`). It holds no rule of its own.
- `tests/` — tests of the library, run against the compiled crate.

Laws that span several functions are stated as public proof functions next to
the functions they relate (for example `lemma_derived_base_names_the_remote_host`,
`lemma_collation_shows_each_fact_once`, `lemma_tree_counts_threads`), and the
guarantees of finalize — git is asked for nothing until Gerrit has answered
that the change is still at the checked-out revision, a rejected push posts
nothing, nothing is posted without a push — are clauses of its contract.
What git and Gerrit may answer is a relation each trait declares, so a
contract can say which question was asked and that its answer decided.
