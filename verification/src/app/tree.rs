//! The file tree beside the document: one entry per document a thread is
//! anchored to, in queue order, with how many of its threads are decided.

use vstd::prelude::*;
use crate::gerrit::anchor::{CommentAnchor, spec_gerrit_path};
use crate::triage::{ItemView, Triage};
use crate::text::{push_str, push_decimal, spec_decimal, str_eq};

verus! {

/// One document in the tree.
#[derive(Debug, Clone, PartialEq, Eq)]
pub struct TreeEntry {
    /// Gerrit's path for the document, pseudo-paths included.
    pub path: String,
    /// Whether it is a real file rather than a pseudo-path.
    pub is_file: bool,
    /// Threads anchored to it.
    pub total: usize,
    /// Of those, threads with a decision; a deferral counts as decided.
    pub decided: usize,
}

/// An entry as plain values.
pub struct EntryView {
    pub path: Seq<char>,
    pub is_file: bool,
    pub total: nat,
    pub decided: nat,
}

impl View for TreeEntry {
    type V = EntryView;

    open spec fn view(&self) -> EntryView {
        EntryView { path: self.path@, is_file: self.is_file, total: self.total as nat, decided: self.decided as nat }
    }
}

pub open spec fn entry_views(v: Seq<TreeEntry>) -> Seq<EntryView> {
    v.map_values(|e: TreeEntry| e@)
}

impl TreeEntry {
    /// Whether every thread on it is decided.
    pub fn is_complete(&self) -> (r: bool)
        ensures
            r == (self.decided == self.total),
    {
        self.decided == self.total
    }

    /// `decided/total`.
    pub fn progress(&self) -> (r: String)
        ensures
            r@ == spec_decimal(self.decided as nat) + "/"@ + spec_decimal(self.total as nat),
    {
        let mut s = String::new();
        push_decimal(&mut s, self.decided as u64);
        push_str(&mut s, "/");
        push_decimal(&mut s, self.total as u64);
        s
    }

    /// A blank for a file, `*` for a pseudo-path.
    pub fn kind_marker(&self) -> (r: &'static str)
        ensures
            r@ == if self.is_file { " "@ } else { "*"@ },
    {
        if self.is_file { " " } else { "*" }
    }
}

/// The index of the entry for `path`, if any.
pub open spec fn entry_index(entries: Seq<EntryView>, path: Seq<char>) -> Option<int>
    decreases entries.len(),
{
    if entries.len() == 0 {
        None
    } else {
        match entry_index(entries.drop_last(), path) {
            Some(i) => Some(i),
            None => if entries.last().path == path { Some(entries.len() - 1) } else { None },
        }
    }
}

proof fn lemma_entry_index(entries: Seq<EntryView>, path: Seq<char>)
    ensures
        match entry_index(entries, path) {
            Some(i) => 0 <= i < entries.len() && entries[i].path == path && forall|k: int| 0 <= k < i ==> (#[trigger] entries[k]).path != path,
            None => forall|k: int| 0 <= k < entries.len() ==> (#[trigger] entries[k]).path != path,
        },
    decreases entries.len(),
{
    if entries.len() > 0 {
        lemma_entry_index(entries.drop_last(), path);
        assert forall|k: int| 0 <= k < entries.len() - 1 implies #[trigger] entries[k] == entries.drop_last()[k] by {}
    }
}

/// The tree of a queue, built thread by thread in queue order.
pub open spec fn spec_entries(items: Seq<ItemView>) -> Seq<EntryView>
    decreases items.len(),
{
    if items.len() == 0 {
        Seq::empty()
    } else {
        let es = spec_entries(items.drop_last());
        let it = items.last();
        let path = spec_gerrit_path(it.thread.anchor);
        let d: nat = if it.decision is Some { 1 } else { 0 };
        match entry_index(es, path) {
            Some(i) => es.update(i, EntryView { total: es[i].total + 1, decided: es[i].decided + d, ..es[i] }),
            None => es.push(EntryView { path, is_file: it.thread.anchor is File, total: 1, decided: d }),
        }
    }
}

proof fn lemma_entries_bounded(items: Seq<ItemView>)
    ensures
        forall|i: int| 0 <= i < spec_entries(items).len() ==> (#[trigger] spec_entries(items)[i]).decided <= spec_entries(items)[i].total
            && spec_entries(items)[i].total <= items.len(),
    decreases items.len(),
{
    if items.len() > 0 {
        lemma_entries_bounded(items.drop_last());
        let es = spec_entries(items.drop_last());
        lemma_entry_index(es, spec_gerrit_path(items.last().thread.anchor));
    }
}

/// How many threads of `items` are anchored on `path`; with `decided_only`,
/// only those carrying a decision.
pub open spec fn threads_on(items: Seq<ItemView>, path: Seq<char>, decided_only: bool) -> nat
    decreases items.len(),
{
    if items.len() == 0 {
        0
    } else {
        let it = items.last();
        threads_on(items.drop_last(), path, decided_only)
            + if spec_gerrit_path(it.thread.anchor) == path && (!decided_only || it.decision is Some) { 1nat } else { 0nat }
    }
}

proof fn lemma_entry_index_by_paths(a: Seq<EntryView>, b: Seq<EntryView>, path: Seq<char>)
    requires
        a.len() == b.len(),
        forall|k: int| 0 <= k < a.len() ==> (#[trigger] a[k]).path == b[k].path,
    ensures
        entry_index(a, path) == entry_index(b, path),
{
    lemma_entry_index(a, path);
    lemma_entry_index(b, path);
    match (entry_index(a, path), entry_index(b, path)) {
        (Some(i), Some(j)) => {
            if i < j { assert(b[i].path == path); }
            if j < i { assert(a[j].path == path); }
        },
        (Some(i), None) => { assert(b[i].path == path); },
        (None, Some(j)) => { assert(a[j].path == path); },
        (None, None) => {},
    }
}

/// The tree lists each document once, and each entry counts exactly the
/// threads anchored to its document and, of those, the ones decided; a
/// document no entry names has no thread.
pub proof fn lemma_tree_counts_threads(items: Seq<ItemView>)
    ensures
        forall|i: int, j: int| 0 <= i < j < spec_entries(items).len()
            ==> (#[trigger] spec_entries(items)[i]).path != (#[trigger] spec_entries(items)[j]).path,
        forall|i: int| 0 <= i < spec_entries(items).len()
            ==> (#[trigger] spec_entries(items)[i]).total == threads_on(items, spec_entries(items)[i].path, false)
                && spec_entries(items)[i].decided == threads_on(items, spec_entries(items)[i].path, true),
        forall|path: Seq<char>| #[trigger] entry_index(spec_entries(items), path) is None ==> threads_on(items, path, false) == 0,
    decreases items.len(),
{
    if items.len() > 0 {
        let prev = items.drop_last();
        lemma_tree_counts_threads(prev);
        let es = spec_entries(prev);
        let c = spec_entries(items);
        let it = items.last();
        let p = spec_gerrit_path(it.thread.anchor);
        lemma_entry_index(es, p);
        match entry_index(es, p) {
            Some(i) => {
                assert forall|j: int| 0 <= j < c.len() implies (#[trigger] c[j]).path == es[j].path by {}
                assert forall|j: int| 0 <= j < c.len() implies (#[trigger] c[j]).total == threads_on(items, c[j].path, false)
                    && c[j].decided == threads_on(items, c[j].path, true) by {
                    if j != i {
                        assert(es[j].path != p);
                    }
                }
                assert forall|path: Seq<char>| #[trigger] entry_index(c, path) is None implies threads_on(items, path, false) == 0 by {
                    lemma_entry_index_by_paths(c, es, path);
                    if path == p {
                        assert(entry_index(es, p) is Some);
                    }
                }
            },
            None => {
                assert(threads_on(prev, p, false) == 0);
                assert(threads_on(prev, p, true) <= threads_on(prev, p, false)) by {
                    lemma_threads_on_decided_bound(prev, p);
                }
                assert forall|j: int| 0 <= j < c.len() implies (#[trigger] c[j]).total == threads_on(items, c[j].path, false)
                    && c[j].decided == threads_on(items, c[j].path, true) by {
                    if j < es.len() {
                        assert(c[j] == es[j]);
                        assert(es[j].path != p);
                    }
                }
                assert forall|path: Seq<char>| #[trigger] entry_index(c, path) is None implies threads_on(items, path, false) == 0 by {
                    lemma_entry_index(c, path);
                    lemma_entry_index(es, path);
                    if path == p {
                        assert(c[es.len() as int].path == p);
                    } else {
                        match entry_index(es, path) {
                            Some(k) => { assert(c[k] == es[k]); },
                            None => {},
                        }
                    }
                }
            },
        }
    }
}

proof fn lemma_threads_on_decided_bound(items: Seq<ItemView>, path: Seq<char>)
    ensures
        threads_on(items, path, true) <= threads_on(items, path, false),
    decreases items.len(),
{
    if items.len() > 0 {
        lemma_threads_on_decided_bound(items.drop_last(), path);
    }
}

fn find_entry(entries: &Vec<TreeEntry>, path: &str) -> (r: Option<usize>)
    ensures
        match r {
            Some(i) => entry_index(entry_views(entries@), path@) == Some(i as int),
            None => entry_index(entry_views(entries@), path@) is None,
        },
{
    let mut i: usize = 0;
    while i < entries.len()
        invariant
            i <= entries@.len(),
            forall|k: int| 0 <= k < i ==> (#[trigger] entry_views(entries@)[k]).path != path@,
        decreases entries@.len() - i,
    {
        if str_eq(entries[i].path.as_str(), path) {
            proof {
                lemma_entry_index(entry_views(entries@), path@);
                match entry_index(entry_views(entries@), path@) {
                    Some(j) => { if j > i { assert(entry_views(entries@)[i as int].path == path@); } },
                    None => { assert(entry_views(entries@)[i as int].path == path@); },
                }
            }
            return Some(i);
        }
        i = i + 1;
    }
    proof {
        lemma_entry_index(entry_views(entries@), path@);
        if let Some(j) = entry_index(entry_views(entries@), path@) {
            assert(entry_views(entries@)[j].path == path@);
        }
    }
    None
}

/// One entry per document, in the order the queue first meets it.
pub fn entries(triage: &Triage) -> (r: Vec<TreeEntry>)
    ensures
        entry_views(r@) == spec_entries(triage.view_items()),
{
    let mut out: Vec<TreeEntry> = Vec::new();
    let mut i: usize = 0;
    while i < triage.items.len()
        invariant
            i <= triage.items@.len(),
            entry_views(out@) == spec_entries(triage.view_items().take(i as int)),
        decreases triage.items@.len() - i,
    {
        let item = &triage.items[i];
        let ghost pre = triage.view_items().take(i + 1);
        assert(pre.drop_last() =~= triage.view_items().take(i as int));
        assert(pre.last() == item@);
        proof { lemma_entries_bounded(triage.view_items().take(i as int)); }
        let path = item.thread.anchor.gerrit_path();
        let d: usize = if item.decision.is_some() { 1 } else { 0 };
        let ghost before = entry_views(out@);
        match find_entry(&out, path) {
            Some(k) => {
                proof { lemma_entry_index(before, path@); }
                let e = &out[k];
                let updated = TreeEntry { path: path.to_owned(), is_file: e.is_file, total: e.total + 1, decided: e.decided + d };
                out.set(k, updated);
                assert(entry_views(out@) =~= before.update(k as int, EntryView { total: before[k as int].total + 1, decided: before[k as int].decided + d as nat, ..before[k as int] }));
            },
            None => {
                let is_file = match &item.thread.anchor { CommentAnchor::File(_) => true, _ => false };
                out.push(TreeEntry { path: path.to_owned(), is_file, total: 1, decided: d });
                assert(entry_views(out@) =~= before.push(EntryView { path: path@, is_file, total: 1, decided: d as nat }));
            },
        }
        i = i + 1;
    }
    assert(triage.view_items().take(triage.items@.len() as int) =~= triage.view_items());
    out
}

/// The entry of the document under the triage cursor.
pub fn selected(triage: &Triage, entries: &[TreeEntry]) -> (r: Option<usize>)
    ensures
        triage.cursor >= triage.items@.len() ==> r is None,
        triage.cursor < triage.items@.len() ==> match r {
            Some(i) => i < entries@.len() && entries@[i as int].path@ == spec_gerrit_path(triage.view_items()[triage.cursor as int].thread.anchor)
                && forall|k: int| 0 <= k < i ==> (#[trigger] entries@[k]).path@ != entries@[i as int].path@,
            None => forall|k: int| 0 <= k < entries@.len() ==> (#[trigger] entries@[k]).path@ != spec_gerrit_path(triage.view_items()[triage.cursor as int].thread.anchor),
        },
{
    let item = match triage.current() {
        Some(item) => item,
        None => return None,
    };
    let path = item.thread.anchor.gerrit_path();
    let mut i: usize = 0;
    while i < entries.len()
        invariant
            i <= entries@.len(),
            path@ == spec_gerrit_path(triage.view_items()[triage.cursor as int].thread.anchor),
            triage.cursor < triage.items@.len(),
            forall|k: int| 0 <= k < i ==> (#[trigger] entries@[k]).path@ != path@,
        decreases entries@.len() - i,
    {
        if str_eq(entries[i].path.as_str(), path) {
            return Some(i);
        }
        i = i + 1;
    }
    None
}

} // verus!
