//! A side-by-side line diff of one file, before and after an edit, grouped
//! into hunks for navigation. Drawing it is the front end's job.

use vstd::prelude::*;
use crate::text::{chars_of, string_of, trim_trailing, spec_trim_trailing, push_char};
use crate::order::{wrap_next, wrap_prev, wrap_next_times, wrap_prev_times, lemma_wrap_round_trip, lemma_wrap_full_circle};

verus! {

/// Rows a page movement scrolls.
pub const PAGE_ROWS: usize = 10;

/// One aligned row of the diff.
#[derive(Debug, Clone, PartialEq, Eq)]
pub enum DiffRow {
    /// Unchanged: shown on both sides.
    Equal(String),
    /// Removed: old side only.
    Delete(String),
    /// Added: new side only.
    Insert(String),
}

/// A row as a tag (0 equal, 1 delete, 2 insert) and its text.
pub open spec fn row_view(r: DiffRow) -> (u8, Seq<char>) {
    match r {
        DiffRow::Equal(t) => (0u8, t@),
        DiffRow::Delete(t) => (1u8, t@),
        DiffRow::Insert(t) => (2u8, t@),
    }
}

pub open spec fn row_views(rows: Seq<DiffRow>) -> Seq<(u8, Seq<char>)> {
    rows.map_values(|r: DiffRow| row_view(r))
}

impl DiffRow {
    /// Whether the row is a change (a delete or an insert).
    pub fn is_change(&self) -> (r: bool)
        ensures
            r == !(*self is Equal),
    {
        match self {
            DiffRow::Equal(_) => false,
            _ => true,
        }
    }
}

/// A contiguous run of change rows, `[start, end)` into the rows.
#[derive(Debug, Clone, Copy, PartialEq, Eq)]
pub struct Hunk {
    pub start: usize,
    pub end: usize,
}

/// Which rows are changes.
pub open spec fn change_flags(rows: Seq<DiffRow>) -> Seq<bool> {
    rows.map_values(|r: DiffRow| !(r is Equal))
}

/// `h` is exactly the maximal runs of `true` in `changes`, in order.
pub open spec fn are_hunks(changes: Seq<bool>, h: Seq<Hunk>) -> bool {
    &&& forall|k: int| 0 <= k < h.len() ==> {
            let x = #[trigger] h[k];
            &&& x.start < x.end <= changes.len()
            &&& forall|i: int| x.start <= i < x.end ==> changes[i]
            &&& (x.start == 0 || !changes[x.start - 1])
            &&& (x.end == changes.len() || !changes[x.end as int])
        }
    &&& forall|k: int, m: int| 0 <= k < m < h.len() ==> h[k].end < h[m].start
    &&& forall|i: int| 0 <= i < changes.len() && #[trigger] changes[i] ==> exists|k: int| 0 <= k < h.len() && (#[trigger] h[k]).start <= i < h[k].end
}

/// Group contiguous change rows into hunks.
pub fn build_hunks(rows: &[DiffRow]) -> (r: Vec<Hunk>)
    ensures
        are_hunks(change_flags(rows@), r@),
{
    let ghost ch = change_flags(rows@);
    let mut hunks: Vec<Hunk> = Vec::new();
    let mut start: Option<usize> = None;
    let mut i: usize = 0;
    while i < rows.len()
        invariant
            ch == change_flags(rows@),
            i <= rows@.len(),
            forall|k: int| 0 <= k < hunks@.len() ==> {
                let x = #[trigger] hunks@[k];
                &&& x.start < x.end < i
                &&& forall|j: int| x.start <= j < x.end ==> ch[j]
                &&& (x.start == 0 || !ch[x.start - 1])
                &&& !ch[x.end as int]
            },
            forall|k: int, m: int| 0 <= k < m < hunks@.len() ==> hunks@[k].end < hunks@[m].start,
            match start {
                Some(s) => s < i && (s == 0 || !ch[s - 1]) && (forall|j: int| s <= j < i ==> ch[j])
                    && (forall|k: int| 0 <= k < hunks@.len() ==> #[trigger] hunks@[k].end < s),
                None => i == 0 || !ch[i - 1],
            },
            forall|j: int| 0 <= j < i && #[trigger] ch[j] ==> (exists|k: int| 0 <= k < hunks@.len() && (#[trigger] hunks@[k]).start <= j < hunks@[k].end)
                || (start matches Some(s) && s <= j),
        decreases rows@.len() - i,
    {
        let c = rows[i].is_change();
        assert(ch[i as int] == c);
        if c {
            if start.is_none() {
                start = Some(i);
            }
        } else {
            match start {
                Some(s) => {
                    let ghost before = hunks@;
                    hunks.push(Hunk { start: s, end: i });
                    assert(hunks@[before.len() as int] == Hunk { start: s, end: i });
                    assert forall|j: int| 0 <= j < i + 1 && #[trigger] ch[j] implies (exists|k: int| 0 <= k < hunks@.len() && (#[trigger] hunks@[k]).start <= j < hunks@[k].end) by {
                        if s <= j {
                            assert(hunks@[before.len() as int].start <= j < hunks@[before.len() as int].end);
                        } else {
                            let k = choose|k: int| 0 <= k < before.len() && (#[trigger] before[k]).start <= j < before[k].end;
                            assert(hunks@[k] == before[k]);
                        }
                    }
                    start = None;
                },
                None => {},
            }
        }
        i = i + 1;
    }
    match start {
        Some(s) => {
            let ghost before = hunks@;
            hunks.push(Hunk { start: s, end: rows.len() });
            assert(hunks@[before.len() as int] == Hunk { start: s, end: rows.len() });
            assert forall|j: int| 0 <= j < ch.len() && #[trigger] ch[j] implies (exists|k: int| 0 <= k < hunks@.len() && (#[trigger] hunks@[k]).start <= j < hunks@[k].end) by {
                if s <= j {
                    assert(hunks@[before.len() as int].start <= j < hunks@[before.len() as int].end);
                } else {
                    let k = choose|k: int| 0 <= k < before.len() && (#[trigger] before[k]).start <= j < before[k].end;
                    assert(hunks@[k] == before[k]);
                }
            }
        },
        None => {},
    }
    hunks
}

/// `s` with every `\r\n` turned into `\n`, as `str::replace` does it: scanning
/// from the left, non-overlapping.
pub open spec fn spec_normalize_newlines(s: Seq<char>) -> Seq<char>
    decreases s.len(),
{
    if s.len() == 0 {
        Seq::empty()
    } else if s.len() >= 2 && s[0] == '\r' && s[1] == '\n' {
        seq!['\n'] + spec_normalize_newlines(s.skip(2))
    } else {
        seq![s[0]] + spec_normalize_newlines(s.skip(1))
    }
}

/// Turn every `\r\n` into `\n`, so line endings do not show as changes.
pub fn normalize_newlines(s: &str) -> (r: String)
    ensures
        r@ == spec_normalize_newlines(s@),
{
    let v = chars_of(s);
    let mut out = String::new();
    let mut i: usize = 0;
    assert(v@.skip(0) =~= v@);
    while i < v.len()
        invariant
            v@ == s@,
            i <= v@.len(),
            spec_normalize_newlines(s@) == out@ + spec_normalize_newlines(v@.skip(i as int)),
        decreases v@.len() - i,
    {
        let ghost rest = v@.skip(i as int);
        if i + 1 < v.len() && v[i] == '\r' && v[i + 1] == '\n' {
            push_char(&mut out, '\n');
            assert(rest.skip(2) =~= v@.skip(i + 2));
            i = i + 2;
        } else {
            push_char(&mut out, v[i]);
            assert(rest.skip(1) =~= v@.skip(i + 1));
            i = i + 1;
        }
    }
    assert(v@.skip(i as int).len() == 0);
    assert(out@ + spec_normalize_newlines(v@.skip(i as int)) =~= out@);
    out
}

/// The line changes of a line diff from `old` to `new`: each a tag (0 equal,
/// 1 delete, 2 insert) and the line's text, its `\n` included.
pub uninterp spec fn line_changes(old: Seq<char>, new: Seq<char>) -> Seq<(u8, Seq<char>)>;

/// The text a sequence of changes holds on one side: the old side keeps
/// equal and deleted lines, the new side equal and inserted ones.
pub open spec fn side_text(changes: Seq<(u8, Seq<char>)>, tags: (u8, u8)) -> Seq<char>
    decreases changes.len(),
{
    if changes.len() == 0 {
        Seq::empty()
    } else {
        let last = changes.last();
        side_text(changes.drop_last(), tags) + if last.0 == tags.0 || last.0 == tags.1 { last.1 } else { Seq::empty() }
    }
}

/// Changes as plain values.
pub open spec fn change_views(c: Seq<(u8, String)>) -> Seq<(u8, Seq<char>)> {
    c.map_values(|x: (u8, String)| (x.0, x.1@))
}

/// Calls `similar::TextDiff::from_lines` on `old` and `new` and walks
/// `iter_all_changes`, turning each change into its tag and text. The result
/// is named by `line_changes`; every tag is one of the three, and, as any
/// diff's changes do, the equal and deleted lines spell `old` and the equal
/// and inserted lines spell `new`. Identical texts give only equal lines: the
/// algorithm takes the common prefix as equal before it searches.
#[verifier::external_body]
fn line_diff(old: &str, new: &str) -> (r: Vec<(u8, String)>)
    ensures
        change_views(r@) == line_changes(old@, new@),
        forall|i: int| 0 <= i < r@.len() ==> #[trigger] r@[i].0 <= 2,
        side_text(change_views(r@), (0, 1)) == old@,
        side_text(change_views(r@), (0, 2)) == new@,
        old@ == new@ ==> forall|i: int| 0 <= i < r@.len() ==> #[trigger] r@[i].0 == 0,
{
    let diff = similar::TextDiff::from_lines(old, new);
    let mut out = Vec::new();
    for change in diff.iter_all_changes() {
        let tag = match change.tag() {
            similar::ChangeTag::Equal => 0u8,
            similar::ChangeTag::Delete => 1u8,
            similar::ChangeTag::Insert => 2u8,
        };
        out.push((tag, change.value().to_string()));
    }
    out
}

/// The row a change becomes: its text loses its trailing newlines.
pub open spec fn change_row(c: (u8, Seq<char>)) -> (u8, Seq<char>) {
    (c.0, spec_trim_trailing(c.1, '\n'))
}

/// Aligned diff rows from the changes of a line diff.
pub fn rows_from_changes(changes: &Vec<(u8, String)>) -> (r: Vec<DiffRow>)
    requires
        forall|i: int| 0 <= i < changes@.len() ==> #[trigger] changes@[i].0 <= 2,
    ensures
        row_views(r@) == changes@.map_values(|c: (u8, String)| change_row((c.0, c.1@))),
{
    let mut rows: Vec<DiffRow> = Vec::new();
    let mut i: usize = 0;
    while i < changes.len()
        invariant
            forall|k: int| 0 <= k < changes@.len() ==> #[trigger] changes@[k].0 <= 2,
            i <= changes@.len(),
            row_views(rows@) == changes@.take(i as int).map_values(|c: (u8, String)| change_row((c.0, c.1@))),
        decreases changes@.len() - i,
    {
        let (tag, ref value) = changes[i];
        let v = chars_of(value.as_str());
        let text = string_of(trim_trailing(v.as_slice(), '\n').as_slice());
        let row = if tag == 0 {
            DiffRow::Equal(text)
        } else if tag == 1 {
            DiffRow::Delete(text)
        } else {
            DiffRow::Insert(text)
        };
        let ghost before = rows@;
        rows.push(row);
        assert(row_views(rows@) =~= row_views(before).push(row_view(row)));
        assert(changes@.take(i + 1).map_values(|c: (u8, String)| change_row((c.0, c.1@)))
            =~= changes@.take(i as int).map_values(|c: (u8, String)| change_row((c.0, c.1@))).push(change_row((changes@[i as int].0, changes@[i as int].1@))));
        i = i + 1;
    }
    assert(changes@.take(changes@.len() as int) =~= changes@);
    rows
}

/// Changes that are all equal lines spell the same text on both sides.
proof fn lemma_equal_lines_spell_one_text(c: Seq<(u8, Seq<char>)>)
    requires
        forall|i: int| 0 <= i < c.len() ==> (#[trigger] c[i]).0 == 0,
    ensures
        side_text(c, (0, 1)) == side_text(c, (0, 2)),
    decreases c.len(),
{
    if c.len() > 0 {
        let prev = c.drop_last();
        assert forall|i: int| 0 <= i < prev.len() implies (#[trigger] prev[i]).0 == 0 by {
            assert(prev[i] == c[i]);
        }
        lemma_equal_lines_spell_one_text(prev);
    }
}

/// The aligned rows of a line diff from `old` to `new`, line endings
/// normalised first so `\r\n` does not show as a change. Every row is an
/// equal line exactly when the two normalised texts are the same.
pub fn build_rows(old: &str, new: &str) -> (r: Vec<DiffRow>)
    ensures
        row_views(r@) == line_changes(spec_normalize_newlines(old@), spec_normalize_newlines(new@)).map_values(
            |c: (u8, Seq<char>)| change_row(c)),
        (forall|i: int| 0 <= i < r@.len() ==> #[trigger] r@[i] is Equal)
            <==> spec_normalize_newlines(old@) == spec_normalize_newlines(new@),
{
    let old = normalize_newlines(old);
    let new = normalize_newlines(new);
    let changes = line_diff(old.as_str(), new.as_str());
    let rows = rows_from_changes(&changes);
    assert(line_changes(old@, new@).map_values(|c: (u8, Seq<char>)| change_row(c))
        =~= changes@.map_values(|c: (u8, String)| change_row((c.0, c.1@))));
    proof {
        let cv = change_views(changes@);
        assert forall|i: int| 0 <= i < rows@.len() implies (#[trigger] rows@[i] is Equal <==> cv[i].0 == 0) by {
            assert(row_views(rows@)[i] == row_view(rows@[i]));
            assert(changes@.map_values(|c: (u8, String)| change_row((c.0, c.1@)))[i] == change_row((changes@[i].0, changes@[i].1@)));
            assert(changes@[i].0 <= 2);
        }
        if forall|i: int| 0 <= i < rows@.len() ==> #[trigger] rows@[i] is Equal {
            assert forall|i: int| 0 <= i < cv.len() implies (#[trigger] cv[i]).0 == 0 by {
                assert(rows@[i] is Equal);
            }
            lemma_equal_lines_spell_one_text(cv);
        }
        if old@ == new@ {
            assert forall|i: int| 0 <= i < rows@.len() implies #[trigger] rows@[i] is Equal by {
                assert(changes@[i].0 == 0);
                assert(cv[i].0 == 0);
            }
        }
    }
    rows
}

/// The hunks of some rows are none exactly when no row is a change.
proof fn lemma_no_hunks_no_changes(flags: Seq<bool>, h: Seq<Hunk>)
    requires
        are_hunks(flags, h),
    ensures
        h.len() == 0 <==> forall|i: int| 0 <= i < flags.len() ==> !#[trigger] flags[i],
{
    if h.len() > 0 {
        let x = h[0];
        assert(flags[x.start as int]);
    }
}

/// A side-by-side diff of one file, with hunk navigation.
pub struct DiffView {
    pub path: String,
    pub rows: Vec<DiffRow>,
    pub hunks: Vec<Hunk>,
    pub current_hunk: usize,
    pub scroll: usize,
}

impl DiffView {
    /// The hunks are those of the rows, the current hunk is one of them, and
    /// the scroll offset is a row (or zero when there are none).
    pub open spec fn wf(&self) -> bool {
        &&& are_hunks(change_flags(self.rows@), self.hunks@)
        &&& (self.hunks@.len() == 0 ==> self.current_hunk == 0)
        &&& (self.hunks@.len() > 0 ==> self.current_hunk < self.hunks@.len())
        &&& (self.scroll == 0 || self.scroll < self.rows@.len())
    }

    /// A diff of `path` from `before` to `after`, scrolled to the top.
    pub fn new(path: &str, before: &str, after: &str) -> (r: DiffView)
        ensures
            r.wf(),
            r.path@ == path@,
            row_views(r.rows@) == line_changes(spec_normalize_newlines(before@), spec_normalize_newlines(after@)).map_values(
                |c: (u8, Seq<char>)| change_row(c)),
            r.current_hunk == 0,
            r.scroll == 0,
            r.hunks@.len() == 0 <==> spec_normalize_newlines(before@) == spec_normalize_newlines(after@),
    {
        let rows = build_rows(before, after);
        let hunks = build_hunks(rows.as_slice());
        proof {
            lemma_no_hunks_no_changes(change_flags(rows@), hunks@);
            let flags = change_flags(rows@);
            if hunks@.len() == 0 {
                assert forall|i: int| 0 <= i < rows@.len() implies #[trigger] rows@[i] is Equal by {
                    assert(!flags[i]);
                }
            }
            if forall|i: int| 0 <= i < rows@.len() ==> #[trigger] rows@[i] is Equal {
                assert forall|i: int| 0 <= i < flags.len() implies !#[trigger] flags[i] by {
                    assert(rows@[i] is Equal);
                }
            }
        }
        DiffView { path: path.to_owned(), rows, hunks, current_hunk: 0, scroll: 0 }
    }

    /// Whether the two sides are identical: for a diff that `new` built,
    /// exactly when its texts are the same once line endings are normalised.
    pub fn is_empty(&self) -> (r: bool)
        ensures
            r == (self.hunks@.len() == 0),
    {
        self.hunks.len() == 0
    }

    pub fn hunk_count(&self) -> (r: usize)
        ensures
            r == self.hunks@.len(),
    {
        self.hunks.len()
    }

    pub fn scroll_offset(&self) -> (r: usize)
        ensures
            r == self.scroll,
    {
        self.scroll
    }

    pub fn scroll_up(&mut self)
        requires
            old(self).wf(),
        ensures
            final(self).wf(),
            final(self).scroll == if old(self).scroll > 0 { old(self).scroll - 1 } else { 0 },
            final(self).rows == old(self).rows,
            final(self).hunks == old(self).hunks,
            final(self).current_hunk == old(self).current_hunk,
    {
        self.scroll = self.scroll.saturating_sub(1);
    }

    pub fn scroll_down(&mut self)
        requires
            old(self).wf(),
        ensures
            final(self).wf(),
            final(self).scroll == if old(self).scroll + 1 < old(self).rows@.len() { old(self).scroll + 1 } else { old(self).scroll as int },
            final(self).rows == old(self).rows,
            final(self).hunks == old(self).hunks,
            final(self).current_hunk == old(self).current_hunk,
    {
        if self.scroll < self.rows.len() && self.scroll + 1 < self.rows.len() {
            self.scroll = self.scroll + 1;
        }
    }

    pub fn page_up(&mut self)
        requires
            old(self).wf(),
        ensures
            final(self).wf(),
            final(self).scroll == if old(self).scroll > PAGE_ROWS { old(self).scroll - PAGE_ROWS } else { 0 },
            final(self).rows == old(self).rows,
            final(self).hunks == old(self).hunks,
            final(self).current_hunk == old(self).current_hunk,
    {
        self.scroll = self.scroll.saturating_sub(PAGE_ROWS);
    }

    pub fn page_down(&mut self)
        requires
            old(self).wf(),
        ensures
            final(self).wf(),
            ({
                let max = if old(self).rows@.len() > 0 { old(self).rows@.len() - 1 } else { 0 };
                final(self).scroll == if old(self).scroll + PAGE_ROWS < max { old(self).scroll + PAGE_ROWS } else { max }
            }),
            final(self).rows == old(self).rows,
            final(self).hunks == old(self).hunks,
            final(self).current_hunk == old(self).current_hunk,
    {
        let max = self.rows.len().saturating_sub(1);
        self.scroll = if self.scroll < max && PAGE_ROWS < max - self.scroll { self.scroll + PAGE_ROWS } else { max };
    }

    /// Move to the next hunk, wrapping past the last to the first, and scroll
    /// to its start.
    pub fn next_hunk(&mut self)
        requires
            old(self).wf(),
        ensures
            final(self).wf(),
            final(self).rows == old(self).rows,
            final(self).hunks == old(self).hunks,
            old(self).hunks@.len() == 0 ==> final(self).current_hunk == old(self).current_hunk && final(self).scroll == old(self).scroll,
            final(self).current_hunk == wrap_next(old(self).current_hunk as int, old(self).hunks@.len() as int),
            old(self).hunks@.len() > 0 ==> final(self).scroll == final(self).hunks@[final(self).current_hunk as int].start,
    {
        if self.hunks.len() == 0 {
            return;
        }
        proof {
            let n = self.hunks@.len() as int;
            if self.current_hunk + 1 < n {
                vstd::arithmetic::div_mod::lemma_small_mod((self.current_hunk + 1) as nat, n as nat);
            } else {
                vstd::arithmetic::div_mod::lemma_mod_self_0(n);
            }
        }
        self.current_hunk = if self.current_hunk + 1 < self.hunks.len() { self.current_hunk + 1 } else { 0 };
        self.scroll = self.hunks[self.current_hunk].start;
    }

    /// Move to the previous hunk, wrapping past the first to the last, and
    /// scroll to its start.
    pub fn prev_hunk(&mut self)
        requires
            old(self).wf(),
        ensures
            final(self).wf(),
            final(self).rows == old(self).rows,
            final(self).hunks == old(self).hunks,
            old(self).hunks@.len() == 0 ==> final(self).current_hunk == old(self).current_hunk && final(self).scroll == old(self).scroll,
            final(self).current_hunk == wrap_prev(old(self).current_hunk as int, old(self).hunks@.len() as int),
            old(self).hunks@.len() > 0 ==> final(self).scroll == final(self).hunks@[final(self).current_hunk as int].start,
    {
        if self.hunks.len() == 0 {
            return;
        }
        let n = self.hunks.len();
        proof {
            let m = n as int;
            if self.current_hunk > 0 {
                vstd::arithmetic::div_mod::lemma_mod_add_multiples_vanish(self.current_hunk - 1, m);
                vstd::arithmetic::div_mod::lemma_small_mod((self.current_hunk - 1) as nat, m as nat);
            } else {
                vstd::arithmetic::div_mod::lemma_small_mod((m - 1) as nat, m as nat);
            }
        }
        self.current_hunk = if self.current_hunk > 0 { self.current_hunk - 1 } else { n - 1 };
        self.scroll = self.hunks[self.current_hunk].start;
    }
}

/// Hunk navigation cycles: a step to the next hunk undoes a step to the
/// previous one and the reverse, and as many steps as there are hunks, either
/// way, come back to the hunk they started from. Each step scrolls to the
/// start of the hunk it lands on.
pub proof fn lemma_hunk_steps_wrap(v: DiffView)
    requires
        v.wf(),
        v.hunks@.len() > 0,
    ensures
        ({
            let (c, n) = (v.current_hunk as int, v.hunks@.len() as int);
            &&& wrap_prev(wrap_next(c, n), n) == c
            &&& wrap_next(wrap_prev(c, n), n) == c
            &&& wrap_next_times(c, n, n as nat) == c
            &&& wrap_prev_times(c, n, n as nat) == c
        }),
{
    lemma_wrap_round_trip(v.current_hunk as int, v.hunks@.len() as int);
    lemma_wrap_full_circle(v.current_hunk as int, v.hunks@.len() as int);
}

} // verus!
