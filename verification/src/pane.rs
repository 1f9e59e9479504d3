//! The document pane: a read-only view onto a [`Buffer`], with its own
//! cursor, scroll offset and incremental search. Drawing it is the terminal
//! front end's job; everything the pane decides lives here.

use vstd::prelude::*;
use crate::buffer::Buffer;
use crate::search::{Search, pos_lt};
use crate::text::{decimal, spec_decimal};
use crate::order::{wrap_next, wrap_prev};

verus! {

/// Cursor position within the buffer. `target_col` remembers the column the
/// user wants, so vertical movement across short lines does not lose it.
#[derive(Debug, Clone, Copy, PartialEq, Eq)]
pub struct Cursor {
    pub line: usize,
    pub col: usize,
    pub target_col: usize,
}

impl Default for Cursor {
    fn default() -> (r: Cursor)
        ensures
            r == (Cursor { line: 0, col: 0, target_col: 0 }),
    {
        Cursor { line: 0, col: 0, target_col: 0 }
    }
}

/// Width, in digits, reserved for line numbers: the digits of the line count,
/// at least three so the gutter does not jitter on small files.
pub open spec fn spec_gutter_width(line_count: nat) -> nat {
    let d = spec_decimal(line_count).len();
    if d < 3 { 3 } else { d }
}

/// Width, in digits, reserved for line numbers.
pub fn gutter_num_width(line_count: usize) -> (r: usize)
    ensures
        r == spec_gutter_width(line_count as nat),
{
    let s = decimal(line_count as u64);
    let d = s.unicode_len();
    if d < 3 { 3 } else { d }
}

/// The scroll offset that keeps `cursor` visible in a viewport of `viewport`
/// rows (or columns), moving as little as possible.
pub open spec fn spec_scroll_to_show(scroll: int, cursor: int, viewport: int) -> int {
    if viewport == 0 {
        scroll
    } else if cursor < scroll {
        cursor
    } else if cursor >= scroll + viewport {
        cursor + 1 - viewport
    } else {
        scroll
    }
}

/// The scroll offset that keeps `cursor` visible while moving as little as
/// possible.
pub fn scroll_to_show(scroll: usize, cursor: usize, viewport: usize) -> (r: usize)
    ensures
        r == spec_scroll_to_show(scroll as int, cursor as int, viewport as int),
{
    if viewport == 0 {
        return scroll;
    }
    if cursor < scroll {
        cursor
    } else if cursor - scroll >= viewport {
        cursor - (viewport - 1)
    } else {
        scroll
    }
}

/// Whether a `(line, col)` position lies on a line of `lines`.
pub open spec fn on_a_line(lines: Seq<Seq<char>>, pos: (usize, usize)) -> bool {
    pos.0 < lines.len()
}

/// A read-only viewport onto a buffer.
pub struct DocumentPane {
    pub cursor: Cursor,
    /// Selection anchor; the selection spans from here to the cursor. Set by
    /// search to highlight its current match.
    pub anchor: Option<(usize, usize)>,
    pub scroll_row: usize,
    pub scroll_col: usize,
    /// Height of the content region at the last layout, for page movement.
    pub last_height: usize,
    pub search: Option<Search>,
}

impl DocumentPane {
    /// The pane's positions all lie inside `lines`, so every motion is defined.
    pub open spec fn fits(&self, lines: Seq<Seq<char>>) -> bool {
        &&& lines.len() >= 1
        &&& self.cursor.line < lines.len()
        &&& match self.anchor { Some(a) => on_a_line(lines, a), None => true }
        &&& match self.search { Some(s) => s.fits(lines), None => true }
    }

    /// A pane at the top of its document, with no selection or search.
    pub open spec fn is_fresh(&self) -> bool {
        &&& self.cursor == (Cursor { line: 0, col: 0, target_col: 0 })
        &&& self.anchor is None
        &&& self.scroll_row == 0
        &&& self.scroll_col == 0
        &&& self.last_height == 0
        &&& self.search is None
    }

    pub fn new() -> (r: DocumentPane)
        ensures
            r.is_fresh(),
    {
        DocumentPane {
            cursor: Cursor { line: 0, col: 0, target_col: 0 },
            anchor: None,
            scroll_row: 0,
            scroll_col: 0,
            last_height: 0,
            search: None,
        }
    }

    /// Reset all view state, as when the pane switches to another document.
    pub fn reset(&mut self)
        ensures
            final(self).is_fresh(),
    {
        *self = DocumentPane::new();
    }

    pub fn has_selection(&self) -> (r: bool)
        ensures
            r == self.anchor is Some,
    {
        self.anchor.is_some()
    }

    /// The cursor's current `(line, col)`.
    pub fn cursor_line_col(&self) -> (r: (usize, usize))
        ensures
            r == (self.cursor.line, self.cursor.col),
    {
        (self.cursor.line, self.cursor.col)
    }

    /// Current vertical scroll offset, in lines.
    pub fn scroll_row(&self) -> (r: usize)
        ensures
            r == self.scroll_row,
    {
        self.scroll_row
    }

    /// The selection as an ordered `(start, end)` pair, if any.
    pub fn ordered_selection(&self) -> (r: Option<((usize, usize), (usize, usize))>)
        ensures
            match self.anchor {
                None => r is None,
                Some(a) => {
                    let c = (self.cursor.line, self.cursor.col);
                    r == Some(if !pos_lt(c, a) { (a, c) } else { (c, a) })
                },
            },
    {
        match self.anchor {
            None => None,
            Some(anchor) => {
                let cursor = (self.cursor.line, self.cursor.col);
                if anchor.0 < cursor.0 || (anchor.0 == cursor.0 && anchor.1 <= cursor.1) {
                    Some((anchor, cursor))
                } else {
                    Some((cursor, anchor))
                }
            },
        }
    }

    pub fn move_left(&mut self, buffer: &Buffer)
        requires
            old(self).fits(buffer@),
        ensures
            final(self).fits(buffer@),
            final(self).anchor is None,
            final(self).search == old(self).search,
            old(self).cursor.col > 0 ==> final(self).cursor.line == old(self).cursor.line
                && final(self).cursor.col == old(self).cursor.col - 1,
            old(self).cursor.col == 0 && old(self).cursor.line > 0 ==> final(self).cursor.line == old(self).cursor.line - 1
                && final(self).cursor.col == buffer@[old(self).cursor.line - 1].len(),
            old(self).cursor.col == 0 && old(self).cursor.line == 0 ==> final(self).cursor.line == 0 && final(self).cursor.col == 0,
            final(self).cursor.target_col == final(self).cursor.col,
    {
        self.anchor = None;
        if self.cursor.col > 0 {
            self.cursor.col = self.cursor.col - 1;
        } else if self.cursor.line > 0 {
            self.cursor.line = self.cursor.line - 1;
            self.cursor.col = buffer.line_len_chars(self.cursor.line);
        }
        self.cursor.target_col = self.cursor.col;
    }

    pub fn move_right(&mut self, buffer: &Buffer)
        requires
            old(self).fits(buffer@),
        ensures
            final(self).fits(buffer@),
            final(self).anchor is None,
            final(self).search == old(self).search,
            old(self).cursor.col < buffer@[old(self).cursor.line as int].len() ==> final(self).cursor.line == old(self).cursor.line
                && final(self).cursor.col == old(self).cursor.col + 1,
            old(self).cursor.col >= buffer@[old(self).cursor.line as int].len() && old(self).cursor.line + 1 < buffer@.len()
                ==> final(self).cursor.line == old(self).cursor.line + 1 && final(self).cursor.col == 0,
            old(self).cursor.col >= buffer@[old(self).cursor.line as int].len() && old(self).cursor.line + 1 == buffer@.len()
                ==> final(self).cursor.line == old(self).cursor.line && final(self).cursor.col == old(self).cursor.col,
            final(self).cursor.target_col == final(self).cursor.col,
    {
        self.anchor = None;
        if self.cursor.col < buffer.line_len_chars(self.cursor.line) {
            self.cursor.col = self.cursor.col + 1;
        } else if self.cursor.line < buffer.line_count() - 1 {
            self.cursor.line = self.cursor.line + 1;
            self.cursor.col = 0;
        }
        self.cursor.target_col = self.cursor.col;
    }

    /// Put the cursor at its remembered target column, clamped to its line.
    fn clamp_col_to_target(&mut self, buffer: &Buffer)
        requires
            old(self).fits(buffer@),
        ensures
            final(self).fits(buffer@),
            final(self).cursor.line == old(self).cursor.line,
            final(self).cursor.target_col == old(self).cursor.target_col,
            final(self).cursor.col == if old(self).cursor.target_col < buffer@[old(self).cursor.line as int].len() {
                old(self).cursor.target_col as int } else { buffer@[old(self).cursor.line as int].len() as int },
            final(self).anchor == old(self).anchor,
            final(self).search == old(self).search,
            final(self).last_height == old(self).last_height,
    {
        let len = buffer.line_len_chars(self.cursor.line);
        self.cursor.col = if self.cursor.target_col < len { self.cursor.target_col } else { len };
    }

    pub fn move_up(&mut self, buffer: &Buffer)
        requires
            old(self).fits(buffer@),
        ensures
            final(self).fits(buffer@),
            final(self).anchor is None,
            final(self).search == old(self).search,
            final(self).cursor.target_col == old(self).cursor.target_col,
            final(self).cursor.line == if old(self).cursor.line > 0 { old(self).cursor.line - 1 } else { 0 },
            old(self).cursor.line > 0 ==> final(self).cursor.col == if old(self).cursor.target_col < buffer@[old(self).cursor.line - 1].len() {
                old(self).cursor.target_col as int } else { buffer@[old(self).cursor.line - 1].len() as int },
            old(self).cursor.line == 0 ==> final(self).cursor.col == old(self).cursor.col,
    {
        self.anchor = None;
        if self.cursor.line > 0 {
            self.cursor.line = self.cursor.line - 1;
            self.clamp_col_to_target(buffer);
        }
    }

    pub fn move_down(&mut self, buffer: &Buffer)
        requires
            old(self).fits(buffer@),
        ensures
            final(self).fits(buffer@),
            final(self).anchor is None,
            final(self).search == old(self).search,
            final(self).cursor.target_col == old(self).cursor.target_col,
            final(self).cursor.line == if old(self).cursor.line + 1 < buffer@.len() { old(self).cursor.line + 1 } else { old(self).cursor.line as int },
            old(self).cursor.line + 1 < buffer@.len() ==> final(self).cursor.col == if old(self).cursor.target_col < buffer@[old(self).cursor.line + 1].len() {
                old(self).cursor.target_col as int } else { buffer@[old(self).cursor.line + 1].len() as int },
            old(self).cursor.line + 1 == buffer@.len() ==> final(self).cursor.col == old(self).cursor.col,
    {
        self.anchor = None;
        if self.cursor.line < buffer.line_count() - 1 {
            self.cursor.line = self.cursor.line + 1;
            self.clamp_col_to_target(buffer);
        }
    }

    /// Move to column zero of the current line.
    pub fn move_line_start(&mut self)
        ensures
            forall|lines: Seq<Seq<char>>| old(self).fits(lines) ==> final(self).fits(lines),
            final(self).anchor is None,
            final(self).search == old(self).search,
            final(self).cursor == (Cursor { line: old(self).cursor.line, col: 0, target_col: 0 }),
    {
        self.anchor = None;
        self.cursor.col = 0;
        self.cursor.target_col = 0;
    }

    /// Move to the end of the current line.
    pub fn move_line_end(&mut self, buffer: &Buffer)
        requires
            old(self).fits(buffer@),
        ensures
            final(self).fits(buffer@),
            final(self).anchor is None,
            final(self).search == old(self).search,
            final(self).cursor.line == old(self).cursor.line,
            final(self).cursor.col == buffer@[old(self).cursor.line as int].len(),
            final(self).cursor.target_col == final(self).cursor.col,
    {
        self.anchor = None;
        self.cursor.col = buffer.line_len_chars(self.cursor.line);
        self.cursor.target_col = self.cursor.col;
    }

    /// Rows a page movement jumps: the last laid-out height, at least one.
    pub open spec fn page_rows(&self) -> nat {
        if self.last_height < 1 { 1 } else { self.last_height as nat }
    }

    /// Move up by one viewport height, keeping the target column.
    pub fn page_up(&mut self, buffer: &Buffer)
        requires
            old(self).fits(buffer@),
        ensures
            final(self).fits(buffer@),
            final(self).anchor is None,
            final(self).search == old(self).search,
            final(self).cursor.target_col == old(self).cursor.target_col,
            final(self).cursor.line == if old(self).cursor.line >= old(self).page_rows() { old(self).cursor.line - old(self).page_rows() } else { 0 },
            final(self).cursor.col == if old(self).cursor.target_col < buffer@[final(self).cursor.line as int].len() {
                old(self).cursor.target_col as int } else { buffer@[final(self).cursor.line as int].len() as int },
    {
        self.anchor = None;
        let rows = if self.last_height < 1 { 1 } else { self.last_height };
        self.cursor.line = self.cursor.line.saturating_sub(rows);
        self.clamp_col_to_target(buffer);
    }

    /// Move down by one viewport height, keeping the target column.
    pub fn page_down(&mut self, buffer: &Buffer)
        requires
            old(self).fits(buffer@),
        ensures
            final(self).fits(buffer@),
            final(self).anchor is None,
            final(self).search == old(self).search,
            final(self).cursor.target_col == old(self).cursor.target_col,
            final(self).cursor.line == if old(self).cursor.line + old(self).page_rows() < buffer@.len() - 1 {
                old(self).cursor.line + old(self).page_rows() } else { buffer@.len() - 1 },
            final(self).cursor.col == if old(self).cursor.target_col < buffer@[final(self).cursor.line as int].len() {
                old(self).cursor.target_col as int } else { buffer@[final(self).cursor.line as int].len() as int },
    {
        self.anchor = None;
        let rows = if self.last_height < 1 { 1 } else { self.last_height };
        let last = buffer.line_count() - 1;
        self.cursor.line = if rows < last - self.cursor.line { self.cursor.line + rows } else { last };
        self.clamp_col_to_target(buffer);
    }

    /// Move the cursor to the start of 1-based line `n`, clamped to the last
    /// line, clearing any selection.
    pub fn goto_line(&mut self, buffer: &Buffer, n: usize)
        requires
            old(self).fits(buffer@),
        ensures
            final(self).fits(buffer@),
            final(self).anchor is None,
            final(self).search == old(self).search,
            final(self).cursor == (Cursor {
                line: (if n == 0 { 0 } else if n - 1 < buffer@.len() - 1 { n - 1 } else { buffer@.len() - 1 }) as usize,
                col: 0,
                target_col: 0,
            }),
    {
        let last = buffer.line_count() - 1;
        let wanted = n.saturating_sub(1);
        let line = if wanted < last { wanted } else { last };
        self.cursor.line = line;
        self.cursor.col = 0;
        self.cursor.target_col = 0;
        self.anchor = None;
    }

    /// Move the cursor to `(line, col)`, clamped into `buffer`, clearing any
    /// selection.
    pub fn set_cursor(&mut self, buffer: &Buffer, line: usize, col: usize)
        requires
            old(self).fits(buffer@),
        ensures
            final(self).fits(buffer@),
            final(self).anchor is None,
            final(self).search == old(self).search,
            ({
                let l = if line < buffer@.len() - 1 { line as int } else { buffer@.len() - 1 };
                let c = if col < buffer@[l].len() { col as int } else { buffer@[l].len() as int };
                final(self).cursor == (Cursor { line: l as usize, col: c as usize, target_col: c as usize })
            }),
    {
        let last = buffer.line_count() - 1;
        let line = if line < last { line } else { last };
        let len = buffer.line_len_chars(line);
        let col = if col < len { col } else { len };
        self.cursor.line = line;
        self.cursor.col = col;
        self.cursor.target_col = col;
        self.anchor = None;
    }

    /// Lay the pane out in a content region of `height` rows and `width`
    /// columns: page movement remembers the height, and the scroll offsets
    /// move as little as keeps the cursor visible.
    pub fn fit_viewport(&mut self, height: usize, width: usize)
        ensures
            forall|lines: Seq<Seq<char>>| old(self).fits(lines) ==> final(self).fits(lines),
            final(self).cursor == old(self).cursor,
            final(self).anchor == old(self).anchor,
            final(self).search == old(self).search,
            final(self).last_height == height,
            final(self).scroll_row == spec_scroll_to_show(old(self).scroll_row as int, old(self).cursor.line as int, height as int),
            final(self).scroll_col == spec_scroll_to_show(old(self).scroll_col as int, old(self).cursor.col as int, width as int),
    {
        self.last_height = height;
        self.scroll_row = scroll_to_show(self.scroll_row, self.cursor.line, height);
        self.scroll_col = scroll_to_show(self.scroll_col, self.cursor.col, width);
    }

    /// Begin a search: remember the current cursor so a cancel can restore it.
    pub fn search_begin(&mut self)
        ensures
            forall|lines: Seq<Seq<char>>| old(self).fits(lines) ==> final(self).fits(lines),
            final(self).cursor == old(self).cursor,
            final(self).anchor == old(self).anchor,
            final(self).search matches Some(s) && s.origin == old(self).cursor && s.matches@.len() == 0 && s.len == 0 && s.current == 0,
    {
        self.search = Some(Search::begin(self.cursor));
    }

    /// Where the pane goes for the search's current match: the match spanned
    /// by the selection with the cursor at its end, or, with no match, back
    /// to the origin with no selection.
    pub open spec fn shows_current_match(&self, s: Search) -> bool {
        match s.spec_current() {
            Some(((line, col), len)) => {
                &&& self.anchor == Some((line, col))
                &&& self.cursor.line == line
                &&& self.cursor.col == col + len
                &&& self.cursor.target_col == self.cursor.col
            },
            None => {
                &&& self.anchor is None
                &&& self.cursor == (Cursor { line: s.origin.line, col: s.origin.col, target_col: s.origin.col })
            },
        }
    }

    /// Move the cursor onto the search's current match and span it with the
    /// selection; with no match, fall back to the origin.
    fn show_current_match(&mut self)
        requires
            old(self).search matches Some(s) && s.wf(),
        ensures
            forall|lines: Seq<Seq<char>>| old(self).fits(lines) ==> final(self).fits(lines),
            final(self).search == old(self).search,
            final(self).shows_current_match(old(self).search->0),
    {
        let cur = match &self.search {
            Some(search) => (search.current_match(), search.origin()),
            None => { return; },
        };
        match cur.0 {
            Some(((line, col), len)) => {
                self.anchor = Some((line, col));
                self.cursor.line = line;
                self.cursor.col = col + len;
            },
            None => {
                self.cursor = cur.1;
                self.anchor = None;
            },
        }
        self.cursor.target_col = self.cursor.col;
    }

    /// Recompute matches for `query` and jump to the nearest one at or after
    /// the search origin. Without a search in progress nothing happens.
    pub fn search_update(&mut self, buffer: &Buffer, query: &str)
        requires
            old(self).fits(buffer@),
        ensures
            final(self).fits(buffer@),
            old(self).search is None ==> *final(self) == *old(self),
            old(self).search is Some ==> (final(self).search matches Some(s)
                && crate::search::all_matches(buffer@, query@, s.matches@)
                && s.origin == old(self).search->0.origin
                && s.len == query@.len()
                && final(self).shows_current_match(s)),
            old(self).search is Some ==> keeps_search_origin(*old(self), *final(self)),
    {
        match self.search {
            None => {},
            Some(ref mut search) => {
                search.update(buffer, query);
            },
        }
        if self.search.is_some() {
            self.show_current_match();
        }
    }

    /// Move to the next match, wrapping past the last to the first.
    pub fn search_next(&mut self)
        requires
            old(self).search matches Some(s) ==> s.wf(),
        ensures
            forall|lines: Seq<Seq<char>>| old(self).fits(lines) ==> final(self).fits(lines),
            old(self).search is None ==> *final(self) == *old(self),
            old(self).search is Some ==> (final(self).search matches Some(s) && s.matches == old(self).search->0.matches
                && s.origin == old(self).search->0.origin && s.len == old(self).search->0.len
                && s.current == wrap_next(old(self).search->0.current as int, s.matches@.len() as int)
                && final(self).shows_current_match(s)),
            old(self).search is Some ==> keeps_search_origin(*old(self), *final(self)),
    {
        match self.search {
            None => { return; },
            Some(ref mut search) => {
                search.next();
            },
        }
        self.show_current_match();
    }

    /// Move to the previous match, wrapping past the first to the last.
    pub fn search_prev(&mut self)
        requires
            old(self).search matches Some(s) ==> s.wf(),
        ensures
            forall|lines: Seq<Seq<char>>| old(self).fits(lines) ==> final(self).fits(lines),
            old(self).search is None ==> *final(self) == *old(self),
            old(self).search is Some ==> (final(self).search matches Some(s) && s.matches == old(self).search->0.matches
                && s.origin == old(self).search->0.origin && s.len == old(self).search->0.len
                && s.current == wrap_prev(old(self).search->0.current as int, s.matches@.len() as int)
                && final(self).shows_current_match(s)),
            old(self).search is Some ==> keeps_search_origin(*old(self), *final(self)),
    {
        match self.search {
            None => { return; },
            Some(ref mut search) => {
                search.prev();
            },
        }
        self.show_current_match();
    }

    /// Confirm the search: drop its state but leave the match selected.
    pub fn search_commit(&mut self)
        ensures
            forall|lines: Seq<Seq<char>>| old(self).fits(lines) ==> final(self).fits(lines),
            final(self).search is None,
            final(self).cursor == old(self).cursor,
            final(self).anchor == old(self).anchor,
    {
        self.search = None;
    }

    /// Abandon the search: restore the origin cursor and clear the selection.
    pub fn search_cancel(&mut self)
        ensures
            forall|lines: Seq<Seq<char>>| old(self).fits(lines) ==> final(self).fits(lines),
            final(self).search is None,
            old(self).search is None ==> *final(self) == *old(self),
            old(self).search matches Some(s) ==> final(self).cursor == (Cursor { line: s.origin.line, col: s.origin.col, target_col: s.origin.col })
                && final(self).anchor is None,
    {
        match self.search {
            None => {},
            Some(ref s) => {
                let origin = s.origin();
                self.cursor = origin;
                self.cursor.target_col = origin.col;
                self.anchor = None;
            },
        }
        self.search = None;
    }
}


/// A search step: the pane is searching before and after, from the same
/// origin.
pub open spec fn keeps_search_origin(p: DocumentPane, q: DocumentPane) -> bool {
    p.search matches Some(s) && q.search matches Some(t) && t.origin == s.origin
}

/// Cancelling returns to where the search began. A search begun at `begun_at`
/// (`search_begin` records the cursor as the origin) and carried through any
/// steps that keep its origin — and `search_update`, `search_next` and
/// `search_prev` all do — still has that origin, which `search_cancel`
/// restores as the cursor, with its column as the target and no selection.
pub proof fn lemma_search_keeps_its_origin(panes: Seq<DocumentPane>, begun_at: Cursor)
    requires
        panes.len() >= 1,
        panes[0].search matches Some(s) && s.origin == begun_at,
        forall|i: int| 0 <= i < panes.len() - 1 ==> keeps_search_origin(#[trigger] panes[i], panes[i + 1]),
    ensures
        panes.last().search matches Some(s) && s.origin == begun_at,
    decreases panes.len(),
{
    if panes.len() > 1 {
        let prev = panes.drop_last();
        assert forall|i: int| 0 <= i < prev.len() - 1 implies keeps_search_origin(#[trigger] prev[i], prev[i + 1]) by {
            assert(prev[i] == panes[i] && prev[i + 1] == panes[i + 1]);
        }
        lemma_search_keeps_its_origin(prev, begun_at);
        assert(keeps_search_origin(panes[panes.len() - 2], panes[panes.len() - 1]));
    }
}

/// The columns `[lo, hi)` of row `line` that a selection from `start` to
/// `end` covers. A line wholly inside the selection reaches one column past
/// its end, so the selected line break reads as highlighted.
pub open spec fn selected_columns(line: nat, start: (usize, usize), end: (usize, usize), line_len: nat) -> (int, int) {
    (if line == start.0 { start.1 as int } else { 0 }, if line == end.0 { end.1 as int } else { line_len + 1int })
}

/// The cells of row `line` that a selection from `start` to `end` covers,
/// as `(offset into the visible text, width)`: its selected columns meet the
/// `width` visible columns that start at `scroll_col`, or `None` where they
/// do not.
pub open spec fn spec_selection_cells(line: nat, start: (usize, usize), end: (usize, usize), scroll_col: nat,
    line_len: nat, width: nat) -> Option<(nat, nat)> {
    if line < start.0 || line > end.0 {
        None
    } else {
        let (a, b) = selected_columns(line, start, end, line_len);
        let lo = if a >= scroll_col { a } else { scroll_col as int };
        let hi = if b <= scroll_col + width { b } else { (scroll_col + width) as int };
        if lo < hi { Some(((lo - scroll_col) as nat, (hi - lo) as nat)) } else { None }
    }
}

/// The selected cells of row `line`, if any.
pub fn selection_cells(line: usize, start: (usize, usize), end: (usize, usize), scroll_col: usize, line_len: usize,
    width: usize) -> (r: Option<(usize, usize)>)
    requires
        line_len < usize::MAX,
    ensures
        match r {
            Some((x, w)) => spec_selection_cells(line as nat, start, end, scroll_col as nat, line_len as nat, width as nat)
                == Some((x as nat, w as nat)),
            None => spec_selection_cells(line as nat, start, end, scroll_col as nat, line_len as nat, width as nat) is None,
        },
{
    if line < start.0 || line > end.0 {
        return None;
    }
    let start_col = if line == start.0 { start.1 } else { 0 };
    let end_col = if line == end.0 { end.1 } else { line_len + 1 };
    let vis_start = if start_col >= scroll_col { start_col } else { scroll_col };
    if end_col <= vis_start {
        return None;
    }
    let x = vis_start - scroll_col;
    let avail = if width >= x { width - x } else { 0 };
    let w = if end_col - vis_start < avail { end_col - vis_start } else { avail };
    if w == 0 {
        None
    } else {
        Some((x, w))
    }
}

/// The bottom row of the pane: the document's name, or `[No Name]`, and the
/// cursor's 1-based line and column.
pub open spec fn spec_pane_status(name: Option<Seq<char>>, line: nat, col: nat) -> Seq<char> {
    " "@ + match name { Some(n) => n, None => "[No Name]"@ } + "    Ln "@ + spec_decimal(line + 1) + ", Col "@
        + spec_decimal(col + 1) + " "@
}

impl DocumentPane {
    /// The pane's status text for a document named `name`.
    pub fn status_text(&self, name: Option<&str>) -> (r: String)
        requires
            self.cursor.line < usize::MAX,
            self.cursor.col < usize::MAX,
        ensures
            r@ == spec_pane_status(match name { Some(n) => Some(n@), None => None }, self.cursor.line as nat,
                self.cursor.col as nat),
    {
        let mut s = String::new();
        crate::text::push_str(&mut s, " ");
        match name {
            Some(n) => crate::text::push_str(&mut s, n),
            None => crate::text::push_str(&mut s, "[No Name]"),
        }
        crate::text::push_str(&mut s, "    Ln ");
        crate::text::push_decimal(&mut s, (self.cursor.line + 1) as u64);
        crate::text::push_str(&mut s, ", Col ");
        crate::text::push_decimal(&mut s, (self.cursor.col + 1) as u64);
        crate::text::push_str(&mut s, " ");
        s
    }

    /// The row of the cursor's line within a view `height` rows tall, when it
    /// is on screen.
    pub fn current_line_row(&self, height: usize) -> (r: Option<usize>)
        ensures
            match r {
                Some(row) => self.cursor.line >= self.scroll_row && row == self.cursor.line - self.scroll_row && row < height,
                None => self.cursor.line < self.scroll_row || self.cursor.line - self.scroll_row >= height,
            },
    {
        if self.cursor.line < self.scroll_row {
            return None;
        }
        let row = self.cursor.line - self.scroll_row;
        if row < height { Some(row) } else { None }
    }

    /// Where the text cursor sits within the visible text: `(column, row)`,
    /// clamped at the top-left edge.
    pub fn cursor_cell(&self) -> (r: (usize, usize))
        ensures
            r.0 == if self.cursor.col >= self.scroll_col { self.cursor.col - self.scroll_col } else { 0 },
            r.1 == if self.cursor.line >= self.scroll_row { self.cursor.line - self.scroll_row } else { 0 },
    {
        (self.cursor.col.saturating_sub(self.scroll_col), self.cursor.line.saturating_sub(self.scroll_row))
    }
}

} // verus!
