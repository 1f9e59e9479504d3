//! Incremental search over a [`Buffer`]: which positions match, and which one
//! is current. The search never touches a cursor; the pane never scans text.

use vstd::prelude::*;
use crate::buffer::Buffer;
use crate::pane::Cursor;
use crate::text::chars_of;
use crate::order::{wrap_next, wrap_prev, wrap_next_times, wrap_prev_times, lemma_wrap_round_trip, lemma_wrap_full_circle};

verus! {

/// The code of a character folded to ASCII lower case.
pub open spec fn ascii_lower(c: char) -> int {
    if 'A' <= c <= 'Z' { (c as u32) + 32 } else { c as u32 as int }
}

/// Whether two characters are equal ignoring ASCII case.
pub open spec fn eq_ignore_ascii_case(a: char, b: char) -> bool {
    ascii_lower(a) == ascii_lower(b)
}

/// Whether `needle` matches `hay` at column `start`, ignoring ASCII case.
pub open spec fn matches_at(hay: Seq<char>, needle: Seq<char>, start: int) -> bool {
    &&& needle.len() > 0
    &&& 0 <= start
    &&& start + needle.len() <= hay.len()
    &&& forall|k: int| 0 <= k < needle.len() ==> #[trigger] eq_ignore_ascii_case(hay[start + k], needle[k])
}

/// Whether `(line, col)` starts a match of `needle` in `lines`.
pub open spec fn is_match(lines: Seq<Seq<char>>, needle: Seq<char>, pos: (usize, usize)) -> bool {
    pos.0 < lines.len() && matches_at(lines[pos.0 as int], needle, pos.1 as int)
}

/// Position order: by line, then by column.
pub open spec fn pos_lt(a: (usize, usize), b: (usize, usize)) -> bool {
    a.0 < b.0 || (a.0 == b.0 && a.1 < b.1)
}

/// `found` lists exactly the matches of `needle` in `lines`, in buffer order.
pub open spec fn all_matches(lines: Seq<Seq<char>>, needle: Seq<char>, found: Seq<(usize, usize)>) -> bool {
    &&& forall|i: int| 0 <= i < found.len() ==> is_match(lines, needle, #[trigger] found[i])
    &&& forall|p: (usize, usize)| is_match(lines, needle, p) ==> found.contains(p)
    &&& forall|i: int, j: int| 0 <= i < j < found.len() ==> pos_lt(found[i], found[j])
}

/// What a search finds: a non-empty query is found at a position exactly
/// when it fits in that line there and each of its characters equals the
/// line's character once both are folded to ASCII lower case (`A`–`Z` to
/// `a`–`z`, every other character as it is). So a query that appears
/// verbatim in a line is always found there, whatever its case.
pub proof fn lemma_search_folds_both_sides(lines: Seq<Seq<char>>, needle: Seq<char>, found: Seq<(usize, usize)>, pos: (usize, usize))
    requires
        all_matches(lines, needle, found),
        needle.len() > 0,
    ensures
        found.contains(pos) <==> (pos.0 < lines.len() && pos.1 + needle.len() <= lines[pos.0 as int].len()
            && forall|k: int| 0 <= k < needle.len() ==> (if 'A' <= #[trigger] lines[pos.0 as int][pos.1 + k] <= 'Z' {
                    lines[pos.0 as int][pos.1 + k] as u32 as int + 32 } else { lines[pos.0 as int][pos.1 + k] as u32 as int })
                == (if 'A' <= needle[k] <= 'Z' { needle[k] as u32 as int + 32 } else { needle[k] as u32 as int })),
        pos.0 < lines.len() && pos.1 + needle.len() <= lines[pos.0 as int].len()
            && lines[pos.0 as int].subrange(pos.1 as int, pos.1 + needle.len()) == needle ==> found.contains(pos),
{
    let folds = pos.0 < lines.len() && pos.1 + needle.len() <= lines[pos.0 as int].len()
        && forall|k: int| 0 <= k < needle.len() ==> (if 'A' <= #[trigger] lines[pos.0 as int][pos.1 + k] <= 'Z' {
                lines[pos.0 as int][pos.1 + k] as u32 as int + 32 } else { lines[pos.0 as int][pos.1 + k] as u32 as int })
            == (if 'A' <= needle[k] <= 'Z' { needle[k] as u32 as int + 32 } else { needle[k] as u32 as int });
    if found.contains(pos) {
        let i = choose|i: int| 0 <= i < found.len() && found[i] == pos;
        assert(is_match(lines, needle, found[i]));
        assert forall|k: int| 0 <= k < needle.len() implies (if 'A' <= #[trigger] lines[pos.0 as int][pos.1 + k] <= 'Z' {
                lines[pos.0 as int][pos.1 + k] as u32 as int + 32 } else { lines[pos.0 as int][pos.1 + k] as u32 as int })
            == (if 'A' <= needle[k] <= 'Z' { needle[k] as u32 as int + 32 } else { needle[k] as u32 as int }) by {
            let c = lines[pos.0 as int][pos.1 + k];
            assert(eq_ignore_ascii_case(c, needle[k]));
            assert(ascii_lower(c) == (if 'A' <= c <= 'Z' { c as u32 as int + 32 } else { c as u32 as int }));
            assert(ascii_lower(needle[k]) == (if 'A' <= needle[k] <= 'Z' { needle[k] as u32 as int + 32 } else { needle[k] as u32 as int }));
        }
    }
    if folds {
        assert forall|k: int| 0 <= k < needle.len() implies #[trigger] eq_ignore_ascii_case(lines[pos.0 as int][pos.1 + k], needle[k]) by {
            let c = lines[pos.0 as int][pos.1 + k];
            assert((if 'A' <= c <= 'Z' { c as u32 as int + 32 } else { c as u32 as int })
                == (if 'A' <= needle[k] <= 'Z' { needle[k] as u32 as int + 32 } else { needle[k] as u32 as int }));
        }
        assert(is_match(lines, needle, pos));
    }
    if pos.0 < lines.len() && pos.1 + needle.len() <= lines[pos.0 as int].len()
        && lines[pos.0 as int].subrange(pos.1 as int, pos.1 + needle.len()) == needle {
        assert forall|k: int| 0 <= k < needle.len() implies #[trigger] eq_ignore_ascii_case(lines[pos.0 as int][pos.1 + k], needle[k]) by {
            assert(lines[pos.0 as int].subrange(pos.1 as int, pos.1 + needle.len())[k] == lines[pos.0 as int][pos.1 + k]);
        }
        assert(is_match(lines, needle, pos));
    }
}

fn eq_ignore_case(a: char, b: char) -> (r: bool)
    ensures
        r == eq_ignore_ascii_case(a, b),
{
    let la: u32 = if 'A' <= a && a <= 'Z' { (a as u32) + 32 } else { a as u32 };
    let lb: u32 = if 'A' <= b && b <= 'Z' { (b as u32) + 32 } else { b as u32 };
    la == lb
}

fn matches_at_exec(hay: &Vec<char>, needle: &Vec<char>, start: usize) -> (r: bool)
    requires
        needle@.len() > 0,
        start + needle@.len() <= hay@.len(),
    ensures
        r == matches_at(hay@, needle@, start as int),
{
    let hl = hay.len();
    let mut k: usize = 0;
    while k < needle.len()
        invariant
            hl == hay@.len(),
            start + needle@.len() <= hay@.len(),
            k <= needle@.len(),
            forall|j: int| 0 <= j < k ==> #[trigger] eq_ignore_ascii_case(hay@[start + j], needle@[j]),
        decreases needle@.len() - k,
    {
        if !eq_ignore_case(hay[start + k], needle[k]) {
            return false;
        }
        k = k + 1;
    }
    true
}

/// All `(line, col)` starts where `query` matches, ignoring ASCII case, in
/// buffer order. Columns count characters, so positions line up with the
/// cursor. A query never spans a newline; an empty query matches nothing.
pub fn find_matches(buffer: &Buffer, query: &str) -> (r: Vec<(usize, usize)>)
    ensures
        all_matches(buffer@, query@, r@),
        forall|i: int| 0 <= i < r@.len() ==> (#[trigger] r@[i]).1 + query@.len() <= buffer@[r@[i].0 as int].len(),
{
    let needle = chars_of(query);
    let nlen = needle.len();
    let mut out: Vec<(usize, usize)> = Vec::new();
    if nlen == 0 {
        assert forall|p: (usize, usize)| is_match(buffer@, query@, p) implies out@.contains(p) by {}
        return out;
    }
    let count = buffer.line_count();
    let mut line: usize = 0;
    while line < count
        invariant
            count == buffer@.len(),
            needle@ == query@,
            nlen == needle@.len(),
            nlen > 0,
            line <= count,
            forall|i: int| 0 <= i < out@.len() ==> is_match(buffer@, query@, #[trigger] out@[i]),
            forall|i: int| 0 <= i < out@.len() ==> (#[trigger] out@[i]).0 < line,
            forall|i: int| 0 <= i < out@.len() ==> (#[trigger] out@[i]).1 + query@.len() <= buffer@[out@[i].0 as int].len(),
            forall|p: (usize, usize)| is_match(buffer@, query@, p) && p.0 < line ==> out@.contains(p),
            forall|i: int, j: int| 0 <= i < j < out@.len() ==> pos_lt(out@[i], out@[j]),
        decreases count - line,
    {
        let hay = buffer.line_chars(line);
        let hl = hay.len();
        if hay.len() >= nlen {
            let last = hay.len() - nlen;
            let mut start: usize = 0;
            while start <= last
                invariant
                    count == buffer@.len(),
                    line < count,
                    hay@ == buffer@[line as int],
                    hl == hay@.len(),
                    needle@ == query@,
                    nlen == needle@.len(),
                    nlen > 0,
                    last + nlen == hay@.len(),
                    start <= last + 1,
                    forall|i: int| 0 <= i < out@.len() ==> is_match(buffer@, query@, #[trigger] out@[i]),
                    forall|i: int| 0 <= i < out@.len() ==> (#[trigger] out@[i]).0 <= line,
                    forall|i: int| 0 <= i < out@.len() && (#[trigger] out@[i]).0 == line ==> out@[i].1 < start,
                    forall|i: int| 0 <= i < out@.len() ==> (#[trigger] out@[i]).1 + query@.len() <= buffer@[out@[i].0 as int].len(),
                    forall|p: (usize, usize)| is_match(buffer@, query@, p) && (p.0 < line || (p.0 == line && p.1 < start)) ==> out@.contains(p),
                    forall|i: int, j: int| 0 <= i < j < out@.len() ==> pos_lt(out@[i], out@[j]),
                decreases last + 1 - start,
            {
                if matches_at_exec(hay, &needle, start) {
                    let ghost before = out@;
                    out.push((line, start));
                    assert forall|p: (usize, usize)| is_match(buffer@, query@, p) && (p.0 < line || (p.0 == line && p.1 < start + 1)) implies out@.contains(p) by {
                        if p.0 == line && p.1 == start {
                            assert(out@[before.len() as int] == p);
                        } else {
                            assert(before.contains(p));
                            let k = choose|k: int| 0 <= k < before.len() && before[k] == p;
                            assert(out@[k] == p);
                        }
                    }
                } else {
                    assert forall|p: (usize, usize)| is_match(buffer@, query@, p) && (p.0 < line || (p.0 == line && p.1 < start + 1)) implies out@.contains(p) by {
                        if p.0 == line && p.1 == start {
                            assert(matches_at(buffer@[line as int], query@, start as int));
                        }
                    }
                }
                start = start + 1;
            }
            assert forall|p: (usize, usize)| is_match(buffer@, query@, p) && p.0 < line + 1 implies out@.contains(p) by {
                if p.0 == line {
                    assert(p.1 < start);
                }
            }
        } else {
            assert forall|p: (usize, usize)| is_match(buffer@, query@, p) && p.0 < line + 1 implies out@.contains(p) by {
                if p.0 == line {
                    assert(p.1 + nlen <= hay@.len());
                }
            }
        }
        line = line + 1;
    }
    out
}

/// Index of the first match at or after `pos`, or `None` if every match
/// precedes it.
pub open spec fn spec_nearest(matches: Seq<(usize, usize)>, pos: (usize, usize)) -> Option<int>
    decreases matches.len(),
{
    if matches.len() == 0 {
        None
    } else if !pos_lt(matches[0], pos) {
        Some(0)
    } else {
        match spec_nearest(matches.drop_first(), pos) {
            Some(i) => Some(i + 1),
            None => None,
        }
    }
}

proof fn lemma_nearest(matches: Seq<(usize, usize)>, pos: (usize, usize))
    ensures
        match spec_nearest(matches, pos) {
            Some(i) => 0 <= i < matches.len() && !pos_lt(matches[i], pos) && forall|k: int| 0 <= k < i ==> pos_lt(#[trigger] matches[k], pos),
            None => forall|k: int| 0 <= k < matches.len() ==> pos_lt(#[trigger] matches[k], pos),
        },
    decreases matches.len(),
{
    if matches.len() > 0 && pos_lt(matches[0], pos) {
        lemma_nearest(matches.drop_first(), pos);
        assert forall|k: int| 0 < k < matches.len() implies #[trigger] matches[k] == matches.drop_first()[k - 1] by {}
    }
}

/// Index of the first match at or after `pos` in a buffer-ordered match list.
pub fn nearest_at_or_after(matches: &Vec<(usize, usize)>, pos: (usize, usize)) -> (r: Option<usize>)
    ensures
        match r {
            Some(i) => spec_nearest(matches@, pos) == Some(i as int),
            None => spec_nearest(matches@, pos) is None,
        },
{
    proof { lemma_nearest(matches@, pos); }
    let mut i: usize = 0;
    while i < matches.len()
        invariant
            i <= matches@.len(),
            forall|k: int| 0 <= k < i ==> pos_lt(#[trigger] matches@[k], pos),
            match spec_nearest(matches@, pos) {
                Some(j) => 0 <= j < matches@.len() && !pos_lt(matches@[j], pos) && forall|k: int| 0 <= k < j ==> pos_lt(#[trigger] matches@[k], pos),
                None => forall|k: int| 0 <= k < matches@.len() ==> pos_lt(#[trigger] matches@[k], pos),
            },
        decreases matches@.len() - i,
    {
        let m = matches[i];
        if m.0 > pos.0 || (m.0 == pos.0 && m.1 >= pos.1) {
            proof {
                match spec_nearest(matches@, pos) {
                    Some(j) => {
                        if j < i { } else if j > i { assert(pos_lt(matches@[i as int], pos)); }
                    },
                    None => { assert(pos_lt(matches@[i as int], pos)); },
                }
            }
            return Some(i);
        }
        i = i + 1;
    }
    proof {
        if let Some(j) = spec_nearest(matches@, pos) {
            assert(pos_lt(matches@[j], pos));
        }
    }
    None
}

/// Active incremental-search state: the match positions, which one is
/// current, the cursor a cancel restores, and the query's length.
pub struct Search {
    /// `(line, col)` start of each match, in buffer order.
    pub matches: Vec<(usize, usize)>,
    pub current: usize,
    pub origin: Cursor,
    pub len: usize,
}

impl Search {
    /// Every match ends within `usize`, so a match's end column is computable.
    pub open spec fn wf(&self) -> bool {
        forall|i: int| 0 <= i < self.matches@.len() ==> (#[trigger] self.matches@[i]).1 + self.len <= usize::MAX
    }

    /// Every match lies inside `buffer`.
    pub open spec fn fits(&self, buffer: Seq<Seq<char>>) -> bool {
        &&& self.wf()
        &&& self.origin.line < buffer.len()
        &&& forall|i: int| 0 <= i < self.matches@.len() ==> (#[trigger] self.matches@[i]).0 < buffer.len()
                && self.matches@[i].1 + self.len <= buffer[self.matches@[i].0 as int].len()
    }

    /// The current match as plain values.
    pub open spec fn spec_current(&self) -> Option<((usize, usize), usize)> {
        if self.current < self.matches@.len() {
            Some((self.matches@[self.current as int], self.len))
        } else {
            None
        }
    }

    /// Start a search from `origin`, the cursor a cancel restores.
    pub fn begin(origin: Cursor) -> (r: Search)
        ensures
            r.matches@.len() == 0,
            r.current == 0,
            r.origin == origin,
            r.len == 0,
            r.wf(),
    {
        Search { matches: Vec::new(), current: 0, origin, len: 0 }
    }

    /// The cursor the search started from.
    pub fn origin(&self) -> (r: Cursor)
        ensures
            r == self.origin,
    {
        self.origin
    }

    /// Recompute matches for `query` and select the nearest one at or after
    /// the origin, wrapping to the first. An empty query clears the match set.
    pub fn update(&mut self, buffer: &Buffer, query: &str)
        ensures
            all_matches(buffer@, query@, final(self).matches@),
            final(self).len == query@.len(),
            final(self).origin == old(self).origin,
            final(self).current == match spec_nearest(final(self).matches@, (old(self).origin.line, old(self).origin.col)) {
                Some(i) => i,
                None => 0,
            },
            final(self).wf(),
            forall|i: int| 0 <= i < final(self).matches@.len() ==> (#[trigger] final(self).matches@[i]).0 < buffer@.len()
                && final(self).matches@[i].1 + final(self).len <= buffer@[final(self).matches@[i].0 as int].len(),
            old(self).origin.line < buffer@.len() ==> final(self).fits(buffer@),
            final(self).matches@.len() > 0 ==> final(self).current < final(self).matches@.len(),
    {
        proof { buffer.lemma_bounded(); }
        let matches = find_matches(buffer, query);
        let len = query.unicode_len();
        let origin = (self.origin.line, self.origin.col);
        let current = match nearest_at_or_after(&matches, origin) {
            Some(i) => i,
            None => 0,
        };
        proof { lemma_nearest(matches@, origin); }
        self.matches = matches;
        self.len = len;
        self.current = current;
    }

    /// Advance to the next match, wrapping past the last to the first.
    pub fn next(&mut self)
        ensures
            final(self).matches == old(self).matches,
            final(self).origin == old(self).origin,
            final(self).len == old(self).len,
            final(self).current == wrap_next(old(self).current as int, old(self).matches@.len() as int),
    {
        if self.matches.len() > 0 {
            self.current = ((self.current as u128 + 1) % (self.matches.len() as u128)) as usize;
        }
    }

    /// Step back to the previous match, wrapping past the first to the last.
    pub fn prev(&mut self)
        ensures
            final(self).matches == old(self).matches,
            final(self).origin == old(self).origin,
            final(self).len == old(self).len,
            final(self).current == wrap_prev(old(self).current as int, old(self).matches@.len() as int),
    {
        if self.matches.len() > 0 {
            let n = self.matches.len() as u128;
            self.current = ((self.current as u128 + n - 1) % n) as usize;
        }
    }

    /// The currently selected match, or `None` when nothing matches.
    pub fn current_match(&self) -> (r: Option<((usize, usize), usize)>)
        ensures
            r == self.spec_current(),
    {
        if self.current < self.matches.len() {
            Some((self.matches[self.current], self.len))
        } else {
            None
        }
    }
}

/// Stepping through the matches: with none, a step stays put and nothing is
/// current; with `k` of them and the current one among them, a step forward
/// undoes a step back and the reverse, and `k` steps either way come back to
/// the match they started from.
pub proof fn lemma_match_steps_wrap(s: Search)
    requires
        s.matches@.len() > 0 ==> s.current < s.matches@.len(),
    ensures
        s.matches@.len() == 0 ==> s.spec_current() is None
            && wrap_next(s.current as int, 0) == s.current && wrap_prev(s.current as int, 0) == s.current,
        s.matches@.len() > 0 ==> ({
            let (c, k) = (s.current as int, s.matches@.len() as int);
            &&& wrap_prev(wrap_next(c, k), k) == c
            &&& wrap_next(wrap_prev(c, k), k) == c
            &&& wrap_next_times(c, k, k as nat) == c
            &&& wrap_prev_times(c, k, k as nat) == c
        }),
{
    if s.matches@.len() > 0 {
        lemma_wrap_round_trip(s.current as int, s.matches@.len() as int);
        lemma_wrap_full_circle(s.current as int, s.matches@.len() as int);
    }
}

} // verus!
