//! A text buffer held as lines of characters.
//!
//! Lines are split at every `\n`, which is not part of any line; a text that
//! ends in `\n` has an empty last line, and every buffer has at least one line.

use vstd::prelude::*;
use crate::text::{chars_of, chars_range, find_char, first_index_of, lemma_first_index_of, string_of, views};

verus! {

/// The lines of `text`, split at every `\n`.
pub open spec fn spec_split_lines(text: Seq<char>) -> Seq<Seq<char>>
    decreases text.len(),
{
    match first_index_of(text, '\n') {
        None => seq![text],
        Some(i) => {
            proof {
                lemma_first_index_of(text, '\n');
            }
            seq![text.take(i)] + spec_split_lines(text.skip(i + 1))
        },
    }
}

/// Lines joined back with `\n` between them.
pub open spec fn spec_join_lines(lines: Seq<Seq<char>>) -> Seq<char>
    decreases lines.len(),
{
    if lines.len() <= 1 {
        if lines.len() == 1 { lines[0] } else { Seq::empty() }
    } else {
        lines[0] + seq!['\n'] + spec_join_lines(lines.drop_first())
    }
}

/// A read-only text buffer.
pub struct Buffer {
    lines: Vec<Vec<char>>,
}

impl View for Buffer {
    type V = Seq<Seq<char>>;

    closed spec fn view(&self) -> Seq<Seq<char>> {
        views(self.lines@)
    }
}

proof fn lemma_split_nonempty(text: Seq<char>)
    ensures
        spec_split_lines(text).len() >= 1,
    decreases text.len(),
{
    lemma_first_index_of(text, '\n');
    if let Some(i) = first_index_of(text, '\n') {
        lemma_split_nonempty(text.skip(i + 1));
    }
}

/// Splitting a text into lines and joining them again gives the text back.
pub proof fn lemma_split_join(text: Seq<char>)
    ensures
        spec_join_lines(spec_split_lines(text)) == text,
    decreases text.len(),
{
    lemma_first_index_of(text, '\n');
    match first_index_of(text, '\n') {
        None => {},
        Some(i) => {
            let rest = text.skip(i + 1);
            lemma_split_join(rest);
            lemma_split_nonempty(rest);
            let ls = spec_split_lines(text);
            assert(ls.drop_first() =~= spec_split_lines(rest));
            assert(text =~= text.take(i) + seq!['\n'] + rest);
        },
    }
}

impl Buffer {
    /// Every line, and the number of lines, fits in a `usize`.
    pub proof fn lemma_bounded(&self)
        ensures
            self@.len() <= usize::MAX,
            forall|i: int| 0 <= i < self@.len() ==> (#[trigger] self@[i]).len() <= usize::MAX,
    {
        assert(self.lines.len() == self.lines@.len());
        assert forall|i: int| 0 <= i < self@.len() implies (#[trigger] self@[i]).len() <= usize::MAX by {
            assert(self@[i] == self.lines@[i]@);
            assert(self.lines@[i].len() == self.lines@[i]@.len());
        }
    }

    /// A buffer holding `text`.
    pub fn from_text(text: &str) -> (r: Buffer)
        ensures
            r@ == spec_split_lines(text@),
            r@.len() >= 1,
    {
        let v = chars_of(text);
        let mut lines: Vec<Vec<char>> = Vec::new();
        let mut pos: usize = 0;
        assert(v@.skip(0) =~= v@);
        loop
            invariant
                pos <= v@.len(),
                v@ == text@,
                spec_split_lines(text@) == views(lines@) + spec_split_lines(v@.skip(pos as int)),
            decreases v@.len() - pos,
        {
            let rest = chars_range(v.as_slice(), pos, v.len());
            assert(rest@ == v@.skip(pos as int));
            match find_char(rest.as_slice(), '\n') {
                None => {
                    let ghost before = lines@;
                    lines.push(rest);
                    assert(views(lines@) =~= views(before).push(v@.skip(pos as int)));
                    assert(views(before) + seq![v@.skip(pos as int)] =~= views(lines@));
                    proof { lemma_split_nonempty(text@); }
                    return Buffer { lines };
                },
                Some(i) => {
                    proof { lemma_first_index_of(rest@, '\n'); }
                    let line = chars_range(rest.as_slice(), 0, i);
                    let ghost before = lines@;
                    lines.push(line);
                    assert(views(lines@) =~= views(before).push(line@));
                    assert(rest@.skip(i + 1) =~= v@.skip(pos + i + 1));
                    assert(views(before) + spec_split_lines(rest@) =~= views(lines@) + spec_split_lines(v@.skip(pos + i + 1)));
                    pos = pos + i + 1;
                },
            }
        }
    }

    /// The number of lines; at least one.
    pub fn line_count(&self) -> (r: usize)
        ensures
            r == self@.len(),
    {
        self.lines.len()
    }

    /// The number of characters on line `line`, its `\n` excluded.
    pub fn line_len_chars(&self, line: usize) -> (r: usize)
        requires
            line < self@.len(),
        ensures
            r == self@[line as int].len(),
    {
        self.lines[line].len()
    }

    /// The characters of line `line`.
    pub fn line_chars(&self, line: usize) -> (r: &Vec<char>)
        requires
            line < self@.len(),
        ensures
            r@ == self@[line as int],
    {
        &self.lines[line]
    }

    /// The text of line `line`.
    pub fn line_text(&self, line: usize) -> (r: String)
        requires
            line < self@.len(),
        ensures
            r@ == self@[line as int],
    {
        string_of(self.lines[line].as_slice())
    }
}

} // verus!
