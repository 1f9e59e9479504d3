//! The minibuffer: a single reusable prompt on the bottom row that collects
//! input for a feature. One prompt is active at a time.

use vstd::prelude::*;
use crate::text::{push_char, chars_of, string_of_range};

verus! {

/// A prompt and the text typed into it.
#[derive(Debug, Clone, PartialEq, Eq)]
pub struct Minibuffer {
    /// The fixed label shown before the input.
    pub prompt: String,
    /// The text typed so far.
    pub input: String,
}

impl Minibuffer {
    /// A prompt labelled `prompt`, starting empty.
    pub fn new(prompt: &str) -> (r: Minibuffer)
        ensures
            r.prompt@ == prompt@,
            r.input@.len() == 0,
    {
        Minibuffer { prompt: prompt.to_owned(), input: String::new() }
    }

    /// A prompt pre-filled with text to edit, the cursor past its end.
    pub fn editing(prompt: &str, text: &str) -> (r: Minibuffer)
        ensures
            r.prompt@ == prompt@,
            r.input@ == text@,
    {
        Minibuffer { prompt: prompt.to_owned(), input: text.to_owned() }
    }

    pub fn push(&mut self, c: char)
        ensures
            final(self).input@ == old(self).input@.push(c),
            final(self).prompt == old(self).prompt,
    {
        push_char(&mut self.input, c);
    }

    /// Delete the last character, if any.
    pub fn backspace(&mut self)
        ensures
            final(self).input@ == if old(self).input@.len() > 0 { old(self).input@.drop_last() } else { old(self).input@ },
            final(self).prompt == old(self).prompt,
    {
        let v = chars_of(self.input.as_str());
        if v.len() > 0 {
            let s = string_of_range(v.as_slice(), 0, v.len() - 1);
            assert(s@ =~= self.input@.drop_last());
            self.input = s;
        }
    }

    /// Whether anything has been typed.
    pub fn is_empty(&self) -> (r: bool)
        ensures
            r == (self.input@.len() == 0),
    {
        self.input.unicode_len() == 0
    }

    /// The screen column of the text cursor: just past the input (its width
    /// taken modulo the `u16` range, as a cast does), clamped to the last
    /// column of a row `width` wide starting at `x`.
    pub fn cursor_column(&self, x: u16, width: u16) -> (r: u16)
        requires
            x + width <= 65535,
        ensures
            ({
                let col: int = (self.prompt@.len() + self.input@.len()) as int % 65536;
                let last: int = if width > 0 { width - 1 } else { 0 };
                r == x + if col < last { col } else { last }
            }),
    {
        let p = self.prompt.as_str().unicode_len();
        let i = self.input.as_str().unicode_len();
        let col: u16 = ((p as u128 + i as u128) % 65536) as u16;
        let last: u16 = width.saturating_sub(1);
        let c = if col < last { col } else { last };
        x + c
    }
}

} // verus!
