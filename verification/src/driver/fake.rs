//! A named fake [`ClaudeDriver`] for tests: it records every prompt, answers
//! with canned payloads, and makes queued edits to the worktree it owns.

use vstd::prelude::*;
use crate::apply::files::FakeWorktree;
use crate::git::fake::lookup;
use crate::text::copy_string;
use super::{ClaudeDriver, DriverError, Envelope, SessionId};

verus! {

/// A driver answering from canned data.
#[derive(Debug, Clone)]
pub struct FakeDriver {
    /// The worktree its apply turns edit.
    pub worktree: FakeWorktree,
    /// Edits made by successive apply turns, oldest first.
    pub edits: Vec<(String, String)>,
    /// Every prompt received, in order.
    pub turns: Vec<String>,
    /// What a reply turn answers.
    pub reply: String,
    /// Whether every turn reports an error.
    pub fails: bool,
}

impl FakeDriver {
    /// A driver over `worktree` with no queued edits.
    pub fn new(worktree: FakeWorktree) -> (r: FakeDriver)
        ensures
            r.worktree.files@ == worktree.files@,
            r.edits@.len() == 0,
            r.turns@.len() == 0,
            r.reply@ == "Thanks — I disagree, see below."@,
            !r.fails,
    {
        FakeDriver { worktree, edits: Vec::new(), turns: Vec::new(), reply: "Thanks — I disagree, see below.".to_owned(), fails: false }
    }

    /// Queue an edit the next apply turn makes.
    pub fn editing(self, path: &str, contents: &str) -> (r: FakeDriver)
        ensures
            r.edits@.len() == self.edits@.len() + 1,
            r.edits@.last().0@ == path@ && r.edits@.last().1@ == contents@,
            r.edits@.drop_last() == self.edits@,
            r.worktree.files@ == self.worktree.files@,
            r.turns@ == self.turns@,
            r.reply == self.reply,
            r.fails == self.fails,
    {
        let mut me = self;
        me.edits.push((path.to_owned(), contents.to_owned()));
        assert(me.edits@.drop_last() =~= self.edits@);
        me
    }

    /// Make every turn report an error.
    pub fn failing(self) -> (r: FakeDriver)
        ensures
            r.fails,
            r.edits@ == self.edits@,
            r.worktree.files@ == self.worktree.files@,
            r.turns@ == self.turns@,
            r.reply == self.reply,
    {
        let mut me = self;
        me.fails = true;
        me
    }

    /// Set what reply turns answer.
    pub fn replying(self, reply: &str) -> (r: FakeDriver)
        ensures
            r.reply@ == reply@,
            r.fails == self.fails,
            r.edits@ == self.edits@,
            r.worktree.files@ == self.worktree.files@,
            r.turns@ == self.turns@,
    {
        let mut me = self;
        me.reply = reply.to_owned();
        me
    }

    /// The prompts received so far.
    pub fn turns(&self) -> (r: Vec<String>)
        ensures
            r@.map_values(|s: String| s@) == self.turns@.map_values(|s: String| s@),
    {
        let mut r: Vec<String> = Vec::new();
        let mut i: usize = 0;
        while i < self.turns.len()
            invariant
                i <= self.turns@.len(),
                r@.len() == i,
                forall|k: int| 0 <= k < i ==> (#[trigger] r@[k])@ == self.turns@[k]@,
            decreases self.turns@.len() - i,
        {
            r.push(copy_string(&self.turns[i]));
            i = i + 1;
        }
        assert(r@.map_values(|s: String| s@) =~= self.turns@.map_values(|s: String| s@));
        r
    }

    fn envelope<T>(&self, payload: T) -> (r: Envelope<T>)
        ensures
            r.is_error == self.fails,
            self.fails ==> r.structured_output is None,
            !self.fails ==> r.structured_output == Some(payload),
    {
        Envelope { is_error: self.fails, structured_output: if self.fails { None } else { Some(payload) } }
    }
}

impl ClaudeDriver for FakeDriver {
    open spec fn prompts(&self) -> super::PromptLog {
        self.turns@.map_values(|s: String| s@)
    }

    fn verdict_turn(&mut self, session: &SessionId, prompt: &str) -> (r: Result<Envelope<String>, DriverError>)
        ensures
            final(self).turns@.map_values(|s: String| s@) == old(self).turns@.map_values(|s: String| s@).push(prompt@),
            r matches Ok(env) && env.is_error == old(self).fails
                && (!old(self).fails ==> (env.structured_output matches Some(t) && t@ == "[]"@)),
    {
        let ghost before = self.turns@;
        self.turns.push(prompt.to_owned());
        assert(self.turns@.map_values(|s: String| s@) =~= before.map_values(|s: String| s@).push(prompt@));
        Ok(self.envelope("[]".to_owned()))
    }

    fn apply_turn(&mut self, session: &SessionId, prompt: &str, worktree: &str) -> (r: Result<Envelope<()>, DriverError>)
        ensures
            final(self).turns@.map_values(|s: String| s@) == old(self).turns@.map_values(|s: String| s@).push(prompt@),
            r matches Ok(env) && env.is_error == old(self).fails,
            old(self).fails || old(self).edits@.len() == 0 ==> final(self).edits@ == old(self).edits@
                && final(self).worktree.files@ == old(self).worktree.files@,
            !old(self).fails && old(self).edits@.len() > 0 ==> final(self).edits@ == old(self).edits@.drop_first()
                && lookup(final(self).worktree.files@, old(self).edits@[0].0@) == Some(old(self).edits@[0].1@)
                && forall|p: Seq<char>| p != old(self).edits@[0].0@ ==> lookup(final(self).worktree.files@, p) == lookup(old(self).worktree.files@, p),
    {
        let ghost before = self.turns@;
        self.turns.push(prompt.to_owned());
        assert(self.turns@.map_values(|s: String| s@) =~= before.map_values(|s: String| s@).push(prompt@));
        if self.fails {
            return Ok(self.envelope(()));
        }
        if self.edits.len() > 0 {
            let (path, contents) = self.edits.remove(0);
            self.worktree.set(path.as_str(), contents.as_str());
        }
        Ok(self.envelope(()))
    }

    fn reply_turn(&mut self, session: &SessionId, prompt: &str) -> (r: Result<Envelope<String>, DriverError>)
        ensures
            final(self).turns@.map_values(|s: String| s@) == old(self).turns@.map_values(|s: String| s@).push(prompt@),
            r matches Ok(env) && env.is_error == old(self).fails
                && (!old(self).fails ==> (env.structured_output matches Some(t) && t@ == old(self).reply@)),
    {
        let ghost before = self.turns@;
        self.turns.push(prompt.to_owned());
        assert(self.turns@.map_values(|s: String| s@) =~= before.map_values(|s: String| s@).push(prompt@));
        let reply = copy_string(&self.reply);
        Ok(self.envelope(reply))
    }
}

} // verus!
