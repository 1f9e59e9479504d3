//! The assistant's command-line driver, behind a project-owned trait: one
//! verdict turn per thread, one apply turn per accepted fix, one reply turn
//! per rejection, all within one session.

pub mod fake;

pub use fake::FakeDriver;

use vstd::prelude::*;
use crate::text::push_str;

verus! {

/// The session the turns of one review share.
#[derive(Debug, Clone, PartialEq, Eq)]
pub struct SessionId(pub String);

impl SessionId {
    pub fn as_str(&self) -> (r: &str)
        ensures
            r@ == self.0@,
    {
        self.0.as_str()
    }
}

/// What a turn returned: whether it failed, and its structured output.
#[derive(Debug, Clone, PartialEq, Eq)]
pub struct Envelope<T> {
    pub is_error: bool,
    pub structured_output: Option<T>,
}

impl<T> Envelope<T> {
    /// The turn's payload. A failed turn is surfaced rather than parsed, and
    /// a missing payload is an error, not an empty value.
    pub fn payload(self, turn: &str) -> (r: Result<T, DriverError>)
        ensures
            self.is_error ==> (r matches Err(e) && (e matches DriverError::TurnFailed { turn: t } && t@ == turn@)),
            !self.is_error && self.structured_output is None ==> (r matches Err(e) && (e matches DriverError::NoStructuredOutput { turn: t } && t@ == turn@)),
            !self.is_error && self.structured_output is Some ==> r == Ok::<T, DriverError>(self.structured_output->0),
    {
        if self.is_error {
            return Err(DriverError::TurnFailed { turn: turn.to_owned() });
        }
        match self.structured_output {
            Some(t) => Ok(t),
            None => Err(DriverError::NoStructuredOutput { turn: turn.to_owned() }),
        }
    }
}

/// The prompts handed to a driver's turns, in order.
pub type PromptLog = Seq<Seq<char>>;

/// The turns the review loop takes. Implemented over the real CLI by the
/// front end and by [`FakeDriver`] in tests.
pub trait ClaudeDriver {
    /// Every prompt handed to a turn so far, in order.
    spec fn prompts(&self) -> PromptLog;

    /// Adjudicate threads; the structured output is the verdicts' JSON text.
    fn verdict_turn(&mut self, session: &SessionId, prompt: &str) -> (r: Result<Envelope<String>, DriverError>)
        ensures
            final(self).prompts() == old(self).prompts().push(prompt@);

    /// Make one fix in the worktree at `worktree`.
    fn apply_turn(&mut self, session: &SessionId, prompt: &str, worktree: &str) -> (r: Result<Envelope<()>, DriverError>)
        ensures
            final(self).prompts() == old(self).prompts().push(prompt@);

    /// Draft a reply to a rejected thread.
    fn reply_turn(&mut self, session: &SessionId, prompt: &str) -> (r: Result<Envelope<String>, DriverError>)
        ensures
            final(self).prompts() == old(self).prompts().push(prompt@);
}

/// Failures driving the assistant.
#[derive(Debug, Clone, PartialEq, Eq)]
pub enum DriverError {
    /// The executable is not on `PATH`.
    ClaudeNotFound,
    TurnFailed { turn: String },
    NoStructuredOutput { turn: String },
    Spawn { turn: String, message: String },
}

/// The message describing a driver failure.
pub open spec fn spec_driver_error_text(e: DriverError) -> Seq<char> {
    match e {
        DriverError::ClaudeNotFound => "the assistant's command-line tool is not on PATH — Remendo drives it and cannot run without it"@,
        DriverError::TurnFailed { turn } => "the "@ + turn@ + " turn reported an error"@,
        DriverError::NoStructuredOutput { turn } => "the "@ + turn@ + " turn returned no structured output to read a payload from"@,
        DriverError::Spawn { turn, message } => "could not run the "@ + turn@ + " turn: "@ + message@,
    }
}

impl DriverError {
    /// The human-readable message for this failure.
    pub fn describe(&self) -> (r: String)
        ensures
            r@ == spec_driver_error_text(*self),
    {
        let mut s = String::new();
        match self {
            DriverError::ClaudeNotFound => {
                push_str(&mut s, "the assistant's command-line tool is not on PATH — Remendo drives it and cannot run without it");
            },
            DriverError::TurnFailed { turn } => {
                push_str(&mut s, "the ");
                push_str(&mut s, turn.as_str());
                push_str(&mut s, " turn reported an error");
            },
            DriverError::NoStructuredOutput { turn } => {
                push_str(&mut s, "the ");
                push_str(&mut s, turn.as_str());
                push_str(&mut s, " turn returned no structured output to read a payload from");
            },
            DriverError::Spawn { turn, message } => {
                push_str(&mut s, "could not run the ");
                push_str(&mut s, turn.as_str());
                push_str(&mut s, " turn: ");
                push_str(&mut s, message.as_str());
            },
        }
        s
    }
}

} // verus!
