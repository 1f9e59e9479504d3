//! Keys to actions, per mode. The front end turns its terminal events into a
//! [`Key`]; everything here is a pure decision.

use vstd::prelude::*;
use super::{Action, Mode};
use crate::triage::Decision;

verus! {

/// A key, as far as the bindings care.
#[derive(Debug, Clone, Copy, PartialEq, Eq)]
pub enum KeyCode {
    Char(char),
    Up,
    Down,
    Tab,
    PageUp,
    PageDown,
    Backspace,
    Enter,
    Esc,
    /// Any key with no binding.
    Other,
}

/// A key press with its Control modifier.
#[derive(Debug, Clone, Copy, PartialEq, Eq)]
pub struct Key {
    pub code: KeyCode,
    pub control: bool,
}

impl Key {
    /// A plain key.
    pub fn new(code: KeyCode) -> (r: Key)
        ensures
            r == (Key { code, control: false }),
    {
        Key { code, control: false }
    }

    /// A key pressed with Control.
    pub fn ctrl(code: KeyCode) -> (r: Key)
        ensures
            r == (Key { code, control: true }),
    {
        Key { code, control: true }
    }
}

/// The binding while deciding threads.
pub open spec fn spec_triage_action(code: KeyCode) -> Option<Action> {
    match code {
        KeyCode::Char('a') => Some(Action::Decide(Decision::Accept)),
        KeyCode::Char('r') => Some(Action::Decide(Decision::Reject)),
        KeyCode::Char('d') => Some(Action::Decide(Decision::Defer)),
        KeyCode::Char('h') => Some(Action::Decide(Decision::FixedByHand)),
        KeyCode::Char('e') => Some(Action::BeginProseEdit),
        KeyCode::Char('n') | KeyCode::Down => Some(Action::Next),
        KeyCode::Char('p') | KeyCode::Up => Some(Action::Prev),
        KeyCode::Tab => Some(Action::NextUndecided),
        KeyCode::Char('t') => Some(Action::ToggleTree),
        KeyCode::Char('w') => Some(Action::ShowWorktreePath),
        KeyCode::PageDown | KeyCode::Char(' ') => Some(Action::ScrollDocDown),
        KeyCode::PageUp => Some(Action::ScrollDocUp),
        KeyCode::Char('F') => Some(Action::OpenGate),
        KeyCode::Char('q') => Some(Action::Quit),
        _ => None,
    }
}

/// The binding while typing into the minibuffer: printable keys are text.
pub open spec fn spec_text_action(code: KeyCode) -> Option<Action> {
    match code {
        KeyCode::Char(c) => Some(Action::Input(c)),
        KeyCode::Backspace => Some(Action::Backspace),
        KeyCode::Enter => Some(Action::Confirm),
        KeyCode::Esc => Some(Action::Cancel),
        _ => None,
    }
}

/// The binding while the end-of-triage question is open.
pub open spec fn spec_finish_action(code: KeyCode) -> Option<Action> {
    match code {
        KeyCode::Char('y') | KeyCode::Enter => Some(Action::Confirm),
        KeyCode::Char('n') | KeyCode::Esc => Some(Action::Cancel),
        _ => None,
    }
}

/// What a key means in a mode. Control-C quits from anywhere.
pub open spec fn spec_action_for(key: Key, mode: Mode) -> Option<Action> {
    if key.control && key.code == KeyCode::Char('c') {
        Some(Action::Quit)
    } else {
        match mode {
            Mode::Triage => spec_triage_action(key.code),
            Mode::Prose | Mode::Reply => spec_text_action(key.code),
            Mode::Gate => spec_finish_action(key.code),
        }
    }
}

fn triage_action(code: KeyCode) -> (r: Option<Action>)
    ensures
        r == spec_triage_action(code),
{
    match code {
        KeyCode::Char('a') => Some(Action::Decide(Decision::Accept)),
        KeyCode::Char('r') => Some(Action::Decide(Decision::Reject)),
        KeyCode::Char('d') => Some(Action::Decide(Decision::Defer)),
        KeyCode::Char('h') => Some(Action::Decide(Decision::FixedByHand)),
        KeyCode::Char('e') => Some(Action::BeginProseEdit),
        KeyCode::Char('n') | KeyCode::Down => Some(Action::Next),
        KeyCode::Char('p') | KeyCode::Up => Some(Action::Prev),
        KeyCode::Tab => Some(Action::NextUndecided),
        KeyCode::Char('t') => Some(Action::ToggleTree),
        KeyCode::Char('w') => Some(Action::ShowWorktreePath),
        KeyCode::PageDown | KeyCode::Char(' ') => Some(Action::ScrollDocDown),
        KeyCode::PageUp => Some(Action::ScrollDocUp),
        KeyCode::Char('F') => Some(Action::OpenGate),
        KeyCode::Char('q') => Some(Action::Quit),
        _ => None,
    }
}

fn text_action(code: KeyCode) -> (r: Option<Action>)
    ensures
        r == spec_text_action(code),
{
    match code {
        KeyCode::Char(c) => Some(Action::Input(c)),
        KeyCode::Backspace => Some(Action::Backspace),
        KeyCode::Enter => Some(Action::Confirm),
        KeyCode::Esc => Some(Action::Cancel),
        _ => None,
    }
}

fn finish_action(code: KeyCode) -> (r: Option<Action>)
    ensures
        r == spec_finish_action(code),
{
    match code {
        KeyCode::Char('y') | KeyCode::Enter => Some(Action::Confirm),
        KeyCode::Char('n') | KeyCode::Esc => Some(Action::Cancel),
        _ => None,
    }
}

/// What a key means in a mode.
pub fn action_for(key: Key, mode: Mode) -> (r: Option<Action>)
    ensures
        r == spec_action_for(key, mode),
{
    if key.control && match key.code { KeyCode::Char('c') => true, _ => false } {
        return Some(Action::Quit);
    }
    match mode {
        Mode::Triage => triage_action(key.code),
        Mode::Prose | Mode::Reply => text_action(key.code),
        Mode::Gate => finish_action(key.code),
    }
}

} // verus!
