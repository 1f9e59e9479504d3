//! Remendo's core: adjudicating and applying Gerrit review comments from the
//! keyboard. This crate holds everything that decides: the comment-thread
//! model, the triage state machine, the apply pass, the review post a triage
//! turns into, the document pane and its search, and the text handling they
//! share. Terminal drawing, processes, files and the network live in the
//! front end that drives it.

pub mod app;
pub mod apply;
pub mod buffer;
pub mod diff_view;
pub mod driver;
pub mod gerrit;
pub mod git;
pub mod minibuffer;
pub mod order;
pub mod pane;
pub mod report;
pub mod search;
pub mod submit;
pub mod text;
pub mod triage;
pub mod verdict;
pub mod workspace;
