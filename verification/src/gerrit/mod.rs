//! Gerrit: response handling, the comment and thread model, and the client
//! pieces that decide. The unit exposed upward is the thread, not the
//! comment: Gerrit returns a flat list linked by `in_reply_to`, and everything
//! above this layer sees it already assembled.

pub mod anchor;
pub mod api;
pub mod base_url;
pub mod comment;
pub mod error;
pub mod fake;
pub mod http;
pub mod load;
pub mod response;
pub mod thread;
pub mod worker;

pub use anchor::CommentAnchor;
pub use api::{ChangeInfo, GerritApi, ReviewComment, ReviewInput, RevisionInfo};
pub use comment::{Author, Comment, CommentRange};
pub use error::GerritError;
pub use fake::FakeGerrit;
pub use http::GerritHttp;
pub use load::{LoadedChange, load_change};
pub use thread::{Thread, ThreadSet};
