//! What the Gerrit worker does with each request. The worker thread and its
//! channels belong to the front end; which call a request makes, and what
//! comes back of it, is decided here.

use vstd::prelude::*;
use crate::gerrit::api::{GerritApi, GroupsView, ReviewInput};
use crate::gerrit::error::GerritError;
use crate::gerrit::load::{LoadedChange, load_change, loads_from};
use crate::gerrit::thread::thread_wf;

verus! {

/// Work the UI asks the Gerrit thread to do.
#[derive(Debug, Clone, PartialEq, Eq)]
pub enum GerritRequest {
    /// Fetch a change and assemble its triagable threads.
    LoadChange { change_id: String },
    /// Issue the single batched review post.
    PostReview { change_id: String, review: Box<ReviewInput> },
}

/// What the Gerrit thread sends back.
#[derive(Debug)]
pub enum GerritEvent {
    ChangeLoaded(Box<LoadedChange>),
    ReviewPosted,
    Failed(GerritError),
}

/// Serve one request with `api`. Loading reads and posts nothing; a post
/// that is reported done went through as asked.
pub fn serve_one<A: GerritApi>(api: &mut A, request: GerritRequest) -> (r: GerritEvent)
    ensures
        match request {
            GerritRequest::LoadChange { change_id } => {
                &&& *final(api) == *old(api)
                &&& !(r is ReviewPosted)
                &&& r matches GerritEvent::ChangeLoaded(l) ==> forall|i: int| 0 <= i < l.threads.threads@.len()
                        ==> thread_wf(#[trigger] l.threads.threads@[i]@)
                &&& r matches GerritEvent::ChangeLoaded(l) ==> old(api).change_answer(change_id@, Ok(l.change@))
                    && exists|h: GroupsView, rb: GroupsView|
                        #![trigger old(api).comments_answer(change_id@, Ok(h)), old(api).robot_comments_answer(change_id@, Ok(rb))]
                        old(api).comments_answer(change_id@, Ok(h)) && old(api).robot_comments_answer(change_id@, Ok(rb))
                        && loads_from(*l, h, rb)
                &&& r matches GerritEvent::Failed(e) ==> old(api).change_answer(change_id@, Err(e))
                    || old(api).comments_answer(change_id@, Err(e)) || old(api).robot_comments_answer(change_id@, Err(e))
            },
            GerritRequest::PostReview { change_id, review } => {
                &&& !(r is ChangeLoaded)
                &&& r is ReviewPosted ==> final(api).posted_log() == old(api).posted_log().push((change_id@, review@))
                &&& r is Failed ==> final(api).posted_log() == old(api).posted_log()
            },
        },
{
    match request {
        GerritRequest::LoadChange { change_id } => match load_change(&*api, change_id.as_str()) {
            Ok(loaded) => GerritEvent::ChangeLoaded(Box::new(loaded)),
            Err(err) => GerritEvent::Failed(err),
        },
        GerritRequest::PostReview { change_id, review } => match api.post_review(change_id.as_str(), &*review) {
            Ok(()) => GerritEvent::ReviewPosted,
            Err(err) => GerritEvent::Failed(err),
        },
    }
}

} // verus!
