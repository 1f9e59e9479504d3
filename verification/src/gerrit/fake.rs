//! A named fake [`GerritApi`] serving fixtures, which records the reviews
//! posted to it so a test can check the batched post's exact contents.

use vstd::prelude::*;
use crate::gerrit::api::{ChangeInfo, GerritApi, ReviewInput, ReviewView};
use crate::gerrit::comment::Comment;
use crate::gerrit::error::GerritError;
use crate::gerrit::load::{copy_groups, path_groups};
use crate::text::str_eq;

verus! {

/// A [`GerritApi`] answering from in-memory fixtures.
#[derive(Debug)]
pub struct FakeGerrit {
    pub change: Option<ChangeInfo>,
    pub comments: Vec<(String, Vec<Comment>)>,
    pub robot_comments: Vec<(String, Vec<Comment>)>,
    /// Reviews posted, in order, with the change each went to.
    pub posted: Vec<(String, ReviewInput)>,
}

pub open spec fn review_views(v: Seq<ReviewInput>) -> Seq<ReviewView> {
    v.map_values(|r: ReviewInput| r@)
}

/// Posted reviews as plain values.
pub open spec fn post_views(v: Seq<(String, ReviewInput)>) -> Seq<(Seq<char>, ReviewView)> {
    v.map_values(|p: (String, ReviewInput)| (p.0@, p.1@))
}

/// Bind `path` to `comments` in a group list, replacing an earlier binding.
fn put_group(g: &mut Vec<(String, Vec<Comment>)>, path: &str, comments: Vec<Comment>) -> (i: usize)
    ensures
        i < final(g)@.len(),
        path_groups(final(g)@)[i as int].0 == path@,
        path_groups(final(g)@)[i as int].1 == crate::gerrit::thread::comment_views(comments@),
{
    let mut i: usize = 0;
    while i < g.len()
        invariant
            i <= g@.len(),
        decreases g@.len() - i,
    {
        if str_eq(g[i].0.as_str(), path) {
            g.set(i, (path.to_owned(), comments));
            assert(path_groups(g@)[i as int].0 == path@);
            return i;
        }
        i = i + 1;
    }
    g.push((path.to_owned(), comments));
    assert(path_groups(g@)[g@.len() - 1].0 == path@);
    g.len() - 1
}

impl FakeGerrit {
    /// A fake serving no change and no comments.
    pub fn new() -> (r: FakeGerrit)
        ensures
            r.change is None,
            r.comments@.len() == 0,
            r.robot_comments@.len() == 0,
            r.posted@.len() == 0,
    {
        FakeGerrit { change: None, comments: Vec::new(), robot_comments: Vec::new(), posted: Vec::new() }
    }

    /// A fake serving `change` and nothing else.
    pub fn serving(change: ChangeInfo) -> (r: FakeGerrit)
        ensures
            r.change == Some(change),
            r.comments@.len() == 0,
            r.robot_comments@.len() == 0,
            r.posted@.len() == 0,
    {
        FakeGerrit { change: Some(change), comments: Vec::new(), robot_comments: Vec::new(), posted: Vec::new() }
    }

    /// Add published comments for one path.
    pub fn with_comments(self, path: &str, comments: Vec<Comment>) -> (r: FakeGerrit)
        ensures
            r.change == self.change,
            r.robot_comments == self.robot_comments,
            r.posted == self.posted,
            exists|i: int| 0 <= i < r.comments@.len() && (#[trigger] path_groups(r.comments@)[i]).0 == path@
                && path_groups(r.comments@)[i].1 == crate::gerrit::thread::comment_views(comments@),
    {
        let mut me = self;
        let ghost cv = crate::gerrit::thread::comment_views(comments@);
        let i = put_group(&mut me.comments, path, comments);
        assert(path_groups(me.comments@)[i as int].0 == path@ && path_groups(me.comments@)[i as int].1 == cv);
        me
    }

    /// Add robot comments for one path.
    pub fn with_robot_comments(self, path: &str, comments: Vec<Comment>) -> (r: FakeGerrit)
        ensures
            r.change == self.change,
            r.comments == self.comments,
            r.posted == self.posted,
            exists|i: int| 0 <= i < r.robot_comments@.len() && (#[trigger] path_groups(r.robot_comments@)[i]).0 == path@
                && path_groups(r.robot_comments@)[i].1 == crate::gerrit::thread::comment_views(comments@),
    {
        let mut me = self;
        let ghost cv = crate::gerrit::thread::comment_views(comments@);
        let i = put_group(&mut me.robot_comments, path, comments);
        assert(path_groups(me.robot_comments@)[i as int].0 == path@ && path_groups(me.robot_comments@)[i as int].1 == cv);
        me
    }

    /// The reviews posted to this fake, in order.
    pub fn posted_reviews(&self) -> (r: Vec<ReviewInput>)
        ensures
            review_views(r@) == post_views(self.posted@).map_values(|p: (Seq<char>, ReviewView)| p.1),
    {
        let mut r: Vec<ReviewInput> = Vec::new();
        let mut i: usize = 0;
        while i < self.posted.len()
            invariant
                i <= self.posted@.len(),
                r@.len() == i,
                forall|k: int| 0 <= k < i ==> (#[trigger] r@[k])@ == self.posted@[k].1@,
            decreases self.posted@.len() - i,
        {
            r.push(self.posted[i].1.duplicate());
            i = i + 1;
        }
        assert(review_views(r@) =~= post_views(self.posted@).map_values(|p: (Seq<char>, ReviewView)| p.1));
        r
    }
}

impl GerritApi for FakeGerrit {
    open spec fn posted_log(&self) -> crate::gerrit::api::PostLog {
        post_views(self.posted@)
    }

    open spec fn change_answer(&self, change_id: Seq<char>, r: crate::gerrit::api::ChangeAnswer) -> bool {
        match r {
            Ok(c) => self.change matches Some(s) && c == s@,
            Err(e) => self.change is None && (e matches GerritError::NoSuchChange { change_id: id } && id@ == change_id),
        }
    }

    open spec fn comments_answer(&self, change_id: Seq<char>, r: crate::gerrit::api::GroupsAnswer) -> bool {
        r == Ok::<crate::gerrit::api::GroupsView, GerritError>(path_groups(self.comments@))
    }

    open spec fn robot_comments_answer(&self, change_id: Seq<char>, r: crate::gerrit::api::GroupsAnswer) -> bool {
        r == Ok::<crate::gerrit::api::GroupsView, GerritError>(path_groups(self.robot_comments@))
    }

    fn change(&self, change_id: &str) -> (r: Result<ChangeInfo, GerritError>)
        ensures
            match r {
                Ok(c) => self.change matches Some(s) && c@ == s@,
                Err(e) => self.change is None && (e matches GerritError::NoSuchChange { change_id: id } && id@ == change_id@),
            },
    {
        match &self.change {
            Some(c) => Ok(c.duplicate()),
            None => Err(GerritError::NoSuchChange { change_id: change_id.to_owned() }),
        }
    }

    fn comments(&self, change_id: &str) -> (r: Result<Vec<(String, Vec<Comment>)>, GerritError>)
        ensures
            r matches Ok(g) && path_groups(g@) == path_groups(self.comments@),
    {
        Ok(copy_groups(&self.comments))
    }

    fn robot_comments(&self, change_id: &str) -> (r: Result<Vec<(String, Vec<Comment>)>, GerritError>)
        ensures
            r matches Ok(g) && path_groups(g@) == path_groups(self.robot_comments@),
    {
        Ok(copy_groups(&self.robot_comments))
    }

    fn post_review(&mut self, change_id: &str, review: &ReviewInput) -> (r: Result<(), GerritError>)
        ensures
            r is Ok,
            final(self).change == old(self).change,
    {
        let ghost before = self.posted@;
        self.posted.push((change_id.to_owned(), review.duplicate()));
        assert(post_views(self.posted@) =~= post_views(before).push((change_id@, review@)));
        Ok(())
    }
}

} // verus!
