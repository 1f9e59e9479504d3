//! Reading and writing files in the worktree, behind a project-owned trait.

use vstd::prelude::*;
use crate::git::fake::{lookup, lookup_pair, insert_pair, keys_distinct};
use crate::gerrit::comment::opt_view;
use super::ApplyError;

verus! {

/// Files as a worktree handle sees them, by path relative to the root.
pub type FilesView = Map<Seq<char>, Seq<char>>;

/// File access in the worktree, by path relative to its root.
///
/// What a handle sees changes by its own writes, and on [`reload`], which
/// takes in edits made from outside — as by an assistant's turn — since the
/// handle last looked. A failure of any access is an I/O error.
///
/// [`reload`]: WorktreeFiles::reload
pub trait WorktreeFiles {
    /// The files as this handle sees them.
    spec fn seen(&self) -> FilesView;

    /// The text at `path`.
    fn read(&self, path: &str) -> (r: Result<String, ApplyError>)
        ensures
            r matches Ok(s) ==> self.seen().contains_key(path@) && self.seen()[path@] == s@,
            r is Err ==> r matches Err(ApplyError::Io { .. });

    /// Replace the text at `path`.
    fn write(&mut self, path: &str, contents: &str) -> (r: Result<(), ApplyError>)
        ensures
            r is Ok ==> final(self).seen() == old(self).seen().insert(path@, contents@),
            r is Err ==> r matches Err(ApplyError::Io { .. });

    /// Take in whatever was changed from outside since the handle last looked.
    fn reload(&mut self);
}

/// The files of pairs, a later pair for a path winning.
pub open spec fn pairs_view(pairs: Seq<(String, String)>) -> FilesView {
    Map::new(|p: Seq<char>| lookup(pairs, p) is Some, |p: Seq<char>| lookup(pairs, p)->0)
}

/// An in-memory worktree for tests.
#[derive(Debug, Clone)]
pub struct FakeWorktree {
    /// Paths and their contents.
    pub files: Vec<(String, String)>,
}

impl FakeWorktree {
    /// An empty worktree.
    pub fn new() -> (r: FakeWorktree)
        ensures
            forall|p: Seq<char>| lookup(r.files@, p) is None,
            keys_distinct(r.files@),
    {
        FakeWorktree { files: Vec::new() }
    }

    /// A worktree holding `files`; a later entry for a path wins.
    pub fn with_files(files: &[(&str, &str)]) -> (r: FakeWorktree)
        ensures
            forall|i: int| 0 <= i < files@.len() && (forall|j: int| i < j < files@.len() ==> (#[trigger] files@[j]).0@ != files@[i].0@)
                ==> lookup(r.files@, (#[trigger] files@[i]).0@) == Some(files@[i].1@),
            forall|p: Seq<char>| (forall|i: int| 0 <= i < files@.len() ==> (#[trigger] files@[i]).0@ != p) ==> lookup(r.files@, p) is None,
            keys_distinct(r.files@),
    {
        let mut wt = FakeWorktree::new();
        let mut i: usize = 0;
        while i < files.len()
            invariant
                i <= files@.len(),
                forall|k: int| 0 <= k < i && (forall|j: int| k < j < i ==> (#[trigger] files@[j]).0@ != files@[k].0@)
                    ==> lookup(wt.files@, (#[trigger] files@[k]).0@) == Some(files@[k].1@),
                forall|p: Seq<char>| (forall|k: int| 0 <= k < i ==> (#[trigger] files@[k]).0@ != p) ==> lookup(wt.files@, p) is None,
                keys_distinct(wt.files@),
            decreases files@.len() - i,
        {
            let (path, contents) = files[i];
            wt.set(path, contents);
            i = i + 1;
        }
        wt
    }

    /// Put `contents` at `path`.
    pub fn set(&mut self, path: &str, contents: &str)
        ensures
            lookup(final(self).files@, path@) == Some(contents@),
            forall|p: Seq<char>| p != path@ ==> lookup(final(self).files@, p) == lookup(old(self).files@, p),
            keys_distinct(old(self).files@) ==> keys_distinct(final(self).files@),
    {
        insert_pair(&mut self.files, path, contents);
    }

    /// What is at `path`, if anything.
    pub fn contents(&self, path: &str) -> (r: Option<String>)
        ensures
            opt_view(r) == lookup(self.files@, path@),
    {
        lookup_pair(&self.files, path)
    }
}

impl WorktreeFiles for FakeWorktree {
    open spec fn seen(&self) -> FilesView {
        pairs_view(self.files@)
    }

    fn read(&self, path: &str) -> (r: Result<String, ApplyError>)
        ensures
            match r {
                Ok(s) => lookup(self.files@, path@) == Some(s@),
                Err(e) => lookup(self.files@, path@) is None && (e matches ApplyError::Io { path: p, .. } && p@ == path@),
            },
    {
        match lookup_pair(&self.files, path) {
            Some(s) => Ok(s),
            None => Err(ApplyError::Io { path: path.to_owned(), message: "no such file in the fake worktree".to_owned() }),
        }
    }

    fn write(&mut self, path: &str, contents: &str) -> (r: Result<(), ApplyError>)
        ensures
            r is Ok,
            lookup(final(self).files@, path@) == Some(contents@),
            forall|p: Seq<char>| p != path@ ==> lookup(final(self).files@, p) == lookup(old(self).files@, p),
    {
        self.set(path, contents);
        assert(pairs_view(self.files@) =~= pairs_view(old(self).files@).insert(path@, contents@));
        Ok(())
    }

    /// Nothing edits an in-memory worktree from outside.
    fn reload(&mut self)
        ensures
            final(self).files@ == old(self).files@,
    {
    }
}

} // verus!
