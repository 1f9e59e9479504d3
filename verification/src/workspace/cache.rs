//! What a cached verdict pass is keyed by.
//!
//! The key is `(change id, revision)`, never the change id alone: a new
//! patchset means the cached verdicts describe code that no longer exists, so
//! keying on the revision turns that into a cache miss. A format version is
//! kept beside them so that a later shape is a miss rather than a misread.
//! Reading and writing the cache file is the front end's business.

use vstd::prelude::*;
use crate::text::{copy_string, str_eq};
use crate::git::fake::{lookup, lookup_pair, insert_pair};
use crate::gerrit::comment::opt_view;

verus! {

/// The cache format version this build writes.
pub const CACHE_VERSION: u32 = 1;

/// The identity of a cached verdict pass.
#[derive(Debug, Clone, PartialEq, Eq)]
pub struct CacheKey {
    pub change_id: String,
    /// The revision the verdicts were produced against.
    pub revision: String,
    /// The format version the file was written in.
    pub version: u32,
}

/// Whether a cache stored under `(change_id, revision, version)` describes
/// `revision` of `change`.
pub open spec fn key_matches(change_id: Seq<char>, revision: Seq<char>, version: u32, change: Seq<char>, rev: Seq<char>) -> bool {
    version == CACHE_VERSION && change_id == change && revision == rev
}

impl CacheKey {
    /// The key of a fresh cache for a change at a revision.
    pub fn new(change_id: &str, revision: &str) -> (r: CacheKey)
        ensures
            r.change_id@ == change_id@,
            r.revision@ == revision@,
            r.version == CACHE_VERSION,
    {
        CacheKey { change_id: change_id.to_owned(), revision: revision.to_owned(), version: CACHE_VERSION }
    }

    /// Whether this key describes `revision` of `change_id`: the same change,
    /// the same revision, and this build's format.
    pub fn matches(&self, change_id: &str, revision: &str) -> (r: bool)
        ensures
            r == key_matches(self.change_id@, self.revision@, self.version, change_id@, revision@),
    {
        self.version == CACHE_VERSION && str_eq(self.change_id.as_str(), change_id) && str_eq(self.revision.as_str(), revision)
    }

    /// A copy of the key.
    pub fn duplicate(&self) -> (r: CacheKey)
        ensures
            r.change_id@ == self.change_id@,
            r.revision@ == self.revision@,
            r.version == self.version,
    {
        CacheKey { change_id: copy_string(&self.change_id), revision: copy_string(&self.revision), version: self.version }
    }
}

/// A fresh cache answers for exactly the change and revision it was made
/// for: a new patchset, or another change, is a miss.
pub proof fn lemma_fresh_key_matches_only_itself(change_id: Seq<char>, revision: Seq<char>, change: Seq<char>, rev: Seq<char>)
    ensures
        key_matches(change_id, revision, CACHE_VERSION, change, rev) <==> (change_id == change && revision == rev),
{
}

/// A change's cached verdict pass: its key, and each comment's verdict
/// payload (JSON text), by comment id.
#[derive(Debug, Clone)]
pub struct VerdictCache {
    pub key: CacheKey,
    /// Comment ids and their payloads; a later entry for an id wins.
    pub verdicts: Vec<(String, String)>,
}

impl VerdictCache {
    /// An empty cache for a change at a revision.
    pub fn new(change_id: &str, revision: &str) -> (r: VerdictCache)
        ensures
            r.key.change_id@ == change_id@,
            r.key.revision@ == revision@,
            r.key.version == CACHE_VERSION,
            forall|id: Seq<char>| lookup(r.verdicts@, id) is None,
    {
        VerdictCache { key: CacheKey::new(change_id, revision), verdicts: Vec::new() }
    }

    /// Whether this cache describes `revision` of `change_id`.
    pub fn matches(&self, change_id: &str, revision: &str) -> (r: bool)
        ensures
            r == key_matches(self.key.change_id@, self.key.revision@, self.key.version, change_id@, revision@),
    {
        self.key.matches(change_id, revision)
    }

    /// Store one comment's verdict payload, replacing any earlier one.
    pub fn put(&mut self, comment_id: &str, verdict: &str)
        ensures
            final(self).key == old(self).key,
            lookup(final(self).verdicts@, comment_id@) == Some(verdict@),
            forall|id: Seq<char>| id != comment_id@ ==> lookup(final(self).verdicts@, id) == lookup(old(self).verdicts@, id),
    {
        insert_pair(&mut self.verdicts, comment_id, verdict);
    }

    /// A comment's cached verdict payload.
    pub fn get(&self, comment_id: &str) -> (r: Option<String>)
        ensures
            opt_view(r) == lookup(self.verdicts@, comment_id@),
    {
        lookup_pair(&self.verdicts, comment_id)
    }
}

} // verus!
