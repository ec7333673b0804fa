//! Long-term memory: its records, the write policy, and how memories are
//! shown to the model.
pub mod inject;
pub mod policy;
pub mod write;

use vstd::prelude::*;
use crate::text::{cat, cat3, owned};

verus! {

/// Memory kinds that are always recalled, whatever the topic.
pub open spec fn is_pinned_kind(kind: Seq<char>) -> bool {
    kind == "identity"@ || kind == "feedback"@
}

/// One stored memory, as the prompt logic reads it. Its importance score and
/// timestamps stay with the store.
#[derive(Clone, Debug)]
pub struct Memory {
    pub id: String,
    pub agent_id: String,
    pub kind: String,
    pub name: String,
    pub body: String,
    pub access_count: i64,
}

/// One line of the memory index.
#[derive(Clone, Debug)]
pub struct MemoryIndexEntry {
    pub id: String,
    pub kind: String,
    pub name: String,
}

pub open spec fn index_line(e: MemoryIndexEntry) -> Seq<char> {
    "["@ + e.kind@ + "] "@ + e.name@ + "  id: "@ + e.id@
}

impl MemoryIndexEntry {
    /// `[kind] name  id: id`.
    pub fn format_line(&self) -> (r: String)
        ensures
            r@ == index_line(*self),
    {
        let a = cat3("[", self.kind.as_str(), "] ");
        let r = cat3(a.as_str(), self.name.as_str(), cat("  id: ", self.id.as_str()).as_str());
        assert(r@ =~= index_line(*self));
        r
    }
}

/// Memories recalled for one turn: the pinned ones, then the relevant ones.
#[derive(Clone, Debug)]
pub struct RecallResult {
    pub pinned: Vec<Memory>,
    pub recalled: Vec<Memory>,
}

impl RecallResult {
    /// Nothing recalled.
    pub fn new() -> (r: Self)
        ensures
            r.pinned@.len() == 0,
            r.recalled@.len() == 0,
    {
        RecallResult { pinned: Vec::new(), recalled: Vec::new() }
    }

    /// Whether nothing was recalled.
    pub fn is_empty(&self) -> (r: bool)
        ensures
            r == (self.pinned@.len() == 0 && self.recalled@.len() == 0),
    {
        self.pinned.len() == 0 && self.recalled.len() == 0
    }

    /// Every recalled memory, pinned first.
    pub open spec fn spec_all(&self) -> Seq<Memory> {
        self.pinned@ + self.recalled@
    }
}

/// A request to write a memory, as the model sent it.
#[derive(Clone, Debug)]
pub struct WriteRequest {
    pub agent_id: String,
    pub kind: String,
    pub name: String,
    pub body: String,
    pub ttl_days: Option<u32>,
}

/// The embedder used when none is configured: it produces no vectors, so
/// recall falls back to lexical search. (Vectors are floating point; the
/// runtime produces them.)
pub struct NoOpEmbedder;

impl NoOpEmbedder {
    /// Dimension 0: no vectors.
    pub fn dimension(&self) -> (r: usize)
        ensures
            r == 0,
    {
        0
    }
}

}
