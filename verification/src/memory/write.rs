//! What a memory write hands to the store, and what the store's answer means.
//!
//! Memories are deduplicated per agent by a content hash of the body: an
//! insert that collides with a live memory of the same hash changes nothing.
use vstd::prelude::*;
use crate::memory::policy::ValidatedWrite;
use crate::text::owned;
use sha2::Digest;

verus! {

/// SHA-256 of a text's UTF-8 bytes, as lowercase hexadecimal.
pub uninterp spec fn spec_sha256_hex(text: Seq<char>) -> Seq<char>;

/// A lowercase hexadecimal digit.
pub open spec fn is_lower_hex(c: char) -> bool {
    ('0' <= c && c <= '9') || ('a' <= c && c <= 'f')
}

/// Calls `sha2::Sha256` on the text's bytes and formats the 32-byte digest
/// with `{:x}`. The contract names the digest; of its form it states what
/// `generic_array`'s `LowerHex` writes: two lowercase hex digits per byte.
#[verifier::external_body]
fn sha256_hex(text: &str) -> (r: String)
    ensures
        r@ == spec_sha256_hex(text@),
        r@.len() == 64,
        forall|i: int| 0 <= i < r@.len() ==> is_lower_hex(#[trigger] r@[i]),
{
    let mut h = sha2::Sha256::new();
    h.update(text.as_bytes());
    format!("{:x}", h.finalize())
}

/// The values of one memory insert.
#[derive(Clone, Debug)]
pub struct MemoryInsert {
    pub agent_id: String,
    pub kind: String,
    pub name: String,
    pub body: String,
    /// Hash of the body, the key of deduplication.
    pub content_hash: String,
    /// Days until the memory expires; `None` keeps it.
    pub ttl_days: Option<u32>,
}

/// `r` is the row of the write `req`: its fields, and the hash of its body.
pub open spec fn insert_of(req: ValidatedWrite, r: MemoryInsert) -> bool {
    &&& r.agent_id@ == req.agent_id@
    &&& r.kind@ == req.kind@
    &&& r.name@ == req.name@
    &&& r.body@ == req.body@
    &&& r.content_hash@ == spec_sha256_hex(req.body@)
    &&& r.ttl_days == req.ttl_days
}

/// The row that a validated write inserts.
pub fn memory_insert(req: &ValidatedWrite) -> (r: MemoryInsert)
    ensures
        insert_of(*req, r),
        r.content_hash@.len() == 64,
{
    MemoryInsert {
        agent_id: owned(req.agent_id.as_str()),
        kind: owned(req.kind.as_str()),
        name: owned(req.name.as_str()),
        body: owned(req.body.as_str()),
        content_hash: sha256_hex(req.body.as_str()),
        ttl_days: req.ttl_days,
    }
}

/// Writes of equal bodies carry equal content hashes, whatever their other
/// fields: the store keeps one live memory per body and agent.
pub proof fn lemma_equal_bodies_share_hash(ra: ValidatedWrite, a: MemoryInsert, rb: ValidatedWrite, b: MemoryInsert)
    requires
        insert_of(ra, a),
        insert_of(rb, b),
        ra.body@ == rb.body@,
    ensures
        a.content_hash@ == b.content_hash@,
{
}

/// Outcome of a memory write.
#[derive(Clone, Debug)]
pub enum WriteStatus {
    /// A new memory was stored under this id.
    Saved { id: String },
    /// A live memory with the same body hash already existed; nothing changed.
    AlreadyKnown,
}

/// Reads the store's answer to an insert of a memory under `id`: no row
/// affected means the hash was already known.
pub fn write_status(rows_affected: u64, id: String) -> (r: WriteStatus)
    ensures
        rows_affected == 0 <==> r is AlreadyKnown,
        r matches WriteStatus::Saved { id: saved } ==> saved@ == id@,
{
    if rows_affected == 0 {
        WriteStatus::AlreadyKnown
    } else {
        WriteStatus::Saved { id }
    }
}

} // verus!
