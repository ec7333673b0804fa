//! Storage conventions: key names and large tool-result handling.
use vstd::prelude::*;
use vstd::utf8::{encode_utf8, decode_utf8, is_char_boundary};
use vstd::string::StringSliceAdditionalSpecFns;
use crate::text::{cat, cat3, decimal, owned, u64_to_string};

verus! {

/// Redis key of a thread's checkpoint: `checkpoint:{thread_id}`.
pub fn checkpoint_key(thread_id: &str) -> (r: String)
    ensures
        r@ == "checkpoint:"@ + thread_id@,
{
    cat("checkpoint:", thread_id)
}

/// Redis stream key of a thread's events: `results:{thread_id}`.
pub fn stream_key(thread_id: &str) -> (r: String)
    ensures
        r@ == "results:"@ + thread_id@,
{
    cat("results:", thread_id)
}


/// Tool results longer than this many bytes are stored apart.
pub const MAX_INLINE_CHARS: usize = 50_000;
/// Bytes of a stored result kept inline as its preview.
pub const PREVIEW_CHARS: usize = 5_000;

/// A tool result stored apart, with the preview the model sees.
#[derive(Clone, Debug)]
pub struct ToolResultRef {
    pub tool_use_id: String,
    pub preview: String,
    pub total_chars: usize,
}

/// The preview of a stored result: its first bytes and a note.
pub open spec fn stored_preview(content: Seq<char>) -> Seq<char> {
    let bytes = encode_utf8(content);
    let k = if bytes.len() <= PREVIEW_CHARS { bytes.len() } else { PREVIEW_CHARS as nat };
    decode_utf8(bytes.take(k as int)) + "\n\n[Result truncated. Showing first "@ + decimal(PREVIEW_CHARS as nat)
        + " of "@ + decimal(bytes.len()) + " chars. Full result stored.]"@
}

/// Whether a result is cut where the preview ends without splitting a character.
pub open spec fn preview_cut_ok(content: Seq<char>) -> bool {
    let bytes = encode_utf8(content);
    bytes.len() <= PREVIEW_CHARS || is_char_boundary(bytes, PREVIEW_CHARS as int)
}

/// The reference of a tool result that is too long to stay inline (`None`
/// for results that stay inline).
pub fn tool_result_ref(tool_use_id: &str, content: &str) -> (r: Option<ToolResultRef>)
    requires
        preview_cut_ok(content@),
    ensures
        encode_utf8(content@).len() <= MAX_INLINE_CHARS ==> r is None,
        encode_utf8(content@).len() > MAX_INLINE_CHARS ==> (r matches Some(t)
            && t.tool_use_id@ == tool_use_id@
            && t.preview@ == stored_preview(content@)
            && t.total_chars == encode_utf8(content@).len()),
{
    broadcast use vstd::utf8::encode_utf8_valid_utf8, vstd::utf8::encode_utf8_decode_utf8;
    let bytes = content.as_bytes();
    let n = bytes.len();
    assert(content.spec_bytes() == encode_utf8(content@));
    if n <= MAX_INLINE_CHARS {
        return None;
    }
    let k = if n <= PREVIEW_CHARS { n } else { PREVIEW_CHARS };
    let (head, _tail) = content.split_at(k);
    assert(head.spec_bytes() =~= encode_utf8(content@).take(k as int));
    let a = cat3(head, "\n\n[Result truncated. Showing first ", u64_to_string(PREVIEW_CHARS as u64).as_str());
    let preview = cat3(a.as_str(), " of ", cat(u64_to_string(n as u64).as_str(), " chars. Full result stored.]").as_str());
    assert(preview@ =~= stored_preview(content@));
    Some(ToolResultRef { tool_use_id: owned(tool_use_id), preview, total_chars: n })
}

/// An entry of the audit trail.
#[derive(Clone, Debug)]
pub enum AuditAction {
    ToolCall { tool_name: String, input_preview: String, is_error: bool, duration_ms: u64 },
    MemoryWrite { memory_id: String, memory_type: String, name: String },
    ContextCompact { pre_tokens: u64, post_tokens: u64, strategy: String },
    SubAgentSpawn { agent_type: String, depth: u32 },
    PlanModeChange { new_mode: String },
    PermissionCheck { tool_name: String, decision: String },
}

}
