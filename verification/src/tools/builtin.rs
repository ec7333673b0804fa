//! Built-in tools: their registry entries and what they answer. The runtime
//! performs their effects (the store, HTTP).
use vstd::prelude::*;
use crate::common::json::spec_json_normalize;
use crate::text::{cat, cat3, chars_of, decimal, owned, string_of_range, u64_to_string};
use crate::tools::registry::ToolSpec;

verus! {

/// What `serde_json` finds under `key` in the JSON object text, when that
/// is a string.
pub uninterp spec fn spec_json_str_field(json: Seq<char>, key: Seq<char>) -> Option<Seq<char>>;

/// What `serde_json` finds under `key` in the JSON object text, when that is
/// an unsigned integer.
pub uninterp spec fn spec_json_u64_field(json: Seq<char>, key: Seq<char>) -> Option<u64>;

/// Parses the JSON text with `serde_json` and reads the string under `key`
/// (`None`: not JSON, no such key, or not a string). The result is named.
#[verifier::external_body]
pub(crate) fn json_str_field(json: &str, key: &str) -> (r: Option<String>)
    ensures
        match r {
            Some(s) => spec_json_str_field(json@, key@) == Some(s@),
            None => spec_json_str_field(json@, key@) is None,
        },
{
    match serde_json::from_str::<serde_json::Value>(json) {
        Ok(v) => v.get(key).and_then(|x| x.as_str()).map(|s| s.to_string()),
        Err(_) => None,
    }
}

/// Parses the JSON text with `serde_json` and reads the unsigned integer
/// under `key` (`None`: not JSON, no such key, or not a `u64`). The result
/// is named.
#[verifier::external_body]
pub(crate) fn json_u64_field(json: &str, key: &str) -> (r: Option<u64>)
    ensures
        r == spec_json_u64_field(json@, key@),
{
    match serde_json::from_str::<serde_json::Value>(json) {
        Ok(v) => v.get(key).and_then(|x| x.as_u64()),
        Err(_) => None,
    }
}

/// The error of a missing string field.
pub open spec fn missing_field_text(key: Seq<char>) -> Seq<char> {
    "missing required string field '"@ + key + "'"@
}

/// A required string field of a tool input, or the error the model sees.
pub fn required_str(input: &str, key: &str) -> (r: Result<String, String>)
    ensures
        match spec_json_str_field(input@, key@) {
            Some(v) => r matches Ok(s) && s@ == v,
            None => r matches Err(e) && e@ == missing_field_text(key@),
        },
{
    match json_str_field(input, key) {
        Some(s) => Ok(s),
        None => Err(cat3("missing required string field '", key, "'")),
    }
}

// ---------------------------------------------------------------------------
// MemoryForget
// ---------------------------------------------------------------------------

/// Soft-deletes a memory by id.
pub struct MemoryForgetTool;

pub open spec fn forget_schema_text() -> Seq<char> {
    "{\"properties\":{\"id\":{\"description\":\"The memory ID to forget (UUID from the memory index or search results)\",\"minLength\":1,\"type\":\"string\"},\"reason\":{\"description\":\"Why this memory is being forgotten (for audit trail)\",\"minLength\":1,\"type\":\"string\"}},\"required\":[\"id\",\"reason\"],\"type\":\"object\"}"@
}

/// What a forget request asks: the memory id and the audit reason.
pub open spec fn forget_request(input: Seq<char>) -> Result<(Seq<char>, Seq<char>), Seq<char>> {
    match spec_json_str_field(input, "id"@) {
        None => Err(missing_field_text("id"@)),
        Some(id) => match spec_json_str_field(input, "reason"@) {
            None => Err(missing_field_text("reason"@)),
            Some(reason) => Ok((id, "agent_deleted: "@ + reason)),
        },
    }
}

impl MemoryForgetTool {
    pub fn new() -> (r: Self) {
        MemoryForgetTool
    }

    pub fn name(&self) -> (r: &'static str)
        ensures
            r@ == "MemoryForget"@,
    {
        proof {
            reveal_strlit("MemoryForget");
        }
        "MemoryForget"
    }

    pub fn description(&self) -> (r: &'static str)
        ensures
            r@ == "Remove an outdated or incorrect memory."@,
    {
        proof {
            reveal_strlit("Remove an outdated or incorrect memory.");
        }
        "Remove an outdated or incorrect memory."
    }

    pub fn prompt(&self) -> (r: &'static str)
        ensures
            r@ == "Soft-deletes a memory by ID. The memory is retired, not permanently erased.\n\nUse when:\n- A memory is factually wrong\n- A user preference has changed\n- A reference is stale and cluttering the index\n\nThe memory ID is visible in the index ([kind] name  id: <uuid>) or in MemorySearch results."@,
    {
        proof {
            reveal_strlit("Soft-deletes a memory by ID. The memory is retired, not permanently erased.\n\nUse when:\n- A memory is factually wrong\n- A user preference has changed\n- A reference is stale and cluttering the index\n\nThe memory ID is visible in the index ([kind] name  id: <uuid>) or in MemorySearch results.");
        }
        "Soft-deletes a memory by ID. The memory is retired, not permanently erased.\n\nUse when:\n- A memory is factually wrong\n- A user preference has changed\n- A reference is stale and cluttering the index\n\nThe memory ID is visible in the index ([kind] name  id: <uuid>) or in MemorySearch results."
    }

    /// The input schema as compact JSON.
    pub fn input_schema(&self) -> (r: String)
        ensures
            r@ == forget_schema_text(),
    {
        owned("{\"properties\":{\"id\":{\"description\":\"The memory ID to forget (UUID from the memory index or search results)\",\"minLength\":1,\"type\":\"string\"},\"reason\":{\"description\":\"Why this memory is being forgotten (for audit trail)\",\"minLength\":1,\"type\":\"string\"}},\"required\":[\"id\",\"reason\"],\"type\":\"object\"}")
    }

    /// Resident: its schema is in every prompt.
    pub fn should_defer(&self) -> (r: bool)
        ensures
            !r,
    {
        false
    }

    /// Mutations run one at a time.
    pub fn is_concurrent(&self) -> (r: bool)
        ensures
            !r,
    {
        false
    }

    /// The registry entry of this tool.
    pub fn spec_entry(&self) -> (r: ToolSpec)
        ensures
            r.name@ == "MemoryForget"@,
            r.description@ == "Remove an outdated or incorrect memory."@,
            r.input_schema@ == forget_schema_text(),
            !r.should_defer,
            r.search_hint is None,
    {
        ToolSpec {
            name: owned(self.name()),
            description: owned(self.description()),
            input_schema: self.input_schema(),
            should_defer: false,
            search_hint: None,
        }
    }

    /// Read a forget request: the memory id and the audit reason
    /// (`agent_deleted: {reason}`), or the error the model sees.
    pub fn request(&self, input: &str) -> (r: Result<(String, String), String>)
        ensures
            match forget_request(input@) {
                Ok((id, reason)) => r matches Ok((i, s)) && i@ == id && s@ == reason,
                Err(e) => r matches Err(x) && x@ == e,
            },
    {
        proof {
            reveal_strlit("id");
            reveal_strlit("reason");
        }
        let id = match required_str(input, "id") {
            Ok(id) => id,
            Err(e) => return Err(e),
        };
        let reason = match required_str(input, "reason") {
            Ok(r) => cat("agent_deleted: ", r.as_str()),
            Err(e) => return Err(e),
        };
        Ok((id, reason))
    }

    /// The answer after the memory was retired.
    pub fn forgotten_message(&self, id: &str) -> (r: String)
        ensures
            r@ == "memory "@ + id@ + " forgotten"@,
    {
        cat3("memory ", id, " forgotten")
    }
}

// ---------------------------------------------------------------------------
// WebFetch
// ---------------------------------------------------------------------------

/// Characters returned when the input sets no limit.
pub const WEB_FETCH_DEFAULT_CHARS: u64 = 20_000;
/// The largest limit the input may set.
pub const WEB_FETCH_MAX_CHARS: u64 = 100_000;

/// The character limit of a fetch: the input's `max_chars`, or the default,
/// at most the maximum.
pub open spec fn fetch_limit(input: Seq<char>) -> u64 {
    let m = match spec_json_u64_field(input, "max_chars"@) {
        Some(v) => v,
        None => WEB_FETCH_DEFAULT_CHARS,
    };
    if m <= WEB_FETCH_MAX_CHARS { m } else { WEB_FETCH_MAX_CHARS }
}

/// The answer of a fetch: the URL, the content type and the body, cut to
/// `max_chars` characters with a note when longer.
pub open spec fn fetch_output(url: Seq<char>, content_type: Seq<char>, body: Seq<char>, max_chars: nat) -> Seq<char> {
    let head = "URL: "@ + url + "\nContent-Type: "@ + content_type + "\n\n"@;
    if body.len() > max_chars {
        head + body.take(max_chars as int) + "\n\n[truncated \u{2014} showing "@ + decimal(max_chars) + " of "@
            + decimal(body.len()) + " chars]"@
    } else {
        head + body
    }
}

/// Fetches the content of a URL.
pub struct WebFetchTool;

impl WebFetchTool {
    pub fn name(&self) -> (r: &'static str)
        ensures
            r@ == "WebFetch"@,
    {
        proof {
            reveal_strlit("WebFetch");
        }
        "WebFetch"
    }

    pub fn description(&self) -> (r: &'static str)
        ensures
            r@ == "Fetch the raw content of a URL."@,
    {
        proof {
            reveal_strlit("Fetch the raw content of a URL.");
        }
        "Fetch the raw content of a URL."
    }

    /// The character limit the input sets.
    pub fn max_chars(&self, input: &str) -> (r: u64)
        ensures
            r == fetch_limit(input@),
    {
        proof {
            reveal_strlit("max_chars");
        }
        let m = match json_u64_field(input, "max_chars") {
            Some(v) => v,
            None => WEB_FETCH_DEFAULT_CHARS,
        };
        if m <= WEB_FETCH_MAX_CHARS { m } else { WEB_FETCH_MAX_CHARS }
    }

    /// Format a fetched response.
    pub fn format_output(&self, url: &str, content_type: &str, body: &str, max_chars: u64) -> (r: String)
        ensures
            r@ == fetch_output(url@, content_type@, body@, max_chars as nat),
    {
        let head1 = cat3("URL: ", url, "\nContent-Type: ");
        let head = cat3(head1.as_str(), content_type, "\n\n");
        let v = chars_of(body);
        let total = v.len();
        if (total as u64) > max_chars {
            let cut = max_chars as usize;
            let kept = string_of_range(v.as_slice(), 0, cut);
            assert(v@.subrange(0, cut as int) =~= body@.take(cut as int));
            let a = cat3(head.as_str(), kept.as_str(), "\n\n[truncated \u{2014} showing ");
            let b = cat3(a.as_str(), u64_to_string(max_chars).as_str(), " of ");
            let r = cat3(b.as_str(), u64_to_string(total as u64).as_str(), " chars]");
            assert(r@ =~= fetch_output(url@, content_type@, body@, max_chars as nat));
            r
        } else {
            let r = cat(head.as_str(), body);
            assert(r@ =~= fetch_output(url@, content_type@, body@, max_chars as nat));
            r
        }
    }
}

}
