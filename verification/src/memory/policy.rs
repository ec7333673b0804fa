//! Memory write policy: what may be stored, and how it is normalized.
use vstd::prelude::*;
use crate::memory::{WriteRequest, is_pinned_kind};
use crate::text::{cat, cat3, chars_of, decimal, owned, str_eq, str_trim, string_of_range, trim, u64_to_string};

verus! {

/// Body limit (characters) of the pinned kinds, which are in every prompt.
pub const PINNED_BODY_LIMIT: usize = 500;
/// Body limit (characters) of every other kind.
pub const ARCHIVE_BODY_LIMIT: usize = 2_000;
/// Names longer than this are cut silently.
pub const NAME_LIMIT: usize = 80;
/// Kinds longer than this are cut silently.
pub const KIND_LIMIT: usize = 40;

/// A write that passed the policy.
#[derive(Clone, Debug)]
pub struct ValidatedWrite {
    pub agent_id: String,
    pub kind: String,
    pub name: String,
    pub body: String,
    pub ttl_days: Option<u32>,
}

/// Why a write was refused.
#[derive(Clone, Debug, PartialEq, Eq)]
pub enum PolicyError {
    EmptyKind,
    EmptyName,
    EmptyBody,
    BodyTooLong { kind: String, limit: usize, actual: usize },
}

pub open spec fn error_message(e: PolicyError) -> Seq<char> {
    match e {
        PolicyError::EmptyKind => "kind must not be empty"@,
        PolicyError::EmptyName => "name must not be empty"@,
        PolicyError::EmptyBody => "body must not be empty"@,
        PolicyError::BodyTooLong { kind, limit, actual } => "body too long for kind '"@ + kind@ + "': "@
            + decimal(actual as nat) + " chars, limit is "@ + decimal(limit as nat) + ". Shorten and retry."@,
    }
}

impl PolicyError {
    /// The message shown to the model.
    pub fn message(&self) -> (r: String)
        ensures
            r@ == error_message(*self),
    {
        match self {
            PolicyError::EmptyKind => owned("kind must not be empty"),
            PolicyError::EmptyName => owned("name must not be empty"),
            PolicyError::EmptyBody => owned("body must not be empty"),
            PolicyError::BodyTooLong { kind, limit, actual } => {
                let a = cat3("body too long for kind '", kind.as_str(), "': ");
                let b = cat3(a.as_str(), u64_to_string(*actual as u64).as_str(), " chars, limit is ");
                let r = cat3(b.as_str(), u64_to_string(*limit as u64).as_str(), ". Shorten and retry.");
                assert(r@ =~= error_message(*self));
                r
            },
        }
    }
}

/// The first `limit` characters of `s` (all of it when shorter).
pub open spec fn spec_truncate(s: Seq<char>, limit: nat) -> Seq<char> {
    if s.len() <= limit { s } else { s.take(limit as int) }
}

/// Keep at most `limit` characters.
pub fn truncate_chars(s: &str, limit: usize) -> (r: String)
    ensures
        r@ == spec_truncate(s@, limit as nat),
{
    let v = chars_of(s);
    if v.len() <= limit {
        return owned(s);
    }
    let r = string_of_range(v.as_slice(), 0, limit);
    assert(v@.subrange(0, limit as int) =~= s@.take(limit as int));
    r
}

/// The body limit of a (trimmed, cut) kind.
pub open spec fn body_limit(kind: Seq<char>) -> nat {
    if is_pinned_kind(kind) { PINNED_BODY_LIMIT as nat } else { ARCHIVE_BODY_LIMIT as nat }
}

/// The outcome of validating a write: the normalized write, or the first
/// rule it breaks (empty kind, then name, then body, then body length).
pub open spec fn validation_ok(req: WriteRequest, r: Result<ValidatedWrite, PolicyError>) -> bool {
    let kind = trim(req.kind@);
    let name = trim(req.name@);
    let body = trim(req.body@);
    let k = spec_truncate(kind, KIND_LIMIT as nat);
    let n = spec_truncate(name, NAME_LIMIT as nat);
    if kind.len() == 0 {
        r == Err::<ValidatedWrite, PolicyError>(PolicyError::EmptyKind)
    } else if name.len() == 0 {
        r == Err::<ValidatedWrite, PolicyError>(PolicyError::EmptyName)
    } else if body.len() == 0 {
        r == Err::<ValidatedWrite, PolicyError>(PolicyError::EmptyBody)
    } else if body.len() > body_limit(k) {
        r matches Err(PolicyError::BodyTooLong { kind: ek, limit, actual })
            && ek@ == k && limit == body_limit(k) && actual == body.len()
    } else {
        r matches Ok(w) && w.agent_id == req.agent_id && w.kind@ == k && w.name@ == n && w.body@ == body
            && w.ttl_days == req.ttl_days
    }
}

/// Validate and normalize a memory write request: fields are trimmed, the
/// kind and name are cut to their limits, and the body must fit its kind's
/// limit.
pub fn validate(req: WriteRequest) -> (r: Result<ValidatedWrite, PolicyError>)
    ensures
        validation_ok(req, r),
{
    proof {
        reveal_strlit("identity");
        reveal_strlit("feedback");
    }
    let kind = str_trim(req.kind.as_str());
    let name = str_trim(req.name.as_str());
    let body = str_trim(req.body.as_str());
    if kind.as_str().is_empty() {
        return Err(PolicyError::EmptyKind);
    }
    if name.as_str().is_empty() {
        return Err(PolicyError::EmptyName);
    }
    if body.as_str().is_empty() {
        return Err(PolicyError::EmptyBody);
    }
    let kind = truncate_chars(kind.as_str(), KIND_LIMIT);
    let name = truncate_chars(name.as_str(), NAME_LIMIT);
    let limit = if str_eq(kind.as_str(), "identity") || str_eq(kind.as_str(), "feedback") {
        PINNED_BODY_LIMIT
    } else {
        ARCHIVE_BODY_LIMIT
    };
    let body_len = chars_of(body.as_str()).len();
    if body_len > limit {
        return Err(PolicyError::BodyTooLong { kind, limit, actual: body_len });
    }
    Ok(ValidatedWrite { agent_id: req.agent_id, kind, name, body, ttl_days: req.ttl_days })
}

}
