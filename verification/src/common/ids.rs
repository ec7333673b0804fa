//! Fresh identifiers for messages, requests and sub-agent tasks.
use vstd::prelude::*;

verus! {

/// Calls `uuid::Uuid::new_v4` and renders it as text. The identifier is
/// random: of its value only the hyphenated form is claimed, which every
/// outcome has (36 characters, hyphens after the 8th, 12th, 16th and 20th
/// hex digit).
#[verifier::external_body]
pub(crate) fn new_id() -> (r: String)
    ensures
        r@.len() == 36,
        r@[8] == '-' && r@[13] == '-' && r@[18] == '-' && r@[23] == '-',
{
    uuid::Uuid::new_v4().to_string()
}

}
