//! User and project instructions as prompt sections.
use vstd::prelude::*;
use crate::text::{cat, str_trim, trim};

verus! {

pub open spec fn user_instructions_text(body: Seq<char>) -> Seq<char> {
    "# User Instructions\nThe user has configured the following instructions. Follow them:\n\n"@ + body
}

pub open spec fn project_instructions_text(body: Seq<char>) -> Seq<char> {
    "# Project Instructions\nThe following project-specific instructions apply:\n\n"@ + body
}

/// The user instructions section; `None` when they are blank.
pub fn format_user_instructions(instructions: &str) -> (r: Option<String>)
    ensures
        trim(instructions@).len() == 0 ==> r is None,
        trim(instructions@).len() > 0 ==> (r matches Some(s) && s@ == user_instructions_text(trim(instructions@))),
{
    let t = str_trim(instructions);
    if t.as_str().is_empty() {
        return None;
    }
    Some(cat("# User Instructions\nThe user has configured the following instructions. Follow them:\n\n", t.as_str()))
}

/// The project instructions section; `None` when they are blank.
pub fn format_project_instructions(instructions: &str) -> (r: Option<String>)
    ensures
        trim(instructions@).len() == 0 ==> r is None,
        trim(instructions@).len() > 0 ==> (r matches Some(s) && s@ == project_instructions_text(trim(instructions@))),
{
    let t = str_trim(instructions);
    if t.as_str().is_empty() {
        return None;
    }
    Some(cat("# Project Instructions\nThe following project-specific instructions apply:\n\n", t.as_str()))
}

}
