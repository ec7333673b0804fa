//! The marker between the static (cacheable) and dynamic prompt zones.
use vstd::prelude::*;
use crate::text::{join, join_strings, str_eq, views};

verus! {

/// Marker separating the static zone from the dynamic zone of the prompt.
pub const CACHE_BOUNDARY: &'static str = "__SYSTEM_PROMPT_DYNAMIC_BOUNDARY__";

pub open spec fn boundary_text() -> Seq<char> {
    "__SYSTEM_PROMPT_DYNAMIC_BOUNDARY__"@
}

/// One section of the system prompt; `None` sections are skipped.
#[derive(Clone, Debug)]
pub struct PromptSection {
    pub label: &'static str,
    pub content: Option<String>,
}

/// The texts that make it into the prompt: present, and not the marker.
pub open spec fn kept_texts(sections: Seq<PromptSection>) -> Seq<Seq<char>>
    decreases sections.len(),
{
    if sections.len() == 0 {
        Seq::empty()
    } else {
        let rest = kept_texts(sections.drop_last());
        match sections.last().content {
            Some(c) => if c@ == boundary_text() { rest } else { rest.push(c@) },
            None => rest,
        }
    }
}

/// The prompt text: the kept sections separated by blank lines.
pub fn join_sections(sections: &[PromptSection]) -> (r: String)
    ensures
        r@ == join(kept_texts(sections@), "\n\n"@),
{
    proof {
        reveal_strlit("__SYSTEM_PROMPT_DYNAMIC_BOUNDARY__");
    }
    let mut parts: Vec<String> = Vec::new();
    let mut i: usize = 0;
    while i < sections.len()
        invariant
            i <= sections@.len(),
            views(parts@) == kept_texts(sections@.take(i as int)),
        decreases sections@.len() - i,
    {
        assert(sections@.take(i + 1).drop_last() =~= sections@.take(i as int));
        let ghost before = parts@;
        match &sections[i].content {
            Some(c) => {
                if !str_eq(c.as_str(), CACHE_BOUNDARY) {
                    parts.push(c.clone());
                    assert(views(parts@) =~= views(before).push(c@));
                }
            },
            None => {},
        }
        i = i + 1;
    }
    assert(sections@.take(sections@.len() as int) =~= sections@);
    join_strings(parts.as_slice(), "\n\n")
}

}
