//! Skills: reusable prompts the model or the user can invoke by name.
pub mod discovery;
pub mod executor;

use vstd::prelude::*;
use crate::text::{cat, cat3, join, join_strings, owned, views};

verus! {

/// How a skill runs.
#[derive(Clone, Copy, Debug, PartialEq, Eq, Structural)]
pub enum SkillMode {
    /// Its prompt joins the current conversation.
    Inline,
    /// It runs as a separate sub-agent.
    Forked,
}

/// A skill definition; its prompt text lives in a file.
#[derive(Clone, Debug)]
pub struct SkillDef {
    pub name: String,
    pub description: String,
    pub when_to_use: String,
    pub mode: SkillMode,
    pub prompt_path: String,
}

impl SkillDef {
    pub fn new(name: &str, description: &str, when_to_use: &str, mode: SkillMode, prompt_path: &str) -> (r: Self)
        ensures
            r.name@ == name@,
            r.description@ == description@,
            r.when_to_use@ == when_to_use@,
            r.mode == mode,
            r.prompt_path@ == prompt_path@,
    {
        SkillDef {
            name: owned(name),
            description: owned(description),
            when_to_use: owned(when_to_use),
            mode,
            prompt_path: owned(prompt_path),
        }
    }
}

/// One line of the skill listing.
pub open spec fn listing_line(s: SkillDef) -> Seq<char> {
    "- /"@ + s.name@ + ": "@ + s.description@
}

/// The listing lines, in order.
pub open spec fn listing_lines(skills: Seq<SkillDef>) -> Seq<Seq<char>> {
    skills.map_values(|s: SkillDef| listing_line(s))
}

/// The skill listing section; `None` when there are no skills.
pub open spec fn skill_listing_text(skills: Seq<SkillDef>) -> Option<Seq<char>> {
    if skills.len() == 0 {
        None
    } else {
        Some("# Skills\nInvoke a skill with /<name>:\n"@ + join(listing_lines(skills), "\n"@))
    }
}

/// The skill listing section of the system prompt. The context window size
/// is accepted for a budget on the listing; the listing is short, so every
/// skill is listed.
pub fn format_skill_listing(skills: &[SkillDef], _context_window_tokens: Option<usize>) -> (r: Option<String>)
    ensures
        opt_text(r) == skill_listing_text(skills@),
{
    if skills.len() == 0 {
        return None;
    }
    let mut lines: Vec<String> = Vec::new();
    let mut i: usize = 0;
    while i < skills.len()
        invariant
            i <= skills@.len(),
            views(lines@) == listing_lines(skills@.take(i as int)),
        decreases skills@.len() - i,
    {
        let line = cat3("- /", skills[i].name.as_str(), cat(": ", skills[i].description.as_str()).as_str());
        assert(line@ =~= listing_line(skills@[i as int]));
        let ghost before = lines@;
        lines.push(line);
        proof {
            assert(views(lines@) =~= views(before).push(listing_line(skills@[i as int])));
            assert(skills@.take(i + 1) =~= skills@.take(i as int).push(skills@[i as int]));
        }
        i = i + 1;
        assert(views(lines@) =~= listing_lines(skills@.take(i as int)));
    }
    assert(skills@.take(skills@.len() as int) =~= skills@);
    let joined = join_strings(lines.as_slice(), "\n");
    Some(cat("# Skills\nInvoke a skill with /<name>:\n", joined.as_str()))
}

/// The text of an optional string.
pub open spec fn opt_text(o: Option<String>) -> Option<Seq<char>> {
    match o {
        Some(s) => Some(s@),
        None => None,
    }
}

}
