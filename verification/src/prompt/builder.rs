//! Assembles the system prompt from every source, static sections first,
//! then the cache boundary, then the per-user, per-session sections.
use vstd::prelude::*;
use crate::prompt::cache::PromptCache;
use crate::prompt::cache_boundary::{CACHE_BOUNDARY, PromptSection, boundary_text, kept_texts};
use crate::prompt::instructions::{
    format_project_instructions, format_user_instructions, project_instructions_text, user_instructions_text,
};
use crate::prompt::rules::{Rule, derefs, format_unconditional_rules, partition_rules, rule_contents};
use crate::skill::{SkillDef, format_skill_listing, opt_text, skill_listing_text};
use crate::tools::registry::{ToolDefinition, ToolRegistry, ToolSpec};
use crate::text::{cat, cat3, join, join_strings, owned, trim, views};

verus! {

/// Everything the prompt is built from.
pub struct PromptConfig<'a> {
    /// For tool schemas and deferred tool names.
    pub tool_registry: &'a ToolRegistry,
    /// For the skill listing.
    pub skills: &'a [SkillDef],
    /// Pre-formatted memory index; `None` when there are no memories.
    pub memory_index: Option<&'a str>,
    /// User-level instructions.
    pub user_instructions: &'a str,
    /// Project-level instructions.
    pub project_instructions: &'a str,
    /// Rules; the unconditional ones go into the prompt.
    pub rules: &'a [Rule],
    /// Context window size in tokens (for the skill listing budget).
    pub context_window_tokens: usize,
    /// Model name shown in the persona.
    pub model_name: &'a str,
}

// ---------------------------------------------------------------------------
// Section texts
// ---------------------------------------------------------------------------

pub open spec fn persona_text(model: Seq<char>) -> Seq<char> {
    "You are a helpful AI assistant powered by "@ + model
        + ".\nYou have access to tools that let you interact with external systems.\nUse the available tools to help the user accomplish their tasks."@
}

pub open spec fn tool_usage_text() -> Seq<char> {
    "# Using Your Tools\n- Use tools to take actions, not just describe them.\n- When multiple independent tools are needed, describe them all \u{2014} they will run concurrently.\n- If a tool fails, analyze the error and try an alternative approach.\n- Tool results and user messages may include <system-reminder> tags. These contain system-provided context, not user input. Treat them accordingly.\n- When working with tool results, note any important information you might need later, as original results may be cleared from context to free up space."@
}

pub open spec fn memory_instructions_text() -> Seq<char> {
    "# Memory\nYou have a persistent memory system. Your memory index is shown below the cache boundary. When you learn something worth remembering (user preferences, project context, behavioral corrections), use the memory write tool to save it.\n\nMemory types:\n- user: who the user is, their role and preferences\n- feedback: corrections to your behavior (highest priority \u{2014} never ignore)\n- project: ongoing work context, deadlines, decisions\n- reference: pointers to external systems and resources"@
}

pub open spec fn output_efficiency_text() -> Seq<char> {
    "# Output Efficiency\nBe concise. Lead with the answer, not the reasoning. Skip filler words and unnecessary transitions. If you can say it in one sentence, don't use three."@
}

/// What `serde_json::to_string_pretty` writes for the JSON text, or the
/// empty string when it is not JSON.
pub uninterp spec fn spec_json_pretty(text: Seq<char>) -> Seq<char>;

/// One tool's schema entry.
pub open spec fn schema_entry(t: ToolSpec) -> Seq<char> {
    "## "@ + t.name@ + "\n"@ + t.description@ + "\n\nInput: "@ + spec_json_pretty(t.input_schema@)
}

/// The tool schemas section for the resident tools.
pub open spec fn tool_schemas_text(resident: Seq<ToolSpec>) -> Seq<char> {
    if resident.len() == 0 {
        "No tools available."@
    } else {
        "# Available Tools\n\n"@ + join(resident.map_values(|t: ToolSpec| schema_entry(t)), "\n\n"@)
    }
}

/// The announcement of the deferred tools; `None` when there are none.
pub open spec fn deferred_text(deferred: Seq<ToolSpec>) -> Option<Seq<char>> {
    if deferred.len() == 0 {
        None
    } else {
        Some("The following tools are available via ToolSearch. Use ToolSearch to fetch their full schema before invoking:\n"@
            + join(deferred.map_values(|t: ToolSpec| t.name@), ", "@))
    }
}

/// The section labels, in prompt order.
pub open spec fn section_labels() -> Seq<Seq<char>> {
    seq![
        "persona"@, "tool_usage"@, "tool_schemas"@, "deferred_tools"@, "skill_listing"@,
        "memory_instructions"@, "output_efficiency"@, "cache_boundary"@,
        "user_instructions"@, "project_instructions"@, "memory_index"@, "rules"@, "context"@,
    ]
}

/// The static sections' texts.
pub open spec fn static_texts(c: PromptConfig) -> Seq<Option<Seq<char>>> {
    seq![
        Some(persona_text(c.model_name@)),
        Some(tool_usage_text()),
        Some(tool_schemas_text(c.tool_registry.spec_resident())),
        deferred_text(c.tool_registry.spec_deferred()),
        skill_listing_text(c.skills@),
        Some(memory_instructions_text()),
        Some(output_efficiency_text()),
        Some(boundary_text()),
    ]
}

/// Instructions text, or `None` when blank.
pub open spec fn instructions_text(raw: Seq<char>, user: bool) -> Option<Seq<char>> {
    if trim(raw).len() == 0 {
        None
    } else if user {
        Some(user_instructions_text(trim(raw)))
    } else {
        Some(project_instructions_text(trim(raw)))
    }
}

/// The always-on rules section; `None` when there are none.
pub open spec fn rules_text(rules: Seq<Rule>) -> Option<Seq<char>> {
    let u = rules.filter(|x: Rule| x.condition is None);
    if u.len() == 0 {
        None
    } else {
        Some("# Rules\n\n"@ + join(u.map_values(|x: Rule| x.content@), "\n\n"@))
    }
}

/// The dynamic sections' texts, but for the current date.
pub open spec fn dynamic_texts(c: PromptConfig) -> Seq<Option<Seq<char>>> {
    seq![
        instructions_text(c.user_instructions@, true),
        instructions_text(c.project_instructions@, false),
        match c.memory_index {
            Some(m) => Some(m@),
            None => None,
        },
        rules_text(c.rules@),
    ]
}

/// A decimal digit.
pub open spec fn is_digit(c: char) -> bool {
    '0' <= c && c <= '9'
}

/// A date as `YYYY-MM-DD` (years past 9999 carry more digits and a sign
/// before them): its last ten characters are four digits, `-`, two digits,
/// `-`, two digits.
pub open spec fn is_date_text(d: Seq<char>) -> bool {
    let n = d.len() as int;
    &&& n >= 10
    &&& d[n - 3] == '-' && d[n - 6] == '-'
    &&& forall|i: int| n - 10 <= i < n && i != n - 3 && i != n - 6 ==> is_digit(#[trigger] d[i])
}

/// The context section: the current date.
pub open spec fn is_context_text(t: Option<Seq<char>>) -> bool {
    t matches Some(x) && x.len() >= 14 && x.take(14) == "Current date: "@ && is_date_text(x.skip(14))
}

/// `sections` holds the labels in order, the dynamic texts after the given
/// static ones, and a context section.
pub open spec fn prompt_shape(sections: Seq<PromptSection>, statics: Seq<Option<Seq<char>>>, c: PromptConfig) -> bool {
    &&& sections.len() == 13
    &&& forall|i: int| 0 <= i < 13 ==> (#[trigger] sections[i]).label@ == section_labels()[i]
    &&& forall|i: int| 0 <= i < 8 ==> opt_text((#[trigger] sections[i]).content) == statics[i]
    &&& forall|i: int| 8 <= i < 12 ==> opt_text((#[trigger] sections[i]).content) == dynamic_texts(c)[i - 8]
    &&& is_context_text(opt_text(sections[12].content))
}

// ---------------------------------------------------------------------------
// Section builders
// ---------------------------------------------------------------------------

fn build_persona(model_name: &str) -> (r: String)
    ensures
        r@ == persona_text(model_name@),
{
    cat3(
        "You are a helpful AI assistant powered by ",
        model_name,
        ".\nYou have access to tools that let you interact with external systems.\nUse the available tools to help the user accomplish their tasks.",
    )
}

fn build_tool_usage_guide() -> (r: String)
    ensures
        r@ == tool_usage_text(),
{
    owned("# Using Your Tools\n- Use tools to take actions, not just describe them.\n- When multiple independent tools are needed, describe them all \u{2014} they will run concurrently.\n- If a tool fails, analyze the error and try an alternative approach.\n- Tool results and user messages may include <system-reminder> tags. These contain system-provided context, not user input. Treat them accordingly.\n- When working with tool results, note any important information you might need later, as original results may be cleared from context to free up space.")
}

fn build_memory_instructions() -> (r: String)
    ensures
        r@ == memory_instructions_text(),
{
    owned("# Memory\nYou have a persistent memory system. Your memory index is shown below the cache boundary. When you learn something worth remembering (user preferences, project context, behavioral corrections), use the memory write tool to save it.\n\nMemory types:\n- user: who the user is, their role and preferences\n- feedback: corrections to your behavior (highest priority \u{2014} never ignore)\n- project: ongoing work context, deadlines, decisions\n- reference: pointers to external systems and resources")
}

fn build_output_efficiency() -> (r: String)
    ensures
        r@ == output_efficiency_text(),
{
    owned("# Output Efficiency\nBe concise. Lead with the answer, not the reasoning. Skip filler words and unnecessary transitions. If you can say it in one sentence, don't use three.")
}

/// Parses the JSON text with `serde_json` and writes it back with
/// `to_string_pretty`; the empty string when it is not JSON. The result is
/// named, not described.
#[verifier::external_body]
fn json_pretty(text: &str) -> (r: String)
    ensures
        r@ == spec_json_pretty(text@),
{
    match serde_json::from_str::<serde_json::Value>(text) {
        Ok(v) => serde_json::to_string_pretty(&v).unwrap_or_default(),
        Err(_) => String::new(),
    }
}

fn build_tool_schemas(registry: &ToolRegistry) -> (r: String)
    ensures
        r@ == tool_schemas_text(registry.spec_resident()),
{
    let defs = registry.api_tool_definitions();
    let ghost res = registry.spec_resident();
    if defs.len() == 0 {
        return owned("No tools available.");
    }
    let mut schemas: Vec<String> = Vec::new();
    let mut i: usize = 0;
    while i < defs.len()
        invariant
            i <= defs@.len(),
            defs@.len() == res.len(),
            forall|k: int| 0 <= k < defs@.len() ==> crate::tools::registry::defines(#[trigger] defs@[k], res[k]),
            views(schemas@) == res.take(i as int).map_values(|t: ToolSpec| schema_entry(t)),
        decreases defs@.len() - i,
    {
        let d = &defs[i];
        assert(crate::tools::registry::defines(defs@[i as int], res[i as int]));
        let pretty = json_pretty(d.input_schema.as_str());
        let head = cat3("## ", d.name.as_str(), "\n");
        let mid = cat3(head.as_str(), d.description.as_str(), "\n\nInput: ");
        let entry = cat(mid.as_str(), pretty.as_str());
        assert(entry@ =~= schema_entry(res[i as int]));
        let ghost before = schemas@;
        schemas.push(entry);
        proof {
            assert(views(schemas@) =~= views(before).push(entry@));
            assert(res.take(i + 1) =~= res.take(i as int).push(res[i as int]));
        }
        i = i + 1;
        assert(views(schemas@) =~= res.take(i as int).map_values(|t: ToolSpec| schema_entry(t)));
    }
    assert(res.take(res.len() as int) =~= res);
    let joined = join_strings(schemas.as_slice(), "\n\n");
    cat("# Available Tools\n\n", joined.as_str())
}

fn build_deferred_tools_announcement(registry: &ToolRegistry) -> (r: Option<String>)
    ensures
        opt_text(r) == deferred_text(registry.spec_deferred()),
{
    let names = registry.deferred_tool_names();
    if names.len() == 0 {
        return None;
    }
    assert(views(names@) =~= registry.spec_deferred().map_values(|t: ToolSpec| t.name@));
    let joined = join_strings(names.as_slice(), ", ");
    Some(cat(
        "The following tools are available via ToolSearch. Use ToolSearch to fetch their full schema before invoking:\n",
        joined.as_str(),
    ))
}

/// Today's date (UTC) as `YYYY-MM-DD`, from `chrono::Utc::now` formatted
/// with `%Y-%m-%d`. The date depends on the clock: only its form is claimed,
/// which every outcome has (chrono pads the year to four digits and puts a
/// sign before years past 9999).
#[verifier::external_body]
fn today_utc() -> (r: String)
    ensures
        is_date_text(r@),
{
    chrono::Utc::now().format("%Y-%m-%d").to_string()
}

fn build_context_section() -> (r: String)
    ensures
        is_context_text(Some(r@)),
{
    proof {
        reveal_strlit("Current date: ");
    }
    let d = today_utc();
    let r = cat("Current date: ", d.as_str());
    assert(r@.take(14) =~= "Current date: "@);
    assert(r@.skip(14) =~= d@);
    r
}

fn rules_section(config: &PromptConfig) -> (r: Option<String>)
    ensures
        opt_text(r) == rules_text(config.rules@),
{
    let (unconditional, _conditional) = partition_rules(config.rules);
    let r = format_unconditional_rules(unconditional.as_slice());
    proof {
        let u = config.rules@.filter(|x: Rule| x.condition is None);
        assert(rule_contents(unconditional@) =~= u.map_values(|x: Rule| x.content@));
    }
    r
}

fn dynamic_sections(config: &PromptConfig) -> (r: Vec<PromptSection>)
    ensures
        r@.len() == 5,
        forall|i: int| 0 <= i < 5 ==> (#[trigger] r@[i]).label@ == section_labels()[i + 8],
        forall|i: int| 0 <= i < 4 ==> opt_text((#[trigger] r@[i]).content) == dynamic_texts(*config)[i],
        is_context_text(opt_text(r@[4].content)),
{
    proof {
        reveal_strlit("user_instructions");
        reveal_strlit("project_instructions");
        reveal_strlit("memory_index");
        reveal_strlit("rules");
        reveal_strlit("context");
    }
    let mut r: Vec<PromptSection> = Vec::new();
    r.push(PromptSection { label: "user_instructions", content: format_user_instructions(config.user_instructions) });
    r.push(PromptSection { label: "project_instructions", content: format_project_instructions(config.project_instructions) });
    r.push(PromptSection {
        label: "memory_index",
        content: match config.memory_index {
            Some(m) => Some(owned(m)),
            None => None,
        },
    });
    r.push(PromptSection { label: "rules", content: rules_section(config) });
    r.push(PromptSection { label: "context", content: Some(build_context_section()) });
    r
}

fn push_all(sections: &mut Vec<PromptSection>, more: Vec<PromptSection>)
    ensures
        final(sections)@ == old(sections)@ + more@,
{
    let mut i: usize = 0;
    while i < more.len()
        invariant
            i <= more@.len(),
            sections@ == old(sections)@ + more@.take(i as int),
        decreases more@.len() - i,
    {
        sections.push(PromptSection { label: more[i].label, content: more[i].content.clone() });
        i = i + 1;
        assert(sections@ =~= old(sections)@ + more@.take(i as int));
    }
    assert(more@.take(more@.len() as int) =~= more@);
}

/// Build the complete system prompt as a list of sections, in order,
/// including the cache boundary marker.
pub fn build_system_prompt(config: &PromptConfig) -> (r: Vec<PromptSection>)
    ensures
        prompt_shape(r@, static_texts(*config), *config),
{
    proof {
        reveal_strlit("persona");
        reveal_strlit("tool_usage");
        reveal_strlit("tool_schemas");
        reveal_strlit("deferred_tools");
        reveal_strlit("skill_listing");
        reveal_strlit("memory_instructions");
        reveal_strlit("output_efficiency");
        reveal_strlit("cache_boundary");
        reveal_strlit("__SYSTEM_PROMPT_DYNAMIC_BOUNDARY__");
    }
    let mut sections: Vec<PromptSection> = Vec::new();
    sections.push(PromptSection { label: "persona", content: Some(build_persona(config.model_name)) });
    sections.push(PromptSection { label: "tool_usage", content: Some(build_tool_usage_guide()) });
    sections.push(PromptSection { label: "tool_schemas", content: Some(build_tool_schemas(config.tool_registry)) });
    sections.push(PromptSection { label: "deferred_tools", content: build_deferred_tools_announcement(config.tool_registry) });
    sections.push(PromptSection {
        label: "skill_listing",
        content: format_skill_listing(config.skills, Some(config.context_window_tokens)),
    });
    sections.push(PromptSection { label: "memory_instructions", content: Some(build_memory_instructions()) });
    sections.push(PromptSection { label: "output_efficiency", content: Some(build_output_efficiency()) });
    sections.push(PromptSection { label: "cache_boundary", content: Some(owned(CACHE_BOUNDARY)) });
    let dynamic = dynamic_sections(config);
    push_all(&mut sections, dynamic);
    sections
}


/// One memoized section: the cached text when there is one, else the
/// computed text, which is memoized unless absent.
pub open spec fn cache_step(m: Map<Seq<char>, Seq<char>>, label: Seq<char>, v: Option<Seq<char>>)
    -> (Option<Seq<char>>, Map<Seq<char>, Seq<char>>)
{
    if m.dom().contains(label) {
        (Some(m[label]), m)
    } else {
        match v {
            Some(x) => (Some(x), m.insert(label, x)),
            None => (None, m),
        }
    }
}

/// The first `n` sections memoized in order: their texts and the cache after.
pub open spec fn cache_fill(m: Map<Seq<char>, Seq<char>>, labels: Seq<Seq<char>>, vals: Seq<Option<Seq<char>>>, n: nat)
    -> (Seq<Option<Seq<char>>>, Map<Seq<char>, Seq<char>>)
    decreases n,
{
    if n == 0 {
        (Seq::empty(), m)
    } else {
        let (outs, m1) = cache_fill(m, labels, vals, (n - 1) as nat);
        let (o, m2) = cache_step(m1, labels[n - 1], vals[n - 1]);
        (outs.push(o), m2)
    }
}

proof fn lemma_fill_shape(m: Map<Seq<char>, Seq<char>>, labels: Seq<Seq<char>>, vals: Seq<Option<Seq<char>>>, n: nat)
    ensures
        cache_fill(m, labels, vals, n).0.len() == n,
        forall|l: Seq<char>| #[trigger] m.dom().contains(l) ==> cache_fill(m, labels, vals, n).1.dom().contains(l)
            && cache_fill(m, labels, vals, n).1[l] == m[l],
        forall|l: Seq<char>| #[trigger] cache_fill(m, labels, vals, n).1.dom().contains(l)
            ==> m.dom().contains(l) || exists|j: int| 0 <= j < n && labels[j] == l,
        forall|i: int| 0 <= i < n && m.dom().contains(labels[i])
            ==> #[trigger] cache_fill(m, labels, vals, n).0[i] == Some(m[labels[i]]),
        forall|i: int| 0 <= i < n ==> match #[trigger] cache_fill(m, labels, vals, n).0[i] {
            Some(x) => cache_fill(m, labels, vals, n).1.dom().contains(labels[i]) && cache_fill(m, labels, vals, n).1[labels[i]] == x,
            None => true,
        },
    decreases n,
{
    if n > 0 {
        let k = (n - 1) as nat;
        lemma_fill_shape(m, labels, vals, k);
        let (outs, m1) = cache_fill(m, labels, vals, k);
        let (o, m2) = cache_step(m1, labels[k as int], vals[k as int]);
        assert(cache_fill(m, labels, vals, n) == (outs.push(o), m2));
        assert forall|l: Seq<char>| #[trigger] m2.dom().contains(l)
            implies m.dom().contains(l) || exists|j: int| 0 <= j < n && labels[j] == l by {
            if l != labels[k as int] {
                assert(m1.dom().contains(l));
                if !m.dom().contains(l) {
                    let j = choose|j: int| 0 <= j < k && labels[j] == l;
                    assert(0 <= j < n && labels[j] == l);
                }
            } else {
                assert(0 <= k < n && labels[k as int] == l);
            }
        }
    }
}

/// Memoizing the static sections into an empty cache gives each section's
/// own text: the labels are distinct, so no section finds another's entry.
proof fn lemma_cold_fill(c: PromptConfig)
    ensures
        forall|i: int| 0 <= i < 8 ==> #[trigger] cache_fill(Map::empty(), section_labels(), static_texts(c), 8).0[i]
            == static_texts(c)[i],
{
    reveal_strlit("persona");
    reveal_strlit("tool_usage");
    reveal_strlit("tool_schemas");
    reveal_strlit("deferred_tools");
    reveal_strlit("skill_listing");
    reveal_strlit("memory_instructions");
    reveal_strlit("output_efficiency");
    reveal_strlit("cache_boundary");
    let labels = section_labels();
    let vals = static_texts(c);
    let m0 = Map::<Seq<char>, Seq<char>>::empty();
    assert forall|i: int, j: int| 0 <= i < 8 && 0 <= j < 8 && i != j implies labels[i] != labels[j] by {
        if labels[i] == labels[j] {
            assert(labels[i].len() == labels[j].len());
            assert(labels[i][0] == labels[j][0]);
        }
    }
    assert forall|i: int| 0 <= i < 8 implies #[trigger] cache_fill(m0, labels, vals, 8).0[i] == vals[i] by {
        let n = (i + 1) as nat;
        lemma_fill_shape(m0, labels, vals, i as nat);
        let (outs, m1) = cache_fill(m0, labels, vals, i as nat);
        assert(!m1.dom().contains(labels[i]));
        assert(cache_fill(m0, labels, vals, n).0[i] == vals[i]);
        lemma_fill_prefix(m0, labels, vals, n, 8);
    }
}

proof fn lemma_fill_prefix(m: Map<Seq<char>, Seq<char>>, labels: Seq<Seq<char>>, vals: Seq<Option<Seq<char>>>, n: nat, k: nat)
    requires
        n <= k,
    ensures
        forall|i: int| 0 <= i < n ==> #[trigger] cache_fill(m, labels, vals, k).0[i] == cache_fill(m, labels, vals, n).0[i],
    decreases k - n,
{
    if n < k {
        lemma_fill_prefix(m, labels, vals, n, (k - 1) as nat);
        lemma_fill_shape(m, labels, vals, (k - 1) as nat);
    }
}

/// Sections with the same texts, one for one, make the same prompt text.
proof fn lemma_same_texts_same_prompt(a: Seq<PromptSection>, b: Seq<PromptSection>)
    requires
        a.len() == b.len(),
        forall|i: int| 0 <= i < a.len() ==> opt_text((#[trigger] a[i]).content) == opt_text(b[i].content),
    ensures
        kept_texts(a) == kept_texts(b),
    decreases a.len(),
{
    if a.len() > 0 {
        let k = a.len() - 1;
        assert(opt_text(a[k].content) == opt_text(b[k].content));
        assert forall|i: int| 0 <= i < a.drop_last().len() implies opt_text((#[trigger] a.drop_last()[i]).content)
            == opt_text(b.drop_last()[i].content) by {
            assert(opt_text(a[i].content) == opt_text(b[i].content));
        }
        lemma_same_texts_same_prompt(a.drop_last(), b.drop_last());
    }
}

/// With an empty cache, the memoized builder gives the same prompt as the
/// plain one: the same sections under the same labels with the same texts,
/// the context section in both being the current date (which the clock
/// decides, and which may differ between two calls). Built on the same
/// date, the two prompts are equal section by section and as joined text.
pub proof fn lemma_cold_cache_builds_the_same_prompt(c: PromptConfig, cached: Seq<PromptSection>, plain: Seq<PromptSection>)
    requires
        prompt_shape(cached, cache_fill(Map::empty(), section_labels(), static_texts(c), 8).0, c),
        prompt_shape(plain, static_texts(c), c),
    ensures
        cached.len() == plain.len(),
        forall|i: int| 0 <= i < cached.len() ==> (#[trigger] cached[i]).label@ == plain[i].label@,
        forall|i: int| 0 <= i < 12 ==> opt_text((#[trigger] cached[i]).content) == opt_text(plain[i].content),
        is_context_text(opt_text(cached[12].content)) && is_context_text(opt_text(plain[12].content)),
        opt_text(cached[12].content) == opt_text(plain[12].content) ==> {
            &&& forall|i: int| 0 <= i < cached.len() ==> opt_text((#[trigger] cached[i]).content) == opt_text(plain[i].content)
            &&& join(kept_texts(cached), "\n\n"@) == join(kept_texts(plain), "\n\n"@)
        },
{
    lemma_cold_fill(c);
    assert forall|i: int| 0 <= i < 12 implies opt_text((#[trigger] cached[i]).content) == opt_text(plain[i].content) by {
        if i < 8 {
            assert(opt_text(cached[i].content) == cache_fill(Map::empty(), section_labels(), static_texts(c), 8).0[i]);
        } else {
            assert(opt_text(cached[i].content) == dynamic_texts(c)[i - 8]);
        }
    }
    if opt_text(cached[12].content) == opt_text(plain[12].content) {
        assert forall|i: int| 0 <= i < cached.len() implies opt_text((#[trigger] cached[i]).content)
            == opt_text(plain[i].content) by {
            if i < 12 {
                assert(opt_text(cached[i].content) == opt_text(plain[i].content));
            }
        }
        lemma_same_texts_same_prompt(cached, plain);
    }
}

/// A build adds no label to the cache but the static sections' ones; so a
/// cache that held only static sections (an empty one among them) holds
/// at most eight after it.
pub proof fn lemma_cache_keeps_to_static_labels(c: PromptConfig, m0: Map<Seq<char>, Seq<char>>)
    ensures
        ({
            let m1 = cache_fill(m0, section_labels(), static_texts(c), 8).1;
            &&& forall|l: Seq<char>| #[trigger] m1.dom().contains(l)
                ==> m0.dom().contains(l) || section_labels().take(8).contains(l)
            &&& (forall|l: Seq<char>| #[trigger] m0.dom().contains(l) ==> section_labels().take(8).contains(l))
                ==> m1.dom().finite() && m1.dom().len() <= 8
        }),
{
    let labels = section_labels();
    let m1 = cache_fill(m0, labels, static_texts(c), 8).1;
    lemma_fill_shape(m0, labels, static_texts(c), 8);
    assert forall|l: Seq<char>| #[trigger] m1.dom().contains(l)
        implies m0.dom().contains(l) || labels.take(8).contains(l) by {
        if !m0.dom().contains(l) {
            assert(exists|j: int| 0 <= j < 8 && labels[j] == l);
            let j = choose|j: int| 0 <= j < 8 && labels[j] == l;
            assert(labels.take(8)[j] == l);
        }
    }
    if forall|l: Seq<char>| #[trigger] m0.dom().contains(l) ==> labels.take(8).contains(l) {
        let s = labels.take(8).to_set();
        assert(m1.dom().subset_of(s));
        labels.take(8).lemma_cardinality_of_set();
        vstd::seq_lib::seq_to_set_is_finite(labels.take(8));
        vstd::set_lib::lemma_len_subset(m1.dom(), s);
    }
}

/// A static section that a build memoized is given unchanged by every
/// later build on the same cache, whatever that build's configuration:
/// if the build from `c1` on a cache `m0` gave text `x` for a static
/// section and left the cache `m1`, the build from `c2` on `m1` gives `x`
/// for it again. The dynamic sections come from `c2`. The cache gains no
/// label but the static ones, so one that held only static sections (an
/// empty one among them) holds at most eight.
pub proof fn lemma_static_sections_stay_memoized(
    c1: PromptConfig,
    c2: PromptConfig,
    m0: Map<Seq<char>, Seq<char>>,
    s1: Seq<PromptSection>,
    s2: Seq<PromptSection>,
)
    requires
        prompt_shape(s1, cache_fill(m0, section_labels(), static_texts(c1), 8).0, c1),
        prompt_shape(s2, cache_fill(cache_fill(m0, section_labels(), static_texts(c1), 8).1, section_labels(),
            static_texts(c2), 8).0, c2),
    ensures
        forall|i: int| 0 <= i < 8 && opt_text((#[trigger] s1[i]).content) is Some
            ==> opt_text(s2[i].content) == opt_text(s1[i].content),
        forall|i: int| 8 <= i < 12 ==> opt_text((#[trigger] s2[i]).content) == dynamic_texts(c2)[i - 8],
        ({
            let m2 = cache_fill(cache_fill(m0, section_labels(), static_texts(c1), 8).1, section_labels(),
                static_texts(c2), 8).1;
            &&& forall|l: Seq<char>| #[trigger] m2.dom().contains(l)
                ==> m0.dom().contains(l) || section_labels().take(8).contains(l)
            &&& (forall|l: Seq<char>| #[trigger] m0.dom().contains(l) ==> section_labels().take(8).contains(l))
                ==> m2.dom().finite() && m2.dom().len() <= 8
        }),
{
    let labels = section_labels();
    let m1 = cache_fill(m0, labels, static_texts(c1), 8).1;
    let m2 = cache_fill(m1, labels, static_texts(c2), 8).1;
    lemma_fill_shape(m0, labels, static_texts(c1), 8);
    lemma_fill_shape(m1, labels, static_texts(c2), 8);
    lemma_cache_keeps_to_static_labels(c1, m0);
    lemma_cache_keeps_to_static_labels(c2, m1);
    assert forall|i: int| 0 <= i < 8 && opt_text((#[trigger] s1[i]).content) is Some
        implies opt_text(s2[i].content) == opt_text(s1[i].content) by {
        let o = cache_fill(m0, labels, static_texts(c1), 8).0[i];
        assert(opt_text(s1[i].content) == o);
        assert(m1.dom().contains(labels[i]));
        assert(cache_fill(m1, labels, static_texts(c2), 8).0[i] == Some(m1[labels[i]]));
    }
}

fn memo<F: FnOnce() -> Option<String>>(cache: &mut PromptCache, label: &str, compute: F, Ghost(expected): Ghost<Option<Seq<char>>>)
    -> (r: Option<String>)
    requires
        compute.requires(()),
        forall|c: Option<String>| compute.ensures((), c) ==> opt_text(c) == expected,
    ensures
        opt_text(r) == cache_step(old(cache).view(), label@, expected).0,
        final(cache).view() == cache_step(old(cache).view(), label@, expected).1,
{
    let ghost m = cache.view();
    let ghost f = compute;
    let r = cache.get_or_insert(label, compute);
    proof {
        if !m.dom().contains(label@) {
            let c = choose|c: Option<String>| #[trigger] f.ensures((), c) && match c {
                Some(v) => r matches Some(x) && x@ == v@ && cache.view() == m.insert(label@, v@),
                None => r is None && cache.view() == m,
            };
            assert(opt_text(c) == expected);
        }
    }
    r
}

/// Build the prompt while memoizing the static sections across turns:
/// each static section comes from the cache when present there, and is
/// computed and memoized otherwise.
pub fn build_system_prompt_with_cache(config: &PromptConfig, cache: &mut PromptCache) -> (r: Vec<PromptSection>)
    ensures
        ({
            let (statics, m) = cache_fill(old(cache).view(), section_labels(), static_texts(*config), 8);
            prompt_shape(r@, statics, *config) && final(cache).view() =~= m
        }),
{
    proof {
        reveal_strlit("persona");
        reveal_strlit("tool_usage");
        reveal_strlit("tool_schemas");
        reveal_strlit("deferred_tools");
        reveal_strlit("skill_listing");
        reveal_strlit("memory_instructions");
        reveal_strlit("output_efficiency");
        reveal_strlit("cache_boundary");
        reveal_strlit("__SYSTEM_PROMPT_DYNAMIC_BOUNDARY__");
    }
    let ghost texts = static_texts(*config);
    let ghost labels = section_labels();
    let ghost m0 = cache.view();
    let f0 = || -> (r: Option<String>)
        ensures
            opt_text(r) == Some(persona_text(config.model_name@)),
    {
        Some(build_persona(config.model_name))
    };
    let ghost t0 = texts[0];
    let c0 = memo(cache, "persona", f0, Ghost(t0));
    let f1 = || -> (r: Option<String>)
        ensures
            opt_text(r) == Some(tool_usage_text()),
    {
        Some(build_tool_usage_guide())
    };
    let ghost t1 = texts[1];
    let c1 = memo(cache, "tool_usage", f1, Ghost(t1));
    let f2 = || -> (r: Option<String>)
        ensures
            opt_text(r) == Some(tool_schemas_text(config.tool_registry.spec_resident())),
    {
        Some(build_tool_schemas(config.tool_registry))
    };
    let ghost t2 = texts[2];
    let c2 = memo(cache, "tool_schemas", f2, Ghost(t2));
    let f3 = || -> (r: Option<String>)
        ensures
            opt_text(r) == deferred_text(config.tool_registry.spec_deferred()),
    {
        build_deferred_tools_announcement(config.tool_registry)
    };
    let ghost t3 = texts[3];
    let c3 = memo(cache, "deferred_tools", f3, Ghost(t3));
    let f4 = || -> (r: Option<String>)
        ensures
            opt_text(r) == skill_listing_text(config.skills@),
    {
        format_skill_listing(config.skills, Some(config.context_window_tokens))
    };
    let ghost t4 = texts[4];
    let c4 = memo(cache, "skill_listing", f4, Ghost(t4));
    let f5 = || -> (r: Option<String>)
        ensures
            opt_text(r) == Some(memory_instructions_text()),
    {
        Some(build_memory_instructions())
    };
    let ghost t5 = texts[5];
    let c5 = memo(cache, "memory_instructions", f5, Ghost(t5));
    let f6 = || -> (r: Option<String>)
        ensures
            opt_text(r) == Some(output_efficiency_text()),
    {
        Some(build_output_efficiency())
    };
    let ghost t6 = texts[6];
    let c6 = memo(cache, "output_efficiency", f6, Ghost(t6));
    let f7 = || -> (r: Option<String>)
        ensures
            opt_text(r) == Some(boundary_text()),
    {
        Some(owned(CACHE_BOUNDARY))
    };
    let ghost t7 = texts[7];
    let c7 = memo(cache, "cache_boundary", f7, Ghost(t7));
    proof {
        reveal_with_fuel(cache_fill, 9);
        let outs = seq![opt_text(c0), opt_text(c1), opt_text(c2), opt_text(c3), opt_text(c4), opt_text(c5), opt_text(c6), opt_text(c7)];
        assert(cache_fill(m0, labels, texts, 8).0 =~= outs);
        assert(cache_fill(m0, labels, texts, 8).1 =~= cache.view());
    }
    let mut sections: Vec<PromptSection> = Vec::new();
    sections.push(PromptSection { label: "persona", content: c0 });
    sections.push(PromptSection { label: "tool_usage", content: c1 });
    sections.push(PromptSection { label: "tool_schemas", content: c2 });
    sections.push(PromptSection { label: "deferred_tools", content: c3 });
    sections.push(PromptSection { label: "skill_listing", content: c4 });
    sections.push(PromptSection { label: "memory_instructions", content: c5 });
    sections.push(PromptSection { label: "output_efficiency", content: c6 });
    sections.push(PromptSection { label: "cache_boundary", content: c7 });
    let dynamic = dynamic_sections(config);
    push_all(&mut sections, dynamic);
    sections
}

}
