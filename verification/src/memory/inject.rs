//! How memories are shown to the model: the index in the prompt, the
//! memories recalled for a turn, and guidance on what to save.
use vstd::prelude::*;
use crate::common::xml::{spec_wrap, system_reminder};
use crate::memory::{Memory, MemoryIndexEntry, RecallResult, index_line};
use crate::text::{cat, cat3, decimal, join, join_strings, str_trim, trim, u64_to_string, views};

verus! {

/// At most this many index entries are listed.
pub const MAX_INDEX_ENTRIES: usize = 100;

/// The lines of the index: the first entries, then a pointer to the rest.
pub open spec fn index_lines(entries: Seq<MemoryIndexEntry>) -> Seq<Seq<char>> {
    let visible = if entries.len() <= MAX_INDEX_ENTRIES { entries.len() as int } else { MAX_INDEX_ENTRIES as int };
    let shown = entries.take(visible).map_values(|e: MemoryIndexEntry| "  "@ + index_line(e));
    if entries.len() > MAX_INDEX_ENTRIES {
        shown.push("  ... and "@ + decimal((entries.len() - MAX_INDEX_ENTRIES) as nat) + " more (use MemorySearch to find them)"@)
    } else {
        shown
    }
}

/// The memory index section.
pub open spec fn index_text(entries: Seq<MemoryIndexEntry>) -> Seq<char> {
    "## Memory\nYou have persistent memory across sessions.\nIndex ("@ + decimal(entries.len()) + " entries):\n"@
        + join(index_lines(entries), "\n"@)
        + "\n\nUse MemoryWrite to save new memories, MemorySearch to find specific ones,\nand MemoryForget to remove outdated ones."@
}

/// The memory index section; `None` when there are no memories.
pub fn format_index(entries: &[MemoryIndexEntry]) -> (r: Option<String>)
    ensures
        entries@.len() == 0 ==> r is None,
        entries@.len() > 0 ==> (r matches Some(s) && s@ == index_text(entries@)),
{
    if entries.len() == 0 {
        return None;
    }
    let visible = if entries.len() <= MAX_INDEX_ENTRIES { entries.len() } else { MAX_INDEX_ENTRIES };
    let ghost shown = entries@.take(visible as int).map_values(|e: MemoryIndexEntry| "  "@ + index_line(e));
    let mut lines: Vec<String> = Vec::new();
    let mut i: usize = 0;
    while i < visible
        invariant
            visible <= entries@.len(),
            i <= visible,
            shown == entries@.take(visible as int).map_values(|e: MemoryIndexEntry| "  "@ + index_line(e)),
            views(lines@) == shown.take(i as int),
        decreases visible - i,
    {
        let line = cat("  ", entries[i].format_line().as_str());
        let ghost before = lines@;
        assert(shown[i as int] == "  "@ + index_line(entries@[i as int]));
        lines.push(line);
        assert(views(lines@) =~= views(before).push(line@));
        i = i + 1;
        assert(views(lines@) =~= shown.take(i as int));
    }
    assert(shown.take(visible as int) =~= shown);
    if entries.len() > MAX_INDEX_ENTRIES {
        let overflow = entries.len() - MAX_INDEX_ENTRIES;
        let line = cat3("  ... and ", u64_to_string(overflow as u64).as_str(), " more (use MemorySearch to find them)");
        let ghost before = lines@;
        lines.push(line);
        assert(views(lines@) =~= views(before).push(line@));
    }
    let joined = join_strings(lines.as_slice(), "\n");
    let head = cat3(
        "## Memory\nYou have persistent memory across sessions.\nIndex (",
        u64_to_string(entries.len() as u64).as_str(),
        " entries):\n",
    );
    let body = cat(head.as_str(), joined.as_str());
    let r = cat(
        body.as_str(),
        "\n\nUse MemoryWrite to save new memories, MemorySearch to find specific ones,\nand MemoryForget to remove outdated ones.",
    );
    assert(r@ =~= index_text(entries@));
    Some(r)
}

/// One recalled memory as a tagged block.
pub open spec fn memory_block(m: Memory) -> Seq<char> {
    "<memory kind=\""@ + m.kind@ + "\" id=\""@ + m.id@ + "\">\n"@ + trim(m.body@) + "\n</memory>"@
}

/// A recalled memory as a tagged block, its body trimmed.
pub fn format_memory_block(m: &Memory) -> (r: String)
    ensures
        r@ == memory_block(*m),
{
    let a = cat3("<memory kind=\"", m.kind.as_str(), "\" id=\"");
    let b = cat3(a.as_str(), m.id.as_str(), "\">\n");
    let body = str_trim(m.body.as_str());
    let r = cat3(b.as_str(), body.as_str(), "\n</memory>");
    assert(r@ =~= memory_block(*m));
    r
}

/// The reminder holding the memories recalled for a turn.
pub open spec fn recalled_text(all: Seq<Memory>) -> Seq<char> {
    spec_wrap("system-reminder"@, "Relevant memories for this turn:\n\n"@
        + join(all.map_values(|m: Memory| memory_block(m)), "\n\n"@))
}

fn blocks_of(ms: &[Memory], out: &mut Vec<String>)
    ensures
        views(final(out)@) == views(old(out)@) + ms@.map_values(|m: Memory| memory_block(m)),
{
    let mut i: usize = 0;
    while i < ms.len()
        invariant
            i <= ms@.len(),
            views(out@) == views(old(out)@) + ms@.take(i as int).map_values(|m: Memory| memory_block(m)),
        decreases ms@.len() - i,
    {
        let b = format_memory_block(&ms[i]);
        let ghost before = out@;
        out.push(b);
        proof {
            assert(views(out@) =~= views(before).push(b@));
            assert(ms@.take(i + 1) =~= ms@.take(i as int).push(ms@[i as int]));
        }
        i = i + 1;
        assert(views(out@) =~= views(old(out)@) + ms@.take(i as int).map_values(|m: Memory| memory_block(m)));
    }
    assert(ms@.take(ms@.len() as int) =~= ms@);
}

/// The recalled memories, pinned first, as a system reminder; `None` when
/// nothing was recalled.
pub fn format_recalled(result: &RecallResult) -> (r: Option<String>)
    ensures
        result.spec_all().len() == 0 ==> r is None,
        result.spec_all().len() > 0 ==> (r matches Some(s) && s@ == recalled_text(result.spec_all())),
{
    if result.is_empty() {
        return None;
    }
    let mut blocks: Vec<String> = Vec::new();
    blocks_of(result.pinned.as_slice(), &mut blocks);
    blocks_of(result.recalled.as_slice(), &mut blocks);
    assert(views(blocks@) =~= result.spec_all().map_values(|m: Memory| memory_block(m)));
    let joined = join_strings(blocks.as_slice(), "\n\n");
    let inner = cat("Relevant memories for this turn:\n\n", joined.as_str());
    Some(system_reminder(inner.as_str()))
}

pub open spec fn write_guidance_text() -> Seq<char> {
    "## Memory write guidance\nSave memories that are:\n- Behavioral corrections (\"don't do X\", \"always do Y\")\n- Durable facts about the user (role, preferences, goals)\n- Important decisions and their reasoning\n- References to external systems the user mentioned\n\nDo NOT save:\n- Anything derivable from the codebase or documentation\n- Task-specific details that won't matter next session\n- Information already in your memory index\n- Intermediate steps or temporary state\n\nWhen unsure, don't save. Quality over quantity."@
}

/// Guidance on what is worth remembering.
pub fn format_write_guidance() -> (r: &'static str)
    ensures
        r@ == write_guidance_text(),
{
    "## Memory write guidance\nSave memories that are:\n- Behavioral corrections (\"don't do X\", \"always do Y\")\n- Durable facts about the user (role, preferences, goals)\n- Important decisions and their reasoning\n- References to external systems the user mentioned\n\nDo NOT save:\n- Anything derivable from the codebase or documentation\n- Task-specific details that won't matter next session\n- Information already in your memory index\n- Intermediate steps or temporary state\n\nWhen unsure, don't save. Quality over quantity."
}

}
