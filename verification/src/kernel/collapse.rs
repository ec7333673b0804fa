//! Context collapse: folds old messages into one placeholder without calling
//! the model. The placeholder records the id range it replaced, so the
//! originals (kept in storage) can be restored.
use vstd::prelude::*;
use crate::common::message::{ContentBlock, Message, MessageView, Role, msgs_view, copy_messages_range};
use crate::text::{decimal, join, views, cat, cat3, owned, u64_to_string, join_strings};

verus! {

/// Number of recent messages never collapsed.
pub const KEEP_RECENT: usize = 10;
/// Minimum number of messages worth collapsing.
pub const MIN_SEGMENT_SIZE: usize = 6;

/// Result of a collapse.
pub struct CollapseResult {
    /// The new message list with the collapsed placeholder first.
    pub messages: Vec<Message>,
    /// How many messages were folded.
    pub collapsed_count: usize,
}

/// Number of messages with the given role.
pub open spec fn count_role(ms: Seq<Message>, role: Role) -> nat
    decreases ms.len(),
{
    if ms.len() == 0 {
        0
    } else {
        count_role(ms.drop_last(), role) + if ms.last().role == role { 1nat } else { 0nat }
    }
}

/// Number of tool-use blocks in a block list.
pub open spec fn count_tool_uses_in(bs: Seq<ContentBlock>) -> nat
    decreases bs.len(),
{
    if bs.len() == 0 {
        0
    } else {
        count_tool_uses_in(bs.drop_last()) + if bs.last() is ToolUse { 1nat } else { 0nat }
    }
}

/// Number of tool-use blocks in a message list.
pub open spec fn count_tool_uses(ms: Seq<Message>) -> nat
    decreases ms.len(),
{
    if ms.len() == 0 {
        0
    } else {
        count_tool_uses(ms.drop_last()) + count_tool_uses_in(ms.last().content@)
    }
}

/// `"{n} {label}"` when `n > 0`, as a one- or zero-element list.
pub open spec fn part(n: nat, label: Seq<char>) -> Seq<Seq<char>> {
    if n > 0 { seq![decimal(n) + seq![' '] + label] } else { Seq::empty() }
}

/// The summary text of a folded segment, e.g.
/// "12 messages collapsed (5 user, 6 assistant, 1 system)".
pub open spec fn collapse_summary(ms: Seq<Message>) -> Seq<char> {
    let parts = part(count_role(ms, Role::User), "user"@)
        + part(count_role(ms, Role::Assistant), "assistant"@)
        + part(count_tool_uses(ms), "tool calls"@)
        + part(count_role(ms, Role::System), "system"@);
    let head = decimal(ms.len()) + " messages collapsed"@;
    if parts.len() > 0 {
        head + seq![' ', '('] + join(parts, ", "@) + seq![')']
    } else {
        head
    }
}

proof fn lemma_counts_bounded(ms: Seq<Message>)
    ensures
        count_role(ms, Role::User) + count_role(ms, Role::Assistant) + count_role(ms, Role::System) == ms.len(),
    decreases ms.len(),
{
    if ms.len() > 0 {
        lemma_counts_bounded(ms.drop_last());
    }
}

fn count_tool_blocks(blocks: &[ContentBlock]) -> (r: u64)
    requires
        count_tool_uses_in(blocks@) <= u64::MAX,
    ensures
        r == count_tool_uses_in(blocks@),
{
    let mut n: u64 = 0;
    let mut i: usize = 0;
    while i < blocks.len()
        invariant
            i <= blocks@.len(),
            count_tool_uses_in(blocks@) <= u64::MAX,
            n == count_tool_uses_in(blocks@.take(i as int)),
        decreases blocks@.len() - i,
    {
        proof {
            assert(blocks@.take(i + 1).drop_last() =~= blocks@.take(i as int));
            lemma_tool_uses_in_prefix(blocks@, i + 1);
        }
        if let ContentBlock::ToolUse { .. } = &blocks[i] {
            n = n + 1;
        }
        i = i + 1;
    }
    assert(blocks@.take(blocks@.len() as int) =~= blocks@);
    n
}

proof fn lemma_tool_uses_in_prefix(bs: Seq<ContentBlock>, i: int)
    requires
        0 <= i <= bs.len(),
    ensures
        count_tool_uses_in(bs.take(i)) <= count_tool_uses_in(bs),
    decreases bs.len() - i,
{
    if i < bs.len() {
        lemma_tool_uses_in_prefix(bs, i + 1);
        assert(bs.take(i + 1).drop_last() =~= bs.take(i));
    } else {
        assert(bs.take(i) =~= bs);
    }
}

proof fn lemma_tool_uses_prefix(ms: Seq<Message>, i: int)
    requires
        0 <= i <= ms.len(),
    ensures
        count_tool_uses(ms.take(i)) <= count_tool_uses(ms),
    decreases ms.len() - i,
{
    if i < ms.len() {
        lemma_tool_uses_prefix(ms, i + 1);
        assert(ms.take(i + 1).drop_last() =~= ms.take(i));
    } else {
        assert(ms.take(i) =~= ms);
    }
}

fn push_part(parts: &mut Vec<String>, n: u64, label: &str)
    ensures
        views(final(parts)@) == views(old(parts)@) + part(n as nat, label@),
{
    let ghost before = views(parts@);
    if n > 0 {
        let s = cat3(u64_to_string(n).as_str(), " ", label);
        parts.push(s);
        proof {
            reveal_strlit(" ");
            assert(views(parts@) =~= views(old(parts)@).push(s@));
            assert(s@ =~= decimal(n as nat) + seq![' '] + label@);
            assert(views(parts@) =~= before + part(n as nat, label@));
        }
    } else {
        assert(views(parts@) =~= before + part(n as nat, label@));
    }
}

/// Rule-based summary of a folded segment (no model call).
pub fn build_collapse_summary(messages: &[Message]) -> (r: String)
    requires
        count_tool_uses(messages@) <= u64::MAX,
    ensures
        r@ == collapse_summary(messages@),
{
    let mut user_count: u64 = 0;
    let mut assistant_count: u64 = 0;
    let mut system_count: u64 = 0;
    let mut tool_count: u64 = 0;
    let mut i: usize = 0;
    while i < messages.len()
        invariant
            i <= messages@.len(),
            count_tool_uses(messages@) <= u64::MAX,
            user_count == count_role(messages@.take(i as int), Role::User),
            assistant_count == count_role(messages@.take(i as int), Role::Assistant),
            system_count == count_role(messages@.take(i as int), Role::System),
            tool_count == count_tool_uses(messages@.take(i as int)),
        decreases messages@.len() - i,
    {
        proof {
            assert(messages@.take(i + 1).drop_last() =~= messages@.take(i as int));
            lemma_counts_bounded(messages@.take(i as int));
            lemma_tool_uses_prefix(messages@, i + 1);
        }
        let m = &messages[i];
        match m.role {
            Role::User => user_count = user_count + 1,
            Role::Assistant => assistant_count = assistant_count + 1,
            Role::System => system_count = system_count + 1,
        }
        let t = count_tool_blocks(m.content.as_slice());
        tool_count = tool_count + t;
        i = i + 1;
    }
    assert(messages@.take(messages@.len() as int) =~= messages@);
    let mut breakdown: Vec<String> = Vec::new();
    push_part(&mut breakdown, user_count, "user");
    push_part(&mut breakdown, assistant_count, "assistant");
    push_part(&mut breakdown, tool_count, "tool calls");
    push_part(&mut breakdown, system_count, "system");
    let head = cat(u64_to_string(messages.len() as u64).as_str(), " messages collapsed");
    if breakdown.len() > 0 {
        let inner = join_strings(breakdown.as_slice(), ", ");
        let r = cat3(cat(head.as_str(), " (").as_str(), inner.as_str(), ")");
        proof {
            reveal_strlit(" (");
            reveal_strlit(")");
            let parts = part(count_role(messages@, Role::User), "user"@)
                + part(count_role(messages@, Role::Assistant), "assistant"@)
                + part(count_tool_uses(messages@), "tool calls"@)
                + part(count_role(messages@, Role::System), "system"@);
            assert(views(breakdown@) =~= parts);
            assert(r@ =~= collapse_summary(messages@));
        }
        r
    } else {
        head
    }
}

/// Collapsed placeholder id: `collapsed-{first}-{last}`.
pub open spec fn placeholder_id(first: Seq<char>, last: Seq<char>) -> Seq<char> {
    "collapsed-"@ + first + seq!['-'] + last
}

/// Whether `r` is the collapse of `ms`.
pub open spec fn is_collapse_of(r: CollapseResult, ms: Seq<Message>) -> bool {
    let split = ms.len() - KEEP_RECENT;
    let folded = ms.take(split);
    &&& r.collapsed_count == split
    &&& r.messages@.len() == KEEP_RECENT + 1
    &&& msgs_view(r.messages@.skip(1)) == msgs_view(ms.skip(split))
    &&& r.messages@[0].id@ == placeholder_id(ms[0].id@, ms[split - 1].id@)
    &&& r.messages@[0].role == Role::System
    &&& r.messages@[0].content.len() == 1
    &&& r.messages@[0].content@[0] matches ContentBlock::Collapsed { folded_count, first_message_id, last_message_id, summary }
        && folded_count == split as u32
        && first_message_id@ == ms[0].id@
        && last_message_id@ == ms[split - 1].id@
        && summary@ == collapse_summary(folded)
}

/// Fold all but the last `KEEP_RECENT` messages into one placeholder.
/// Returns `None` when there are too few messages to be worth it.
pub fn collapse(messages: &[Message]) -> (r: Option<CollapseResult>)
    requires
        count_tool_uses(messages@) <= u64::MAX,
    ensures
        messages@.len() <= KEEP_RECENT + MIN_SEGMENT_SIZE ==> r is None,
        messages@.len() > KEEP_RECENT + MIN_SEGMENT_SIZE ==> (r matches Some(c) && is_collapse_of(c, messages@)),
{
    if messages.len() <= KEEP_RECENT + MIN_SEGMENT_SIZE {
        return None;
    }
    let split = messages.len() - KEEP_RECENT;
    let to_collapse = &messages[0..split];
    proof {
        lemma_tool_uses_prefix(messages@, split as int);
        assert(to_collapse@ =~= messages@.take(split as int));
    }
    let summary = build_collapse_summary(to_collapse);
    let first_id = messages[0].id.clone();
    let last_id = messages[split - 1].id.clone();
    let id = cat(cat3("collapsed-", first_id.as_str(), "-").as_str(), last_id.as_str());
    proof {
        reveal_strlit("-");
    }
    let mut content: Vec<ContentBlock> = Vec::new();
    content.push(ContentBlock::Collapsed {
        folded_count: #[verifier::truncate] (split as u32),
        first_message_id: first_id,
        last_message_id: last_id,
        summary,
    });
    let placeholder = Message { id, role: Role::System, content };
    let kept = copy_messages_range(messages, split, messages.len());
    let mut result: Vec<Message> = Vec::new();
    result.push(placeholder);
    let mut kept_mut = kept;
    result.append(&mut kept_mut);
    proof {
        assert(result@.skip(1) =~= kept@);
        assert(msgs_view(result@.skip(1)) == msgs_view(messages@.subrange(split as int, messages@.len() as int)));
        assert(result@[0] == placeholder);
        assert(msgs_view(kept@).len() == kept@.len());
        assert(kept@.len() == KEEP_RECENT);
        assert(result@.len() == KEEP_RECENT + 1);
        assert(messages@.subrange(split as int, messages@.len() as int) =~= messages@.skip(split as int));
        assert(placeholder_id(messages@[0].id@, messages@[split - 1].id@) =~= result@[0].id@);
    }
    Some(CollapseResult { messages: result, collapsed_count: split })
}

// ---------------------------------------------------------------------------
// Laws
// ---------------------------------------------------------------------------

/// A collapse shrinks the history, keeps the recent tail verbatim, and its
/// placeholder covers exactly the folded messages.
pub proof fn lemma_collapse_shrinks_and_keeps_tail(r: CollapseResult, ms: Seq<Message>)
    requires
        ms.len() > KEEP_RECENT + MIN_SEGMENT_SIZE,
        is_collapse_of(r, ms),
    ensures
        r.messages@.len() < ms.len(),
        r.collapsed_count + KEEP_RECENT == ms.len(),
        forall|i: int| 0 <= i < KEEP_RECENT ==> #[trigger] r.messages@[i + 1]@ == ms[ms.len() - KEEP_RECENT + i]@,
{
    let split = ms.len() - KEEP_RECENT;
    assert forall|i: int| 0 <= i < KEEP_RECENT implies #[trigger] r.messages@[i + 1]@ == ms[ms.len() - KEEP_RECENT + i]@ by {
        assert(msgs_view(r.messages@.skip(1))[i] == msgs_view(ms.skip(split))[i]);
    }
}

}
