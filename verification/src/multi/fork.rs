//! Forked conversations: a sub-agent starts from its parent's history.
use vstd::prelude::*;
use crate::common::ids::new_id;
use crate::common::message::{ContentBlock, Message, MessageView, Role, copy_messages, is_text_message, msgs_view};
use crate::text::owned;

verus! {

/// The result given to each tool call still open in the parent.
pub const FORK_PLACEHOLDER: &'static str = "Fork started \u{2014} processing in background";

pub open spec fn placeholder_text() -> Seq<char> {
    "Fork started \u{2014} processing in background"@
}

/// Index of the last assistant message.
pub open spec fn last_assistant(ms: Seq<Message>) -> Option<int>
    decreases ms.len(),
{
    if ms.len() == 0 {
        None
    } else if ms.last().role == Role::Assistant {
        Some(ms.len() - 1)
    } else {
        last_assistant(ms.drop_last())
    }
}

proof fn lemma_last_assistant(ms: Seq<Message>)
    ensures
        last_assistant(ms) matches Some(i) ==> 0 <= i < ms.len() && ms[i].role == Role::Assistant,
    decreases ms.len(),
{
    if ms.len() > 0 {
        lemma_last_assistant(ms.drop_last());
    }
}

/// The ids of the tool calls of a content list, in order.
pub open spec fn tool_use_ids(bs: Seq<ContentBlock>) -> Seq<Seq<char>>
    decreases bs.len(),
{
    if bs.len() == 0 {
        Seq::empty()
    } else {
        let rest = tool_use_ids(bs.drop_last());
        match bs.last() {
            ContentBlock::ToolUse { id, .. } => rest.push(id@),
            _ => rest,
        }
    }
}

/// The tool calls the fork must close: those of the parent's last
/// assistant message.
pub open spec fn open_calls(ms: Seq<Message>) -> Seq<Seq<char>> {
    match last_assistant(ms) {
        Some(i) => tool_use_ids(ms[i].content@),
        None => Seq::empty(),
    }
}

/// `b` is a placeholder result for the call `id`.
pub open spec fn is_placeholder_for(b: ContentBlock, id: Seq<char>) -> bool {
    b matches ContentBlock::ToolResult { tool_use_id, content, is_error }
        && tool_use_id@ == id && content@ == placeholder_text() && !is_error
}

fn find_last_assistant(ms: &[Message]) -> (r: Option<usize>)
    ensures
        match r {
            Some(i) => last_assistant(ms@) == Some(i as int),
            None => last_assistant(ms@) is None,
        },
{
    let mut i: usize = ms.len();
    assert(ms@.take(i as int) =~= ms@);
    while i > 0
        invariant
            i <= ms@.len(),
            last_assistant(ms@) == last_assistant(ms@.take(i as int)),
        decreases i,
    {
        assert(ms@.take(i as int).drop_last() =~= ms@.take(i - 1));
        if ms[i - 1].role == Role::Assistant {
            return Some(i - 1);
        }
        i = i - 1;
    }
    None
}

/// `r` is a fork of `parent` for `directive`: the parent's history, one user
/// message with a placeholder result for each tool call of the parent's last
/// assistant message (when it made any), then the directive.
pub open spec fn fork_of(parent: Seq<Message>, directive: Seq<char>, r: Seq<Message>) -> bool {
    let n = parent.len() as int;
    let ids = open_calls(parent);
    let k: int = if ids.len() > 0 { 1 } else { 0 };
    &&& r.len() == n + k + 1
    &&& msgs_view(r.take(n)) == msgs_view(parent)
    &&& (ids.len() > 0 ==> {
        &&& r[n].role == Role::User
        &&& r[n].content@.len() == ids.len()
        &&& forall|j: int| 0 <= j < ids.len() ==> is_placeholder_for(#[trigger] r[n].content@[j], ids[j])
    })
    &&& is_text_message(r[n + k], r[n + k].id@, Role::User, directive)
}

/// Build the messages of a forked sub-agent: the parent's history, a
/// placeholder result for each tool call of the parent's last assistant
/// message (so the history stays well-formed), then the directive.
pub fn build_fork_messages(parent_messages: &[Message], child_directive: &str) -> (r: Vec<Message>)
    ensures
        fork_of(parent_messages@, child_directive@, r@),
{
    let mut messages = copy_messages(parent_messages);
    let ghost copied = messages@;
    assert(msgs_view(copied).len() == copied.len());
    match find_last_assistant(parent_messages) {
        Some(i) => {
            proof {
                lemma_last_assistant(parent_messages@);
            }
            let content = &parent_messages[i].content;
            let ghost ids_all = tool_use_ids(content@);
            let mut results: Vec<ContentBlock> = Vec::new();
            let mut j: usize = 0;
            while j < content.len()
                invariant
                    j <= content@.len(),
                    ids_all == tool_use_ids(content@),
                    results@.len() == tool_use_ids(content@.take(j as int)).len(),
                    forall|q: int| 0 <= q < results@.len()
                        ==> is_placeholder_for(#[trigger] results@[q], tool_use_ids(content@.take(j as int))[q]),
                decreases content@.len() - j,
            {
                assert(content@.take(j + 1).drop_last() =~= content@.take(j as int));
                if let ContentBlock::ToolUse { id, .. } = &content[j] {
                    results.push(ContentBlock::ToolResult {
                        tool_use_id: id.clone(),
                        content: owned(FORK_PLACEHOLDER),
                        is_error: false,
                    });
                }
                j = j + 1;
            }
            assert(content@.take(content@.len() as int) =~= content@);
            if results.len() > 0 {
                messages.push(Message::tool_results(new_id().as_str(), results));
            }
        },
        None => {},
    }
    let ghost mid = messages@;
    messages.push(Message::user(new_id().as_str(), child_directive));
    proof {
        assert(messages@.take(parent_messages@.len() as int) =~= copied);
    }
    messages
}


/// Two tool results with the same call id, text and error flag.
pub open spec fn same_result(a: ContentBlock, b: ContentBlock) -> bool {
    match (a, b) {
        (
            ContentBlock::ToolResult { tool_use_id: i1, content: c1, is_error: e1 },
            ContentBlock::ToolResult { tool_use_id: i2, content: c2, is_error: e2 },
        ) => i1@ == i2@ && c1@ == c2@ && e1 == e2,
        _ => false,
    }
}

/// Forks of one parent for different directives agree on everything before
/// their directives (the parent's messages, then the same placeholder
/// results), so all of them share one cached prompt prefix.
pub proof fn lemma_forks_share_prefix(parent: Seq<Message>, d1: Seq<char>, r1: Seq<Message>, d2: Seq<char>, r2: Seq<Message>)
    requires
        fork_of(parent, d1, r1),
        fork_of(parent, d2, r2),
    ensures
        r1.len() == r2.len(),
        msgs_view(r1.take(parent.len() as int)) == msgs_view(r2.take(parent.len() as int)),
        r1.len() == parent.len() + 2 ==> {
            let n = parent.len() as int;
            &&& r1[n].role == r2[n].role
            &&& r1[n].content@.len() == r2[n].content@.len()
            &&& forall|j: int| 0 <= j < r1[n].content@.len() ==> same_result(#[trigger] r1[n].content@[j], r2[n].content@[j])
        },
        is_text_message(r1.last(), r1.last().id@, Role::User, d1),
        is_text_message(r2.last(), r2.last().id@, Role::User, d2),
{
}

}
