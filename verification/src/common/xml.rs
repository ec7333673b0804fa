//! Tags that mark system-provided context inside the conversation.
use vstd::prelude::*;
use crate::text::push_char;

verus! {

pub open spec fn spec_wrap(tag: Seq<char>, body: Seq<char>) -> Seq<char> {
    seq!['<'] + tag + seq!['>', '\n'] + body + seq!['\n', '<', '/'] + tag + seq!['>']
}

/// `<tag>\nbody\n</tag>`.
pub fn wrap(tag: &str, body: &str) -> (r: String)
    ensures
        r@ == spec_wrap(tag@, body@),
{
    let mut r = String::new();
    push_char(&mut r, '<');
    r.append(tag);
    push_char(&mut r, '>');
    push_char(&mut r, '\n');
    r.append(body);
    push_char(&mut r, '\n');
    push_char(&mut r, '<');
    push_char(&mut r, '/');
    r.append(tag);
    push_char(&mut r, '>');
    assert(r@ =~= spec_wrap(tag@, body@));
    r
}

/// Context that the system, not the user, adds to a turn.
pub fn system_reminder(content: &str) -> (r: String)
    ensures
        r@ == spec_wrap("system-reminder"@, content@),
{
    wrap("system-reminder", content)
}

/// User feedback on a submitted plan.
pub fn plan_feedback(feedback: &str) -> (r: String)
    ensures
        r@ == spec_wrap("plan-feedback"@, feedback@),
{
    wrap("plan-feedback", feedback)
}

/// A plan submitted for review.
pub fn plan(text: &str) -> (r: String)
    ensures
        r@ == spec_wrap("plan"@, text@),
{
    wrap("plan", text)
}

}
