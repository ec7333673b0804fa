//! Running a skill. Its prompt text is read by the runtime; what becomes of
//! it is decided here.
use vstd::prelude::*;
use crate::common::ids::new_id;
use crate::common::message::{Message, Role, is_text_message};
use crate::common::xml::{spec_wrap, system_reminder};
use crate::skill::{SkillDef, SkillMode};
use crate::text::{cat, cat3, owned};

verus! {

/// What running a skill produced.
#[derive(Clone, Debug)]
pub enum SkillResult {
    /// Messages to append to the conversation.
    Inline { messages: Vec<Message> },
    /// Output of a skill that ran on its own.
    Forked { output: String },
}

/// The skill prompt with its arguments appended.
pub open spec fn prompt_with_args(prompt: Seq<char>, args: Option<Seq<char>>) -> Seq<char> {
    match args {
        Some(a) => prompt + "\n\nArguments: "@ + a,
        None => prompt,
    }
}

pub open spec fn opt_str(o: Option<&str>) -> Option<Seq<char>> {
    match o {
        Some(s) => Some(s@),
        None => None,
    }
}

/// The prompt a skill runs with.
pub fn skill_prompt(prompt: &str, args: Option<&str>) -> (r: String)
    ensures
        r@ == prompt_with_args(prompt@, opt_str(args)),
{
    match args {
        Some(a) => cat3(prompt, "\n\nArguments: ", a),
        None => owned(prompt),
    }
}

/// An inline skill: its prompt joins the conversation as a system reminder
/// in one user message.
pub fn execute_inline(prompt: &str, args: Option<&str>) -> (r: SkillResult)
    ensures
        r matches SkillResult::Inline { messages } && messages@.len() == 1
            && is_text_message(messages@[0], messages@[0].id@, Role::User,
                spec_wrap("system-reminder"@, prompt_with_args(prompt@, opt_str(args)))),
{
    let p = skill_prompt(prompt, args);
    let reminder = system_reminder(p.as_str());
    let mut messages: Vec<Message> = Vec::new();
    messages.push(Message::user(new_id().as_str(), reminder.as_str()));
    SkillResult::Inline { messages }
}

/// The output reported for a forked skill while no sub-agent runs it.
pub open spec fn forked_placeholder(name: Seq<char>) -> Seq<char> {
    "Skill '"@ + name + "' executed (sub-agent pending implementation)"@
}

/// Run a skill whose prompt text was loaded: inline skills join the
/// conversation; forked skills report that they ran.
pub fn execute_skill(skill: &SkillDef, prompt: &str, args: Option<&str>) -> (r: SkillResult)
    ensures
        skill.mode == SkillMode::Inline ==> (r matches SkillResult::Inline { messages } && messages@.len() == 1
            && is_text_message(messages@[0], messages@[0].id@, Role::User,
                spec_wrap("system-reminder"@, prompt_with_args(prompt@, opt_str(args))))),
        skill.mode == SkillMode::Forked ==> (r matches SkillResult::Forked { output } && output@ == forked_placeholder(skill.name@)),
{
    match skill.mode {
        SkillMode::Inline => execute_inline(prompt, args),
        SkillMode::Forked => SkillResult::Forked {
            output: cat3("Skill '", skill.name.as_str(), "' executed (sub-agent pending implementation)"),
        },
    }
}

/// The error of a forked skill when no fork executor is available.
pub fn missing_fork_error(skill_name: &str) -> (r: String)
    ensures
        r@ == "forked skill '"@ + skill_name@ + "' requires a fork executor"@,
{
    cat3("forked skill '", skill_name, "' requires a fork executor")
}

}
