use hahi_agent::common::message::{ContentBlock, Message};
use hahi_agent::kernel::collapse::{build_collapse_summary, collapse, KEEP_RECENT};
use hahi_agent::kernel::context::{ContextManager, ContextPressure, estimate_tokens};
use hahi_agent::kernel::hooks::{Hook, HookDecision, HookEvent, HookExt, HookRunner, ToolBlocklistHook};
use hahi_agent::kernel::plan_mode::{format_plan_feedback, plan_mode_entered_message, tools_for_mode};
use hahi_agent::kernel::turn::RunMode;
use hahi_agent::tools::registry::{ToolRegistry, ToolSpec};

fn make_messages(count: usize) -> Vec<Message> {
    (0..count)
        .map(|i| {
            if i % 2 == 0 {
                Message::user(&format!("m{i}"), &format!("message {i}"))
            } else {
                Message::assistant(&format!("m{i}"), vec![ContentBlock::Text { text: format!("reply {i}") }])
            }
        })
        .collect()
}

#[test]
fn test_collapse_too_few_messages() {
    let msgs = make_messages(12);
    assert!(collapse(&msgs).is_none());
}

#[test]
fn test_collapse_enough_messages() {
    let msgs = make_messages(30);
    let result = collapse(&msgs).unwrap();
    assert_eq!(result.messages.len(), KEEP_RECENT + 1);
    assert_eq!(result.collapsed_count, 20);
    assert!(matches!(&result.messages[0].content[0], ContentBlock::Collapsed { folded_count: 20, .. }));
}

#[test]
fn test_collapse_summary_format() {
    let msgs = make_messages(10);
    let summary = build_collapse_summary(&msgs);
    assert!(summary.contains("10 messages collapsed"));
    assert!(summary.contains("user"));
    assert!(summary.contains("assistant"));
}

#[test]
fn collapse_keeps_the_recent_tail_unchanged() {
    let msgs = make_messages(30);
    let result = collapse(&msgs).unwrap();
    for k in 0..KEEP_RECENT {
        assert_eq!(result.messages[k + 1], msgs[20 + k]);
    }
}

#[test]
fn test_normal_pressure() {
    let manager = ContextManager::with_limits(200_000, 140_000);
    let messages = vec![Message::user("1", "hello")];
    assert_eq!(manager.check_pressure(&messages), ContextPressure::Normal);
}

#[test]
fn test_compact_pressure() {
    let manager = ContextManager::with_limits(100, 70);
    let long_text = "x".repeat(300);
    let messages = vec![Message::user("1", &long_text)];
    assert_eq!(manager.check_pressure(&messages), ContextPressure::Compact);
}

#[test]
fn test_overflow_pressure() {
    let manager = ContextManager::with_limits(10, 7);
    let messages = vec![Message::user("1", &"x".repeat(100))];
    assert_eq!(manager.check_pressure(&messages), ContextPressure::Overflow);
}

#[test]
fn test_messages_for_api_with_boundary() {
    let manager = ContextManager::with_limits(200_000, 140_000);
    let messages = vec![
        Message::user("1", "old message"),
        Message::compact_boundary("2", "summary of prior conversation"),
        Message::user("3", "new message"),
    ];
    let api_messages = manager.messages_for_api(&messages);
    assert_eq!(api_messages.len(), 2);
}

#[test]
fn test_messages_for_api_without_boundary() {
    let manager = ContextManager::with_limits(200_000, 140_000);
    let messages = vec![Message::user("1", "first"), Message::user("2", "second")];
    let api_messages = manager.messages_for_api(&messages);
    assert_eq!(api_messages.len(), 2);
}

#[test]
fn token_estimate_is_bytes_over_four() {
    let messages = vec![Message::user("1", "abcdefgh"), Message::user("2", "\u{e9}\u{e9}")];
    // 8 bytes + 4 bytes = 12 bytes -> 3 tokens.
    assert_eq!(estimate_tokens(&messages), 3);
    let manager = ContextManager::with_limits(100, 50);
    assert_eq!(manager.remaining_before_compact(&messages), 47);
}

fn pre_tool(name: &str) -> HookEvent {
    HookEvent::PreToolUse { tool_name: name.to_string(), input: "{}".to_string() }
}

#[test]
fn test_empty_runner_always_allows() {
    let runner = HookRunner::empty();
    let event = HookEvent::PreComplete { assistant_text: "hello".into() };
    assert!(matches!(runner.run(&event), HookDecision::Allow));
}

#[test]
fn test_tool_blocklist_blocks() {
    let hook = ToolBlocklistHook::new(vec!["DeleteDatabase".into()]);
    let runner = HookRunner::new(vec![Box::new(hook)]);
    assert!(matches!(runner.run(&pre_tool("DeleteDatabase")), HookDecision::Block { .. }));
    assert!(matches!(runner.run(&pre_tool("WebSearch")), HookDecision::Allow));
}

#[test]
fn test_has_pre_complete_hooks_empty() {
    let runner = HookRunner::empty();
    assert!(!runner.has_pre_complete_hooks());
}

#[test]
fn test_and_hook_both_allow() {
    let hook = ToolBlocklistHook::new(vec!["rm".into()]).and(ToolBlocklistHook::new(vec!["sudo".into()]));
    assert!(matches!(hook.evaluate(&pre_tool("WebSearch")), HookDecision::Allow));
}

#[test]
fn test_and_hook_first_blocks() {
    let hook = ToolBlocklistHook::new(vec!["rm".into()]).and(ToolBlocklistHook::new(vec!["sudo".into()]));
    assert!(matches!(hook.evaluate(&pre_tool("rm")), HookDecision::Block { .. }));
}

#[test]
fn test_and_hook_second_blocks() {
    let hook = ToolBlocklistHook::new(vec!["rm".into()]).and(ToolBlocklistHook::new(vec!["sudo".into()]));
    assert!(matches!(hook.evaluate(&pre_tool("sudo")), HookDecision::Block { .. }));
}

#[test]
fn test_or_hook_first_allows() {
    let hook = ToolBlocklistHook::new(vec!["rm".into()]).or(ToolBlocklistHook::new(vec![]));
    assert!(matches!(hook.evaluate(&pre_tool("rm")), HookDecision::Allow));
}

#[test]
fn test_boxed_helper() {
    let hook: Box<dyn Hook> = ToolBlocklistHook::new(vec![]).boxed();
    assert!(matches!(hook.evaluate(&pre_tool("WebSearch")), HookDecision::Allow));
}

#[test]
fn blocklist_ignores_ascii_case_and_first_block_wins() {
    let runner = HookRunner::new(vec![
        ToolBlocklistHook::new(vec!["Bash".into()]).boxed(),
        ToolBlocklistHook::new(vec!["bash".into(), "Rm".into()]).boxed(),
    ]);
    match runner.run(&pre_tool("BASH")) {
        HookDecision::Block { reason } => assert!(reason.contains("BASH")),
        HookDecision::Allow => panic!("expected a block"),
    }
    assert!(matches!(runner.run(&pre_tool("rm")), HookDecision::Block { .. }));
}

#[test]
fn test_tools_for_execute_mode_returns_all() {
    let registry = ToolRegistry::new(vec![]);
    let tools = tools_for_mode(&registry, RunMode::Execute);
    assert!(tools.is_empty());
}

fn spec(name: &str) -> ToolSpec {
    ToolSpec {
        name: name.to_string(),
        description: format!("{name} tool"),
        input_schema: "{}".to_string(),
        should_defer: false,
        search_hint: None,
    }
}

#[test]
fn planning_mode_keeps_only_read_only_tools() {
    let registry = ToolRegistry::new(vec![spec("Bash"), spec("websearch"), spec("DbQuery"), spec("MemoryWrite")]);
    let all = tools_for_mode(&registry, RunMode::Execute);
    assert_eq!(all.len(), 4);
    let planning: Vec<String> = tools_for_mode(&registry, RunMode::Planning).into_iter().map(|d| d.name).collect();
    assert_eq!(planning, vec!["websearch".to_string(), "DbQuery".to_string()]);
}

#[test]
fn test_plan_mode_entered_message_not_empty() {
    assert!(!plan_mode_entered_message().is_empty());
}

#[test]
fn test_format_plan_feedback_wraps() {
    let result = format_plan_feedback("add error handling");
    assert!(result.contains("<plan-feedback>"));
    assert!(result.contains("add error handling"));
}
