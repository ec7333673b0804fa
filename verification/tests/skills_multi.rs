use hahi_agent::common::message::{ContentBlock, Message, Role, TokenUsage};
use hahi_agent::kernel::turn::{LoopEvent, QueryChain, RunMode, TurnResult, TurnStopReason};
use hahi_agent::multi::fork::{build_fork_messages, FORK_PLACEHOLDER};
use hahi_agent::multi::isolation::{build_sub_agent_config, resolve_tool_registry};
use hahi_agent::multi::spawn::{
    child_messages, extract_final_text, preview_fits, spawn_finished, spawn_rejected, spawn_start_event,
    sub_agent_status, truncate_preview,
};
use hahi_agent::multi::AgentDef;
use hahi_agent::skill::discovery::{
    discover_skills, fits_score, format_recommendations, score_skill_relevance, try_discover_skills, SkillRecommendation,
};
use hahi_agent::skill::executor::{execute_skill, missing_fork_error, skill_prompt, SkillResult};
use hahi_agent::skill::{SkillDef, SkillMode};
use hahi_agent::tools::registry::{ToolRegistry, ToolSpec};

fn test_skills() -> Vec<SkillDef> {
    vec![
        SkillDef::new(
            "commit",
            "Create a git commit",
            "When the user wants to commit changes to git",
            SkillMode::Inline,
            "skills/commit.md",
        ),
        SkillDef::new(
            "report",
            "Generate a report",
            "When the user asks for analytics or data reports",
            SkillMode::Forked,
            "skills/report.md",
        ),
    ]
}

#[test]
fn test_discover_direct_name_match() {
    let skills = test_skills();
    let results = discover_skills("please commit my changes", &skills, 5);
    assert_eq!(results.len(), 1);
    assert_eq!(results[0].skill_name, "commit");
}

#[test]
fn test_discover_keyword_match() {
    let skills = test_skills();
    let results = discover_skills("I need some analytics on our sales data", &skills, 5);
    assert_eq!(results.len(), 1);
    assert_eq!(results[0].skill_name, "report");
}

#[test]
fn test_discover_no_match() {
    let skills = test_skills();
    let results = discover_skills("what is the weather today", &skills, 5);
    assert!(results.is_empty());
}

#[test]
fn discovery_ranks_and_truncates() {
    let skills = test_skills();
    // "commit" by name (10) + "commit", "changes" (2 each) versus "data" (2).
    let results = discover_skills("commit the changes to the data", &skills, 5);
    assert_eq!(results.iter().map(|r| r.skill_name.as_str()).collect::<Vec<_>>(), vec!["commit", "report"]);
    assert_eq!(results[0].reason, "When the user wants to commit changes to git");
    let one = discover_skills("commit the changes to the data", &skills, 1);
    assert_eq!(one.len(), 1);
    assert_eq!(score_skill_relevance(&skills[0], "commit the changes to the data"), 14);
    assert_eq!(score_skill_relevance(&skills[1], "commit the changes to the data"), 2);
}

#[test]
fn test_format_recommendations() {
    let recs = vec![SkillRecommendation { skill_name: "commit".into(), reason: "Commit changes".into() }];
    let result = format_recommendations(&recs).unwrap();
    assert!(result.contains("<system-reminder>"));
    assert!(result.contains("- commit: Commit changes"));
    assert!(format_recommendations(&[]).is_none());
}

fn test_skill(mode: SkillMode) -> SkillDef {
    SkillDef::new("test-skill", "A test skill", "", mode, "test-skill-prompt.md")
}

#[test]
fn executor_test_inline_execution_wraps_in_system_reminder() {
    let skill = test_skill(SkillMode::Inline);
    let result = execute_skill(&skill, "Do the thing step by step.", None);
    match result {
        SkillResult::Inline { messages } => {
            assert_eq!(messages.len(), 1);
            match &messages[0].content[0] {
                ContentBlock::Text { text } => {
                    assert!(text.contains("<system-reminder>"));
                    assert!(text.contains("Do the thing step by step."));
                }
                _ => panic!("expected text content"),
            }
        }
        _ => panic!("expected inline result"),
    }
}

#[test]
fn executor_test_inline_with_args() {
    let skill = test_skill(SkillMode::Inline);
    let result = execute_skill(&skill, "Do the thing step by step.", Some("-m 'fix bug'"));
    match result {
        SkillResult::Inline { messages } => match &messages[0].content[0] {
            ContentBlock::Text { text } => {
                assert!(text.contains("Arguments: -m 'fix bug'"));
            }
            _ => panic!("expected text content"),
        },
        _ => panic!("expected inline result"),
    }
}

#[test]
fn executor_test_forked_execution() {
    let skill = test_skill(SkillMode::Forked);
    let result = execute_skill(&skill, "Do the thing step by step.", None);
    assert!(matches!(result, SkillResult::Forked { .. }));
}

#[test]
fn test_forked_execution_requires_executor() {
    assert!(missing_fork_error("test-skill").contains("requires a fork executor"));
    assert_eq!(skill_prompt("P", Some("x")), "P\n\nArguments: x");
}

#[test]
fn test_fork_messages_preserve_parent_history() {
    let parent_messages = vec![
        Message::user("1", "hello"),
        Message::assistant("2", vec![ContentBlock::Text { text: "I'll help.".into() }]),
    ];
    let fork = build_fork_messages(&parent_messages, "Search for X");
    assert_eq!(fork.len(), 3);
    assert!(matches!(&fork.last().unwrap().content[0], ContentBlock::Text { text } if text == "Search for X"));
}

#[test]
fn test_fork_messages_add_placeholder_results() {
    let parent_messages = vec![
        Message::user("1", "do two things"),
        Message::assistant(
            "2",
            vec![
                ContentBlock::Text { text: "I'll spawn two agents.".into() },
                ContentBlock::ToolUse { id: "t1".into(), name: "Agent".into(), input: "{\"type\":\"explorer\"}".into() },
                ContentBlock::ToolUse { id: "t2".into(), name: "Agent".into(), input: "{\"type\":\"planner\"}".into() },
            ],
        ),
    ];
    let fork = build_fork_messages(&parent_messages, "Search for X");
    assert_eq!(fork.len(), 4);
    let results_msg = &fork[2];
    assert_eq!(results_msg.content.len(), 2);
    for block in &results_msg.content {
        match block {
            ContentBlock::ToolResult { content, .. } => assert_eq!(content, FORK_PLACEHOLDER),
            _ => panic!("expected tool result"),
        }
    }
    assert!(matches!(&results_msg.content[1], ContentBlock::ToolResult { tool_use_id, .. } if tool_use_id == "t2"));
}

#[test]
fn test_fork_messages_identical_prefix() {
    let parent_messages = vec![
        Message::user("1", "plan and research"),
        Message::assistant("2", vec![ContentBlock::ToolUse { id: "t1".into(), name: "Agent".into(), input: "{}".into() }]),
    ];
    let fork_a = build_fork_messages(&parent_messages, "Research X");
    let fork_b = build_fork_messages(&parent_messages, "Plan Y");
    let prefix_a = &fork_a[..fork_a.len() - 1];
    let prefix_b = &fork_b[..fork_b.len() - 1];
    assert_eq!(prefix_a.len(), prefix_b.len());
}

#[test]
fn test_truncate_preview_short() {
    assert_eq!(truncate_preview("hello", 100), "hello");
}

#[test]
fn test_truncate_preview_long() {
    let long = "x".repeat(200);
    let preview = truncate_preview(&long, 50);
    assert!(preview.len() <= 50);
    assert!(preview.ends_with("..."));
    assert_eq!(preview, format!("{}...", "x".repeat(47)));
}

#[test]
fn a_preview_is_cut_only_between_characters() {
    // Byte 5 falls inside the second 'é' (bytes 4..6): that prompt cannot be cut there.
    assert!(!preview_fits("ab\u{e9}\u{e9}cdefgh", 8));
    assert!(preview_fits("ab\u{e9}cdefgh", 8));
    assert_eq!(truncate_preview("ab\u{e9}cdefgh", 8), "ab\u{e9}c...");
    assert!(preview_fits("short", 8));
}

fn spec(name: &str, defer: bool) -> ToolSpec {
    ToolSpec { name: name.into(), description: String::new(), input_schema: "{}".into(), should_defer: defer, search_hint: None }
}

fn agent(tools: Vec<&str>, disallowed: Vec<&str>, model: &str) -> AgentDef {
    AgentDef {
        name: "explorer".into(),
        description: "d".into(),
        model: model.into(),
        max_turns: 7,
        tools: tools.into_iter().map(String::from).collect(),
        disallowed_tools: disallowed.into_iter().map(String::from).collect(),
    }
}

#[test]
fn sub_agent_tools_follow_allow_and_deny_lists() {
    let parent = ToolRegistry::new(vec![spec("Bash", false), spec("WebSearch", true), spec("WebFetch", false)]);
    assert!(resolve_tool_registry(&parent, &agent(vec!["*"], vec![], "inherit")).is_none());
    let no_bash = resolve_tool_registry(&parent, &agent(vec!["*"], vec!["bash"], "inherit")).unwrap();
    let names: Vec<String> = no_bash.all_tools().into_iter().map(|t| t.name).collect();
    assert_eq!(names, vec!["WebFetch".to_string(), "WebSearch".to_string()]);
    let only = resolve_tool_registry(&parent, &agent(vec!["websearch"], vec![], "inherit")).unwrap();
    assert_eq!(only.len(), 1);
    assert!(only.get("WebSearch").is_some());
}

#[test]
fn sub_agents_are_one_level_deeper_until_the_limit() {
    let parent = ToolRegistry::new(vec![]);
    let chain = QueryChain { chain_id: "c".into(), depth: 1, max_depth: 2 };
    let cfg = build_sub_agent_config(&chain, "parent-model", &parent, &agent(vec!["*"], vec![], "inherit")).unwrap();
    assert_eq!(cfg.chain.depth, 2);
    assert_eq!(cfg.chain.chain_id, "c");
    assert_eq!(cfg.model, "parent-model");
    assert_eq!(cfg.max_iterations, 7);
    assert_eq!(cfg.run_mode, RunMode::Execute);
    let own = build_sub_agent_config(&chain, "parent-model", &parent, &agent(vec!["*"], vec![], "small")).unwrap();
    assert_eq!(own.model, "small");
    let deepest = QueryChain { chain_id: "c".into(), depth: 2, max_depth: 2 };
    assert!(build_sub_agent_config(&deepest, "m", &parent, &AgentDef::general()).is_none());
}

#[test]
fn spawn_reports_start_rejection_and_result() {
    match spawn_start_event("task-1", "general", "find the bug") {
        LoopEvent::ToolStart { id, name, input_preview } => {
            assert_eq!(id, "task-1");
            assert_eq!(name, "Agent(general)");
            assert_eq!(input_preview, "find the bug");
        }
        _ => panic!("expected a tool start"),
    }
    let (msg, _event) = spawn_rejected("task-1", "general", 5);
    assert_eq!(msg, "Cannot spawn sub-agent 'general': max nesting depth (5) exceeded");
    let result = TurnResult {
        messages: vec![
            Message::user("1", "q"),
            Message::assistant("2", vec![ContentBlock::Text { text: "an".into() }, ContentBlock::Text { text: "swer".into() }]),
            Message::user("3", "thanks"),
        ],
        stop_reason: TurnStopReason::Completed,
        usage: TokenUsage { input_tokens: 10, output_tokens: 5 },
        iterations: 2,
    };
    assert_eq!(extract_final_text(&result), "answer");
    assert_eq!(sub_agent_status(&TurnStopReason::Cancelled), "stopped");
    assert_eq!(sub_agent_status(&TurnStopReason::MaxIterations), "failed");
    let (output, event) = spawn_finished("task-1", "general", &result, 42);
    assert_eq!(output, "answer");
    match event {
        LoopEvent::ToolResult { content, is_error, .. } => {
            assert!(!is_error);
            assert!(content.contains("<status>completed</status>"));
            assert!(content.contains("total_tokens: 15"));
        }
        _ => panic!("expected a tool result"),
    }
}

#[test]
fn child_starts_from_prompt_or_fork() {
    let alone = child_messages(&[], "do it");
    assert_eq!(alone.len(), 1);
    assert_eq!(alone[0].role, Role::User);
    let parent = vec![Message::user("1", "hi")];
    assert_eq!(child_messages(&parent, "do it").len(), 2);
}

#[test]
fn sibling_forks_differ_only_in_their_directive() {
    let parent_messages = vec![
        Message::user("1", "plan and research"),
        Message::assistant(
            "2",
            vec![
                ContentBlock::ToolUse { id: "t1".into(), name: "Agent".into(), input: "{}".into() },
                ContentBlock::ToolUse { id: "t2".into(), name: "Agent".into(), input: "{}".into() },
            ],
        ),
    ];
    let fork_a = build_fork_messages(&parent_messages, "Research X");
    let fork_b = build_fork_messages(&parent_messages, "Plan Y");
    assert_eq!(fork_a.len(), fork_b.len());
    for i in 0..fork_a.len() - 1 {
        assert_eq!(fork_a[i].role, fork_b[i].role);
        assert_eq!(fork_a[i].content, fork_b[i].content);
    }
    assert_eq!(fork_a.last().unwrap().content, vec![ContentBlock::Text { text: "Research X".into() }]);
    assert_eq!(fork_b.last().unwrap().content, vec![ContentBlock::Text { text: "Plan Y".into() }]);
}

#[test]
fn checked_discovery_matches_discovery() {
    let skills = test_skills();
    assert!(skills.iter().all(fits_score));
    let checked = try_discover_skills("commit the changes to the data", &skills, 5).unwrap();
    let plain = discover_skills("commit the changes to the data", &skills, 5);
    let names = |v: &[SkillRecommendation]| v.iter().map(|r| r.skill_name.clone()).collect::<Vec<_>>();
    assert_eq!(names(&checked), names(&plain));
    assert_eq!(names(&checked), vec!["commit".to_string(), "report".to_string()]);
}
