use hahi_agent::prompt::builder::{build_system_prompt, build_system_prompt_with_cache, PromptConfig};
use hahi_agent::prompt::cache::PromptCache;
use hahi_agent::prompt::cache_boundary::{join_sections, PromptSection, CACHE_BOUNDARY};
use hahi_agent::prompt::instructions::{format_project_instructions, format_user_instructions};
use hahi_agent::prompt::rules::{
    evaluate_rules, format_conditional_rules, format_unconditional_rules, partition_rules, should_activate, Rule,
    RuleCondition,
};
use hahi_agent::skill::{format_skill_listing, SkillDef, SkillMode};
use hahi_agent::tools::registry::{ToolRegistry, ToolSpec};

fn empty_config<'a>(tool_registry: &'a ToolRegistry) -> PromptConfig<'a> {
    PromptConfig {
        tool_registry,
        skills: &[],
        memory_index: None,
        user_instructions: "",
        project_instructions: "",
        rules: &[],
        context_window_tokens: 200_000,
        model_name: "test-model",
    }
}

#[test]
fn test_build_system_prompt_has_boundary() {
    let registry = ToolRegistry::new(vec![]);
    let config = empty_config(&registry);
    let sections = build_system_prompt(&config);
    let has_boundary = sections.iter().any(|s| s.content.as_deref() == Some(CACHE_BOUNDARY));
    assert!(has_boundary, "prompt must contain cache boundary");
}

#[test]
fn test_build_system_prompt_has_persona() {
    let registry = ToolRegistry::new(vec![]);
    let config = empty_config(&registry);
    let sections = build_system_prompt(&config);
    let persona = sections.iter().find(|s| s.label == "persona");
    assert!(persona.is_some());
    assert!(persona.unwrap().content.as_ref().unwrap().contains("test-model"));
}

#[test]
fn test_empty_instructions_produce_none() {
    let registry = ToolRegistry::new(vec![]);
    let config = empty_config(&registry);
    let sections = build_system_prompt(&config);
    let user_instr = sections.iter().find(|s| s.label == "user_instructions");
    assert!(user_instr.unwrap().content.is_none());
}

fn tool(name: &str, defer: bool) -> ToolSpec {
    ToolSpec {
        name: name.to_string(),
        description: format!("{name} description"),
        input_schema: "{\"type\":\"object\"}".to_string(),
        should_defer: defer,
        search_hint: None,
    }
}

#[test]
fn prompt_sections_come_in_order_with_tools_and_rules() {
    let registry = ToolRegistry::new(vec![tool("WebSearch", false), tool("SendEmail", true)]);
    let rules = vec![
        Rule { name: "a".into(), content: "Be polite.".into(), condition: None },
        Rule {
            name: "b".into(),
            content: "Mention PCI.".into(),
            condition: Some(RuleCondition::TopicMatch { keywords: vec!["payment".into()] }),
        },
    ];
    let config = PromptConfig {
        tool_registry: &registry,
        skills: &[],
        memory_index: Some("## Memory index"),
        user_instructions: "  Answer in French.  ",
        project_instructions: "",
        rules: &rules,
        context_window_tokens: 200_000,
        model_name: "m",
    };
    let sections = build_system_prompt(&config);
    let labels: Vec<&str> = sections.iter().map(|s| s.label).collect();
    assert_eq!(
        labels,
        vec![
            "persona", "tool_usage", "tool_schemas", "deferred_tools", "skill_listing", "memory_instructions",
            "output_efficiency", "cache_boundary", "user_instructions", "project_instructions", "memory_index",
            "rules", "context",
        ]
    );
    let schemas = sections[2].content.as_ref().unwrap();
    assert!(schemas.starts_with("# Available Tools\n\n## WebSearch\nWebSearch description\n\nInput: {\n  \"type\": \"object\"\n}"));
    assert!(!schemas.contains("SendEmail"));
    assert_eq!(
        sections[3].content.as_deref(),
        Some("The following tools are available via ToolSearch. Use ToolSearch to fetch their full schema before invoking:\nSendEmail")
    );
    assert!(sections[4].content.is_none());
    assert_eq!(
        sections[8].content.as_deref(),
        Some("# User Instructions\nThe user has configured the following instructions. Follow them:\n\nAnswer in French.")
    );
    assert!(sections[9].content.is_none());
    assert_eq!(sections[10].content.as_deref(), Some("## Memory index"));
    assert_eq!(sections[11].content.as_deref(), Some("# Rules\n\nBe polite."));
    assert!(sections[12].content.as_ref().unwrap().starts_with("Current date: "));
    let joined = join_sections(&sections);
    assert!(!joined.contains(CACHE_BOUNDARY));
}

#[test]
fn no_tools_are_announced_as_such() {
    let registry = ToolRegistry::new(vec![]);
    let sections = build_system_prompt(&empty_config(&registry));
    assert_eq!(sections[2].content.as_deref(), Some("No tools available."));
    assert!(sections[3].content.is_none());
}

#[test]
fn cached_prompt_reuses_static_sections() {
    let registry = ToolRegistry::new(vec![]);
    let mut cache = PromptCache::new();
    let first = build_system_prompt_with_cache(&empty_config(&registry), &mut cache);
    // Every static section but the absent ones (deferred tools, skill listing) is memoized.
    assert_eq!(cache.len(), 6);
    let other = PromptConfig { model_name: "other-model", ..empty_config(&registry) };
    let second = build_system_prompt_with_cache(&other, &mut cache);
    assert_eq!(first[0].content, second[0].content);
    assert!(second[0].content.as_ref().unwrap().contains("test-model"));
    cache.invalidate("persona");
    let third = build_system_prompt_with_cache(&other, &mut cache);
    assert!(third[0].content.as_ref().unwrap().contains("other-model"));
}

#[test]
fn cold_cache_builds_the_plain_prompt() {
    let registry = ToolRegistry::new(vec![tool("Read", false), tool("Archive", true)]);
    let rules = vec![Rule { name: "style".to_string(), content: "Be brief.".to_string(), condition: None }];
    let config = PromptConfig {
        user_instructions: "Use metric units.",
        memory_index: Some("- likes tea"),
        rules: &rules,
        ..empty_config(&registry)
    };
    let mut cache = PromptCache::new();
    let cached = build_system_prompt_with_cache(&config, &mut cache);
    let plain = build_system_prompt(&config);
    assert_eq!(cached.len(), plain.len());
    for (a, b) in cached.iter().zip(plain.iter()) {
        assert_eq!(a.label, b.label);
        if a.label != "context" {
            assert_eq!(a.content, b.content);
        } else {
            assert!(a.content.as_ref().unwrap().starts_with("Current date: "));
            assert!(b.content.as_ref().unwrap().starts_with("Current date: "));
        }
    }
    // Every static section present in the prompt is memoized, and nothing else.
    assert_eq!(cache.len(), 7);
}

#[test]
fn test_cache_miss_then_hit() {
    let mut cache = PromptCache::new();
    let mut calls = 0;
    let v1 = cache.get_or_insert("persona", || {
        calls += 1;
        Some("You are an AI.".into())
    });
    assert_eq!(v1.as_deref(), Some("You are an AI."));
    assert_eq!(calls, 1);
    let v2 = cache.get_or_insert("persona", || {
        calls += 1;
        Some("SHOULD NOT SEE THIS".into())
    });
    assert_eq!(v2.as_deref(), Some("You are an AI."));
    assert_eq!(calls, 1);
}

#[test]
fn test_none_not_cached() {
    let mut cache = PromptCache::new();
    let v1 = cache.get_or_insert("empty", || None);
    assert!(v1.is_none());
    let v2 = cache.get_or_insert("empty", || Some("now present".into()));
    assert_eq!(v2.as_deref(), Some("now present"));
}

#[test]
fn test_clear() {
    let mut cache = PromptCache::new();
    cache.get_or_insert("a", || Some("value".into()));
    assert_eq!(cache.len(), 1);
    cache.clear();
    assert!(cache.is_empty());
}

#[test]
fn test_invalidate_specific() {
    let mut cache = PromptCache::new();
    cache.get_or_insert("a", || Some("1".into()));
    cache.get_or_insert("b", || Some("2".into()));
    cache.invalidate("a");
    assert_eq!(cache.len(), 1);
    cache.invalidate("missing");
    assert_eq!(cache.len(), 1);
}

#[test]
fn test_join_sections_skips_boundary() {
    let sections = vec![
        PromptSection { label: "a", content: Some("Part A".into()) },
        PromptSection { label: "b", content: Some(CACHE_BOUNDARY.into()) },
        PromptSection { label: "c", content: Some("Part C".into()) },
        PromptSection { label: "d", content: None },
    ];
    let result = join_sections(&sections);
    assert_eq!(result, "Part A\n\nPart C");
}

#[test]
fn test_user_instructions_empty() {
    assert!(format_user_instructions("").is_none());
    assert!(format_user_instructions("   ").is_none());
}

#[test]
fn test_user_instructions_formatted() {
    let result = format_user_instructions("Always respond in Chinese.").unwrap();
    assert!(result.contains("# User Instructions"));
    assert!(result.contains("Always respond in Chinese."));
}

#[test]
fn test_project_instructions_formatted() {
    let result = format_project_instructions("Use PostgreSQL, not MySQL.").unwrap();
    assert!(result.contains("# Project Instructions"));
    assert!(result.contains("Use PostgreSQL, not MySQL."));
    assert_eq!(
        result,
        "# Project Instructions\nThe following project-specific instructions apply:\n\nUse PostgreSQL, not MySQL."
    );
}

#[test]
fn test_unconditional_always_active() {
    let rules = vec![Rule { name: "always".into(), content: "Be polite.".into(), condition: None }];
    let result = evaluate_rules(&rules, &[], "anything");
    assert_eq!(result.len(), 1);
}

#[test]
fn test_tool_match_activates() {
    let rules = vec![Rule {
        name: "db-safety".into(),
        content: "Always add LIMIT.".into(),
        condition: Some(RuleCondition::ToolMatch { tool_names: vec!["DbQuery".into()] }),
    }];
    let active = evaluate_rules(&rules, &["DbQuery"], "");
    assert_eq!(active.len(), 1);
    let inactive = evaluate_rules(&rules, &["WebSearch"], "");
    assert!(inactive.is_empty());
    assert!(should_activate(&rules[0], &["dbquery"], ""));
}

#[test]
fn test_topic_match_activates() {
    let rules = vec![Rule {
        name: "pci".into(),
        content: "Mention PCI compliance.".into(),
        condition: Some(RuleCondition::TopicMatch { keywords: vec!["payment".into(), "credit card".into()] }),
    }];
    let active = evaluate_rules(&rules, &[], "process a payment");
    assert_eq!(active.len(), 1);
    let inactive = evaluate_rules(&rules, &[], "refactor the auth module");
    assert!(inactive.is_empty());
    assert_eq!(evaluate_rules(&rules, &[], "My CREDIT CARD was declined"), vec!["Mention PCI compliance.".to_string()]);
}

#[test]
fn test_partition_rules() {
    let rules = vec![
        Rule { name: "a".into(), content: "a".into(), condition: None },
        Rule {
            name: "b".into(),
            content: "b".into(),
            condition: Some(RuleCondition::TopicMatch { keywords: vec!["x".into()] }),
        },
    ];
    let (u, c) = partition_rules(&rules);
    assert_eq!(u.len(), 1);
    assert_eq!(c.len(), 1);
    assert_eq!(format_unconditional_rules(&u).as_deref(), Some("# Rules\n\na"));
    assert!(format_unconditional_rules(&[]).is_none());
}

#[test]
fn conditional_rules_are_a_reminder() {
    assert!(format_conditional_rules(&[]).is_none());
    assert_eq!(
        format_conditional_rules(&["A".to_string(), "B".to_string()]).unwrap(),
        "<system-reminder>\nActive rules for this turn:\n\nA\n\nB\n</system-reminder>"
    );
}

#[test]
fn skill_listing_lists_each_skill() {
    assert!(format_skill_listing(&[], Some(200_000)).is_none());
    let skills = vec![SkillDef::new("commit", "Create a git commit", "", SkillMode::Inline, "commit.md")];
    assert_eq!(
        format_skill_listing(&skills, Some(200_000)).unwrap(),
        "# Skills\nInvoke a skill with /<name>:\n- /commit: Create a git commit"
    );
}
