use hahi_agent::tools::builtin::{MemoryForgetTool, WebFetchTool};
use hahi_agent::tools::registry::{score_tool, ToolDefinition, ToolRegistry, ToolSpec};

fn fake(name: &str, description: &str, defer: bool, hint: Option<&str>) -> ToolSpec {
    ToolSpec {
        name: name.to_string(),
        description: description.to_string(),
        input_schema: "{\"type\":\"object\"}".to_string(),
        should_defer: defer,
        search_hint: hint.map(|h| h.to_string()),
    }
}

fn test_registry() -> ToolRegistry {
    ToolRegistry::new(vec![
        fake("WebSearch", "Search the web", false, Some("google search")),
        fake("SendEmail", "Send an email", true, Some("mail smtp")),
        fake("DbQuery", "Query the database", false, None),
        fake("SlackNotify", "Send slack notification", true, Some("slack message")),
    ])
}

#[test]
fn test_partitioning() {
    let reg = test_registry();
    assert_eq!(reg.api_tool_definitions().len(), 2);
    assert_eq!(reg.deferred_tool_names().len(), 2);
}

#[test]
fn test_get_by_name() {
    let reg = test_registry();
    assert!(reg.get("WebSearch").is_some());
    assert!(reg.get("SendEmail").is_some());
    assert!(reg.get("NonExistent").is_none());
}

#[test]
fn test_search_select_mode() {
    let reg = test_registry();
    let results = reg.search("select:SendEmail,SlackNotify", 10);
    assert_eq!(results.len(), 2);
}

#[test]
fn test_search_keyword_mode() {
    let reg = test_registry();
    let results = reg.search("slack message", 10);
    assert_eq!(results.len(), 1);
    assert_eq!(results[0].name, "SlackNotify");
}

#[test]
fn test_search_prefix_mode() {
    let reg = test_registry();
    let results = reg.search("+slack notify", 10);
    assert_eq!(results.len(), 1);
    assert_eq!(results[0].name, "SlackNotify");
}

#[test]
fn search_ranks_best_first_and_respects_the_limit() {
    let reg = test_registry();
    // SendEmail: "send" in name and description (7); SlackNotify: "send" in description (2) and
    // "slack" in name, hint and description (11).
    let results = reg.search("send slack", 10);
    let names: Vec<&str> = results.iter().map(|d| d.name.as_str()).collect();
    assert_eq!(names, vec!["SlackNotify", "SendEmail"]);
    assert_eq!(reg.search("send slack", 1).len(), 1);
    // Equal scores (7 each: "n" in name and description) keep registration order.
    let tied = reg.search("n", 10);
    assert_eq!(tied.iter().map(|d| d.name.as_str()).collect::<Vec<_>>(), vec!["SendEmail", "SlackNotify"]);
    // Resident tools are never search results.
    assert!(reg.search("websearch", 10).is_empty());
}

#[test]
fn select_mode_ignores_case_spaces_and_unknown_names() {
    let reg = test_registry();
    let results = reg.search("select: slacknotify , Nope", 10);
    assert_eq!(results.len(), 1);
    assert_eq!(results[0].name, "SlackNotify");
}

#[test]
fn exact_name_scores_highest() {
    let t = fake("SlackNotify", "Send slack notification", true, Some("slack message"));
    assert_eq!(score_tool(&t, &["slacknotify".to_string()]), 10);
    assert_eq!(score_tool(&t, &["slack".to_string()]), 11);
    assert_eq!(score_tool(&t, &["zzz".to_string()]), 0);
}

#[test]
fn registry_len_counts_distinct_names() {
    let reg = ToolRegistry::new(vec![fake("A", "", false, None), fake("A", "", true, None), fake("B", "", false, None)]);
    assert_eq!(reg.len(), 2);
    assert_eq!(reg.all_tools().len(), 3);
}

#[test]
fn memory_forget_reads_its_request() {
    let tool = MemoryForgetTool::new();
    assert_eq!(tool.name(), "MemoryForget");
    assert!(!tool.should_defer());
    assert_eq!(
        tool.request("{\"id\":\"m-1\",\"reason\":\"stale\"}"),
        Ok(("m-1".to_string(), "agent_deleted: stale".to_string()))
    );
    assert_eq!(tool.request("{\"id\":\"m-1\"}"), Err("missing required string field 'reason'".to_string()));
    assert_eq!(tool.request("not json"), Err("missing required string field 'id'".to_string()));
    assert_eq!(tool.forgotten_message("m-1"), "memory m-1 forgotten");
    let schema: String = tool.input_schema();
    assert!(schema.contains("\"required\":[\"id\",\"reason\"]"));
}

#[test]
fn web_fetch_limits_and_formats() {
    let tool = WebFetchTool;
    assert_eq!(tool.max_chars("{\"url\":\"http://x\"}"), 20_000);
    assert_eq!(tool.max_chars("{\"url\":\"http://x\",\"max_chars\":5}"), 5);
    assert_eq!(tool.max_chars("{\"url\":\"http://x\",\"max_chars\":500000}"), 100_000);
    assert_eq!(tool.format_output("http://x", "text/plain", "hello", 10), "URL: http://x\nContent-Type: text/plain\n\nhello");
    assert_eq!(
        tool.format_output("http://x", "text/plain", "h\u{e9}llo", 2),
        "URL: http://x\nContent-Type: text/plain\n\nh\u{e9}\n\n[truncated \u{2014} showing 2 of 5 chars]"
    );
}

#[test]
fn test_tool_definition_construction() {
    let tool = ToolDefinition {
        name: "WebSearch".into(),
        description: "Search the web".into(),
        input_schema: "{\"type\":\"object\",\"properties\":{\"query\":{\"type\":\"string\"}},\"required\":[\"query\"]}"
            .into(),
    };
    assert_eq!(tool.name, "WebSearch");
}

#[test]
fn tool_search_is_always_resident() {
    let tool = |name: &str, defer: bool| ToolSpec {
        name: name.into(),
        description: String::new(),
        input_schema: "{}".into(),
        should_defer: defer,
        search_hint: None,
    };
    let registry = ToolRegistry::new(vec![tool("ToolSearch", true), tool("SendEmail", true), tool("WebFetch", false)]);
    let resident: Vec<String> = registry.api_tool_definitions().into_iter().map(|d| d.name).collect();
    assert_eq!(resident, vec!["ToolSearch".to_string(), "WebFetch".to_string()]);
    assert_eq!(registry.deferred_tool_names(), vec!["SendEmail".to_string()]);
    assert_eq!(registry.len(), 3);
}
