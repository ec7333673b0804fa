use hahi_agent::adapters::mcp::{
    mcp_failure_message, mcp_tool_prompt, mcp_tool_spec, tool_call_output, McpContent, McpToolDef,
};
use hahi_agent::adapters::providers::ProviderKind;
use hahi_agent::adapters::sse::{extract_frame, split_frame, try_extract_frame};
use hahi_agent::config::{Config, ConfigError};

#[test]
fn parses_provider_kind_from_env_value() {
    assert_eq!("anthropic".parse::<ProviderKind>().unwrap(), ProviderKind::Anthropic);
    assert_eq!("OPENAI".parse::<ProviderKind>().unwrap(), ProviderKind::OpenAI);
}

#[test]
fn rejects_unknown_provider_kind() {
    let err = "other".parse::<ProviderKind>().unwrap_err();
    assert!(err.to_string().contains("unsupported LLM_PROVIDER"));
}

#[test]
fn provider_kind_trims_and_reports_normalized_name() {
    assert_eq!(ProviderKind::parse_kind("  Anthropic \n"), Ok(ProviderKind::Anthropic));
    assert_eq!(
        ProviderKind::parse_kind(" Gemini "),
        Err("unsupported LLM_PROVIDER 'gemini'; expected 'anthropic' or 'openai'".to_string())
    );
    assert_eq!(ProviderKind::Anthropic.api_key_var(), "ANTHROPIC_API_KEY");
    assert_eq!(ProviderKind::OpenAI.api_key_var(), "OPENAI_API_KEY");
}

#[test]
fn test_extract_frame_anthropic_style() {
    let mut buf = b"event: message_start\ndata: {\"x\":1}\n\nremaining".to_vec();
    let frame = extract_frame(&mut buf).unwrap();
    assert_eq!(frame.0, "message_start");
    assert_eq!(frame.1, "{\"x\":1}");
    assert_eq!(buf, b"remaining");
}

#[test]
fn test_extract_frame_openai_style() {
    let mut buf = b"data: {\"choices\":[]}\n\n".to_vec();
    let frame = extract_frame(&mut buf).unwrap();
    assert_eq!(frame.0, "");
    assert_eq!(frame.1, "{\"choices\":[]}");
}

#[test]
fn test_extract_frame_incomplete_returns_none() {
    let mut buf = b"event: x\ndata: {partial".to_vec();
    assert!(extract_frame(&mut buf).is_none());
    assert_eq!(buf, b"event: x\ndata: {partial");
}

#[test]
fn test_extract_frame_skips_empty_data() {
    let mut buf = b"event: ping\n\ndata: real\n\n".to_vec();
    let frame = extract_frame(&mut buf);
    assert!(frame.is_none());
    // The data-less frame was still consumed.
    assert_eq!(buf, b"data: real\n\n");
    let next = extract_frame(&mut buf).unwrap();
    assert_eq!(next.1, "real");
    assert!(buf.is_empty());
}

#[test]
fn extract_frame_strips_carriage_returns_and_keeps_last_fields() {
    let mut buf = b"event: a\r\nevent: b\r\ndata: one\r\ndata: two\r\n\r\n\n\ntail".to_vec();
    // The first blank line is "\r\n\r\n" which holds no "\n\n"; the frame ends at "\n\n".
    let frame = try_extract_frame(&mut buf).unwrap().unwrap();
    assert_eq!(frame.0, "b");
    assert_eq!(frame.1, "two");
    assert_eq!(buf, b"\ntail");
}

#[test]
fn try_extract_frame_refuses_lossy_offsets_past_the_end() {
    // Three invalid bytes decode to three replacement characters (9 bytes of text),
    // so the frame's end in the text lies past the buffer's end.
    let mut buf = vec![0xff, 0xff, 0xff, b'\n', b'\n'];
    assert!(try_extract_frame(&mut buf).is_none());
    assert_eq!(buf, vec![0xff, 0xff, 0xff, b'\n', b'\n']);
}

#[test]
fn mcp_tools_are_namespaced_and_deferred_unless_always_loaded() {
    let def = McpToolDef {
        name: "send".to_string(),
        description: "Send a message".to_string(),
        input_schema: "{}".to_string(),
    };
    let deferred = mcp_tool_spec("slack", &def, false);
    assert_eq!(deferred.name, "mcp__slack__send");
    assert!(deferred.should_defer);
    assert_eq!(deferred.search_hint.as_deref(), Some("slack"));
    let resident = mcp_tool_spec("slack", &def, true);
    assert!(!resident.should_defer);
    assert_eq!(mcp_tool_prompt("slack", "send messages"), "MCP tool from 'slack' server. Call this to send messages");
    assert_eq!(mcp_failure_message("send", "timeout"), "MCP tool 'send' failed: timeout");
}

fn config(db: &str, redis: &str) -> Config {
    Config {
        database_url: db.to_string(),
        redis_url: redis.to_string(),
        grpc_addr: "0.0.0.0:50060".to_string(),
        llm_provider: ProviderKind::Anthropic,
        skills_dir: "data/skills".to_string(),
        metrics_addr: "0.0.0.0:9090".to_string(),
        mcp_servers: Vec::new(),
    }
}

#[test]
fn config_validation_checks_database_then_redis() {
    assert!(config("postgres://h/db", "redis://h").validate().is_ok());
    assert!(config("postgresql://h/db", "rediss://h").validate().is_ok());
    assert_eq!(config("mysql://h/db", "redis://h").validate(), Err(ConfigError::DatabaseUrl));
    assert_eq!(config("mysql://h/db", "http://h").validate(), Err(ConfigError::DatabaseUrl));
    assert_eq!(config("postgres://h/db", "http://h").validate(), Err(ConfigError::RedisUrl));
    assert_eq!(ConfigError::RedisUrl.message(), "REDIS_URL must start with redis://");
}

#[test]
fn mcp_tool_output_joins_text_blocks() {
    let blocks = vec![
        McpContent::Text("first".into()),
        McpContent::Other,
        McpContent::Text("second".into()),
    ];
    assert_eq!(tool_call_output("t", &blocks, None), Ok("first\nsecond".to_string()));
    assert_eq!(tool_call_output("t", &blocks, Some(false)), Ok("first\nsecond".to_string()));
    assert_eq!(tool_call_output("t", &[], None), Ok(String::new()));
}

#[test]
fn mcp_tool_error_flag_gives_an_error() {
    let blocks = vec![McpContent::Text("boom".into())];
    assert_eq!(
        tool_call_output("deploy", &blocks, Some(true)),
        Err("MCP tool 'deploy' signalled an error: boom".to_string())
    );
}

#[test]
fn decoded_text_splits_into_frames() {
    assert_eq!(
        split_frame("event: a\ndata: {}\n\nrest"),
        Some((17, Some(("a".to_string(), "{}".to_string()))))
    );
    assert_eq!(split_frame("event: ping\n\n"), Some((11, None)));
    assert_eq!(split_frame("data: \u{e9}\n\n"), Some((8, Some((String::new(), "\u{e9}".to_string())))));
    assert_eq!(split_frame("data: x"), None);
}
