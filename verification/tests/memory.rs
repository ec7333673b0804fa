use hahi_agent::memory::inject::{format_index, format_memory_block, format_recalled, format_write_guidance};
use hahi_agent::memory::policy::{
    truncate_chars, validate, PolicyError, ARCHIVE_BODY_LIMIT, NAME_LIMIT, PINNED_BODY_LIMIT,
};
use hahi_agent::memory::write::{memory_insert, write_status, WriteStatus};
use hahi_agent::memory::{Memory, MemoryIndexEntry, NoOpEmbedder, RecallResult, WriteRequest};

fn req(kind: &str, name: &str, body: &str) -> WriteRequest {
    WriteRequest {
        agent_id: "agent-1".into(),
        kind: kind.into(),
        name: name.into(),
        body: body.into(),
        ttl_days: None,
    }
}

#[test]
fn test_valid_request() {
    let result = validate(req("feedback", "no-emoji", "Don't add emoji."));
    assert!(result.is_ok());
    let v = result.unwrap();
    assert_eq!(v.kind, "feedback");
    assert_eq!(v.name, "no-emoji");
}

#[test]
fn test_empty_kind_rejected() {
    assert_eq!(validate(req("", "name", "body")).unwrap_err(), PolicyError::EmptyKind);
}

#[test]
fn test_empty_name_rejected() {
    assert_eq!(validate(req("feedback", "", "body")).unwrap_err(), PolicyError::EmptyName);
}

#[test]
fn test_empty_body_rejected() {
    assert_eq!(validate(req("feedback", "name", "")).unwrap_err(), PolicyError::EmptyBody);
}

#[test]
fn test_whitespace_only_rejected() {
    assert_eq!(validate(req("feedback", "  ", "body")).unwrap_err(), PolicyError::EmptyName);
    assert_eq!(validate(req("feedback", "name", "   ")).unwrap_err(), PolicyError::EmptyBody);
}

#[test]
fn test_pinned_body_limit() {
    let long_body = "x".repeat(PINNED_BODY_LIMIT + 1);
    let err = validate(req("feedback", "name", &long_body)).unwrap_err();
    assert!(matches!(err, PolicyError::BodyTooLong { .. }));
}

#[test]
fn test_archive_body_limit() {
    let ok_body = "x".repeat(ARCHIVE_BODY_LIMIT);
    assert!(validate(req("experience", "name", &ok_body)).is_ok());
    let long_body = "x".repeat(ARCHIVE_BODY_LIMIT + 1);
    assert!(matches!(
        validate(req("experience", "name", &long_body)).unwrap_err(),
        PolicyError::BodyTooLong { .. }
    ));
}

#[test]
fn test_name_truncated_silently() {
    let long_name = "x".repeat(NAME_LIMIT + 50);
    let v = validate(req("experience", &long_name, "body")).unwrap();
    assert_eq!(v.name.chars().count(), NAME_LIMIT);
}

#[test]
fn test_whitespace_trimmed() {
    let v = validate(req("  feedback  ", "  name  ", "  body  ")).unwrap();
    assert_eq!(v.kind, "feedback");
    assert_eq!(v.name, "name");
    assert_eq!(v.body, "body");
}

#[test]
fn body_too_long_reports_kind_limit_and_length() {
    let err = validate(req("identity", "me", &"\u{e9}".repeat(501))).unwrap_err();
    assert_eq!(err, PolicyError::BodyTooLong { kind: "identity".to_string(), limit: 500, actual: 501 });
    assert_eq!(err.message(), "body too long for kind 'identity': 501 chars, limit is 500. Shorten and retry.");
    assert_eq!(PolicyError::EmptyKind.message(), "kind must not be empty");
}

#[test]
fn truncation_counts_characters() {
    assert_eq!(truncate_chars("h\u{e9}llo", 2), "h\u{e9}");
    assert_eq!(truncate_chars("abc", 10), "abc");
}

#[test]
fn noop_embedder_has_no_dimension() {
    let e = NoOpEmbedder;
    assert_eq!(e.dimension(), 0);
}

fn make_entry(kind: &str, name: &str) -> MemoryIndexEntry {
    MemoryIndexEntry { id: "1".into(), kind: kind.into(), name: name.into() }
}

fn make_memory(kind: &str, id: &str, body: &str) -> Memory {
    Memory {
        id: id.into(),
        agent_id: "a".into(),
        kind: kind.into(),
        name: "test".into(),
        body: body.into(),
        access_count: 0,
    }
}

#[test]
fn test_format_index_empty() {
    assert!(format_index(&[]).is_none());
}

#[test]
fn test_format_index_single() {
    let entries = vec![make_entry("feedback", "no-emoji")];
    let out = format_index(&entries).unwrap();
    assert!(out.contains("[feedback] no-emoji"));
    assert!(out.contains("## Memory"));
}

#[test]
fn format_index_exact_text() {
    let entries = vec![make_entry("feedback", "no-emoji")];
    assert_eq!(
        format_index(&entries).unwrap(),
        "## Memory\nYou have persistent memory across sessions.\nIndex (1 entries):\n  [feedback] no-emoji  id: 1\n\nUse MemoryWrite to save new memories, MemorySearch to find specific ones,\nand MemoryForget to remove outdated ones."
    );
}

#[test]
fn test_format_index_overflow() {
    let entries: Vec<_> = (0..120).map(|i| make_entry("experience", &format!("mem-{i}"))).collect();
    let out = format_index(&entries).unwrap();
    assert!(out.contains("... and 20 more"));
    assert!(out.contains("mem-99"));
    assert!(!out.contains("mem-100"));
}

#[test]
fn test_format_recalled_empty() {
    let result = RecallResult::new();
    assert!(format_recalled(&result).is_none());
}

#[test]
fn test_format_recalled_wraps_in_system_reminder() {
    let mut result = RecallResult::new();
    result.pinned.push(make_memory("feedback", "m1", "Don't add emoji."));
    let out = format_recalled(&result).unwrap();
    assert!(out.starts_with("<system-reminder>"));
    assert!(out.ends_with("</system-reminder>"));
    assert!(out.contains("kind=\"feedback\""));
    assert!(out.contains("Don't add emoji."));
}

#[test]
fn recalled_memories_list_pinned_first() {
    let mut result = RecallResult::new();
    result.recalled.push(make_memory("project", "r1", "later"));
    result.pinned.push(make_memory("identity", "p1", "first"));
    let out = format_recalled(&result).unwrap();
    assert!(out.find("first").unwrap() < out.find("later").unwrap());
}

#[test]
fn test_memory_block_format() {
    let m = make_memory("feedback", "abc-123", "  No emoji please.  ");
    let block = format_memory_block(&m);
    assert!(block.starts_with("<memory kind=\"feedback\" id=\"abc-123\">"));
    assert!(block.contains("No emoji please."));
    assert!(block.ends_with("</memory>"));
    assert_eq!(block, "<memory kind=\"feedback\" id=\"abc-123\">\nNo emoji please.\n</memory>");
}

#[test]
fn test_write_guidance_contains_key_phrases() {
    let g = format_write_guidance();
    assert!(g.contains("Do NOT save"));
    assert!(g.contains("Quality over quantity"));
}

#[test]
fn memory_insert_hashes_the_validated_body() {
    let v = validate(req("project", "  greeting ", "hello")).unwrap();
    let row = memory_insert(&v);
    assert_eq!(row.name, "greeting");
    assert_eq!(row.body, "hello");
    assert_eq!(
        row.content_hash,
        "2cf24dba5fb0a30e26e83b2ac5b9e29e1b161e5c1fa7425e73043362938b9824"
    );
    assert_eq!(row.ttl_days, None);
}

#[test]
fn equal_bodies_share_a_content_hash() {
    let a = memory_insert(&validate(req("project", "a", "same body")).unwrap());
    let b = memory_insert(&validate(req("reference", "b", "  same body")).unwrap());
    assert_eq!(a.content_hash, b.content_hash);
    assert_eq!(a.content_hash.len(), 64);
}

#[test]
fn write_status_reads_rows_affected() {
    assert!(matches!(write_status(0, "m-1".into()), WriteStatus::AlreadyKnown));
    match write_status(1, "m-1".into()) {
        WriteStatus::Saved { id } => assert_eq!(id, "m-1"),
        other => panic!("unexpected {:?}", other),
    }
}
