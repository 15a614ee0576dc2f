//! Transcript rendering and history-file naming.

use rustchat::logger::build_history_config;
use rustchat::logger::build_json_payload;
use rustchat::logger::render_markdown_payload;
use rustchat::logger::sanitized_provider;
use rustchat::logger::timestamped_history_path;
use rustchat::logger::HistoryConfig;
use rustchat::logger::HistoryFormat;
use rustchat::message::ChatMessage;
use serde_json::Value;

#[test]
fn json_payload_includes_system() {
    let messages = vec![
        ChatMessage::user("Hello"),
        ChatMessage::assistant("Hi there"),
    ];
    let json = build_json_payload(Some("Stay helpful"), &messages).expect("json payload");
    let value: Value = serde_json::from_str(&json).expect("valid json");
    assert_eq!(value[0]["role"], "system");
    assert_eq!(value[1]["role"], "user");
    assert_eq!(value[2]["role"], "assistant");
}

#[test]
fn markdown_payload_captures_roles() {
    let messages = vec![
        ChatMessage::user("Ping"),
        ChatMessage::assistant("Pong"),
    ];
    let md = render_markdown_payload(None, &messages);
    assert!(md.contains("## user"));
    assert!(md.contains("## assistant"));
    assert!(md.contains("Pong"));
}

#[test]
fn timestamped_path_is_deterministic() {
    // 2024-05-01 12:30:45 UTC.
    let path = timestamped_history_path(
        "/tmp/history",
        "Prod#Provider",
        HistoryFormat::Markdown,
        2024,
        5,
        1,
        12,
        30,
        45,
    );
    assert_eq!(
        path.rsplit('/').next().unwrap(),
        "20240501-123045-prod-provider.md"
    );
}

#[test]
fn sanitized_provider_maps_and_trims() {
    assert_eq!(sanitized_provider("Prod#Provider"), "prod-provider");
    assert_eq!(sanitized_provider("--Work--"), "work");
    assert_eq!(sanitized_provider("###"), "session");
    assert_eq!(sanitized_provider(""), "session");
    assert_eq!(sanitized_provider("abc-123"), "abc-123");
}

#[test]
fn markdown_includes_system_entry() {
    let md = render_markdown_payload(Some("Stay sharp"), &vec![ChatMessage::user("x")]);
    assert!(md.starts_with("# Chat Transcript\n\n## system\n\nStay sharp\n\n"));
}

#[test]
fn json_payload_escapes_content() {
    let messages = vec![ChatMessage::user("line\n\"quoted\"")];
    let json = build_json_payload(None, &messages).expect("json payload");
    let value: Value = serde_json::from_str(&json).expect("valid json");
    assert_eq!(value[0]["content"], "line\n\"quoted\"");
}

#[test]
fn extension_matches_format() {
    assert_eq!(HistoryFormat::Json.extension(), "json");
    assert_eq!(HistoryFormat::Markdown.extension(), "md");
}

#[test]
fn history_config_resolution() {
    // An explicit path always wins.
    let cfg = HistoryConfig {
        explicit_path: Some("/tmp/out.json".to_string()),
        history_dir: Some("/tmp/hist".to_string()),
        auto_save: true,
        format: HistoryFormat::Json,
        auto_save_request_failed: false,
    };
    assert_eq!(
        cfg.resolve_path("p", 2024, 1, 2, 3, 4, 5).as_deref(),
        Some("/tmp/out.json")
    );

    // Auto-save uses a timestamped file under the directory.
    let auto = build_history_config(
        None,
        Some("/tmp/hist".to_string()),
        true,
        HistoryFormat::Json,
        None,
    );
    assert!(auto.auto_save);
    assert!(!auto.auto_save_request_failed);
    assert_eq!(
        auto.resolve_path("prov", 2024, 1, 2, 3, 4, 5).as_deref(),
        Some("/tmp/hist/20240102-030405-prov.json")
    );

    // Auto-save without any directory is dropped and flagged.
    let failed = build_history_config(None, None, true, HistoryFormat::Markdown, None);
    assert!(!failed.auto_save);
    assert!(failed.auto_save_request_failed);
    assert!(failed.resolve_path("prov", 2024, 1, 2, 3, 4, 5).is_none());

    // The platform fallback directory is used when none was given.
    let fallback = build_history_config(
        None,
        None,
        true,
        HistoryFormat::Markdown,
        Some("/data/hist".to_string()),
    );
    assert_eq!(fallback.history_dir.as_deref(), Some("/data/hist"));
    assert!(fallback.auto_save);
}
