use ambient_fs::event::{EventType, FileEvent};
use ambient_fs::languages::LanguageRegistry;
use ambient_fs::llm::{LlmClient, LlmConfig, LlmError};
use ambient_fs::pipeline::{analysis_hash, AnalysisPipeline, PipelineConfig};
use ambient_fs::prune::PruneConfig;

#[test]
fn test_llm_config_defaults() {
    let config = LlmConfig::default();
    assert!(config.api_key.is_none());
    assert_eq!(config.model, "haiku-4-5-20251001");
    assert_eq!(config.base_url, "https://api.anthropic.com/v1");
    assert_eq!(config.max_tokens, 512);
}

#[test]
fn test_is_enabled_with_api_key() {
    let config = LlmConfig { api_key: Some("sk-test-key".to_string()), ..Default::default() };
    let client = LlmClient::new(config);
    assert!(client.is_enabled());
}

#[test]
fn test_is_enabled_without_api_key() {
    let client = LlmClient::new(LlmConfig::default());
    assert!(!client.is_enabled());
    assert!(matches!(client.api_key(), Err(LlmError::Disabled)));
}

#[test]
fn llm_endpoint_and_key() {
    let config = LlmConfig { api_key: Some("sk-test-key".to_string()), ..Default::default() };
    let client = LlmClient::new(config);
    assert_eq!(client.messages_url(), "https://api.anthropic.com/v1/messages");
    assert_eq!(client.api_key().unwrap(), "sk-test-key");
}

#[test]
fn llm_reply_reading() {
    let body = r#"{"content":[{"type":"text","text":"hello"}]}"#;
    assert_eq!(LlmClient::reply_text(200, true, body).unwrap(), "hello");
    match LlmClient::reply_text(500, false, "boom") {
        Err(LlmError::Api { status, message }) => {
            assert_eq!(status, 500);
            assert_eq!(message, "boom");
        }
        other => panic!("expected an API error, got {:?}", other),
    }
    assert!(matches!(LlmClient::reply_text(200, true, "not json"), Err(LlmError::Parse(_))));
    let odd = r#"{"content":[]}"#;
    match LlmClient::reply_text(200, true, odd) {
        Err(LlmError::Api { status, message }) => {
            assert_eq!(status, 200);
            assert_eq!(message, format!("Unexpected response format: {}", odd));
        }
        other => panic!("expected an API error, got {:?}", other),
    }
}

#[test]
fn llm_error_messages() {
    assert_eq!(LlmError::Disabled.message(), "LLM client is disabled (no API key)");
    assert_eq!(LlmError::Api { status: 429, message: "slow down".to_string() }.message(), "API error 429: slow down");
    assert_eq!(LlmError::Http("refused".to_string()).message(), "HTTP request failed: refused");
}

#[test]
fn new_creates_pipeline_with_config() {
    let config = PipelineConfig { max_concurrent: 5, max_file_size: 2048 };
    let pipeline = AnalysisPipeline::new("/tmp/store.db", config);
    assert_eq!(pipeline.config().max_concurrent, 5);
    assert_eq!(pipeline.config().max_file_size, 2048);
    assert_eq!(pipeline.analyzer_config.max_file_size, 2048);
}

#[test]
fn with_defaults_uses_default_config() {
    let pipeline = AnalysisPipeline::with_defaults("/tmp/store.db");
    assert_eq!(pipeline.config().max_concurrent, 2);
    assert_eq!(pipeline.config().max_file_size, 1024 * 1024);
}

#[test]
fn tier_two_needs_a_client_and_a_language() {
    let registry = LanguageRegistry::with_builtin_languages();
    let pipeline = AnalysisPipeline::with_defaults("/tmp/store.db");
    assert_eq!(pipeline.tier_two_language(&registry, "src/main.rs"), None);
    let pipeline = pipeline.with_llm(LlmClient::new(LlmConfig::default()));
    assert_eq!(pipeline.tier_two_language(&registry, "src/main.rs"), Some("Rust"));
    assert_eq!(pipeline.tier_two_language(&registry, "notes.unknownext"), None);
}

#[test]
fn retention_days_default_90() {
    let config = PruneConfig::default();
    assert_eq!(config.retention_days, 90);
}

#[test]
fn retention_days_custom() {
    let config = PruneConfig::new(30);
    assert_eq!(config.retention_days, 30);
}

#[test]
fn retention_days_calculates_cutoff() {
    let config = PruneConfig::new(7);
    let now: i64 = 1_700_000_000_000;
    let cutoff = config.cutoff_at(now).unwrap();
    assert_eq!(now - cutoff, 7 * 86_400_000);
    let live = config.cutoff_timestamp().unwrap();
    assert!(live > cutoff);
}

#[test]
fn cutoff_out_of_range_is_none() {
    assert_eq!(PruneConfig::new(i64::MAX).cutoff_at(0), None);
    assert_eq!(PruneConfig::new(-1).cutoff_at(i64::MAX), None);
    assert_eq!(PruneConfig::new(0).cutoff_at(5), Some(5));
}

#[test]
fn pipeline_defaults() {
    let config = PipelineConfig::default();
    assert_eq!(config.max_concurrent, 2);
    assert_eq!(config.max_file_size, 1024 * 1024);
    assert_eq!(config.analyzer_config().max_file_size, 1024 * 1024);
}

#[test]
fn only_content_events_with_hash_are_analysed() {
    let created = FileEvent::new(EventType::Created, "a.rs", "p", "m").with_content_hash("h1");
    assert_eq!(analysis_hash(&created), Some("h1".to_string()));
    let modified = FileEvent::new(EventType::Modified, "a.rs", "p", "m").with_content_hash("h2");
    assert_eq!(analysis_hash(&modified), Some("h2".to_string()));
    let no_hash = FileEvent::new(EventType::Modified, "a.rs", "p", "m");
    assert_eq!(analysis_hash(&no_hash), None);
    let deleted = FileEvent::new(EventType::Deleted, "a.rs", "p", "m").with_content_hash("h3");
    assert_eq!(analysis_hash(&deleted), None);
}
