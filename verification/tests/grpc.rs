use ambient_fs::event::{EventType, FileEvent, Source};
use ambient_fs::grpc::{file_event_to_message, message_to_file_event, FileEventMessage};

fn now_secs() -> i64 {
    std::time::SystemTime::now().duration_since(std::time::UNIX_EPOCH).unwrap().as_secs() as i64
}

fn message(event_type: &str, source: &str) -> FileEventMessage {
    FileEventMessage {
        timestamp: now_secs(),
        event_type: event_type.to_string(),
        file_path: "file.rs".to_string(),
        project_id: "proj-1".to_string(),
        source: source.to_string(),
        source_id: None,
        machine_id: "m1".to_string(),
        content_hash: None,
        old_path: None,
    }
}

#[test]
fn file_event_to_message_preserves_data() {
    let timestamp_ms: i64 = 1_700_000_000_123;
    let event = FileEvent::new(EventType::Modified, "src/main.rs", "proj-1", "machine-1")
        .with_timestamp(timestamp_ms)
        .with_source(Source::AiAgent)
        .with_source_id("agent-123")
        .with_content_hash("abc123");
    let msg = file_event_to_message(&event);
    assert_eq!(msg.file_path, "src/main.rs");
    assert_eq!(msg.project_id, "proj-1");
    assert_eq!(msg.machine_id, "machine-1");
    assert_eq!(msg.event_type, "modified");
    assert_eq!(msg.source, "ai_agent");
    assert_eq!(msg.source_id, Some("agent-123".to_string()));
    assert_eq!(msg.content_hash, Some("abc123".to_string()));
    assert_eq!(msg.timestamp, 1_700_000_000);
}

#[test]
fn file_event_to_message_with_old_path() {
    let event = FileEvent::new(EventType::Renamed, "src/new.rs", "proj-1", "machine-1").with_old_path("src/old.rs");
    let msg = file_event_to_message(&event);
    assert_eq!(msg.old_path, Some("src/old.rs".to_string()));
    assert_eq!(msg.file_path, "src/new.rs");
    assert_eq!(msg.event_type, "renamed");
}

#[test]
fn file_event_to_message_with_all_event_types() {
    for (event_type, expected_str) in [
        (EventType::Created, "created"),
        (EventType::Modified, "modified"),
        (EventType::Deleted, "deleted"),
        (EventType::Renamed, "renamed"),
    ] {
        let event = FileEvent::new(event_type, "file.rs", "proj-1", "m1");
        let msg = file_event_to_message(&event);
        assert_eq!(msg.event_type, expected_str);
    }
}

#[test]
fn file_event_to_message_with_all_sources() {
    for (source, expected_str) in [
        (Source::User, "user"),
        (Source::AiAgent, "ai_agent"),
        (Source::Git, "git"),
        (Source::Build, "build"),
    ] {
        let event = FileEvent::new(EventType::Modified, "file.rs", "proj-1", "m1").with_source(source);
        let msg = file_event_to_message(&event);
        assert_eq!(msg.source, expected_str);
    }
}

#[test]
fn message_to_file_event_roundtrip() {
    let original = FileEvent::new(EventType::Modified, "src/main.rs", "proj-1", "machine-1")
        .with_source(Source::AiAgent)
        .with_source_id("agent-123")
        .with_content_hash("abc123");
    let msg = file_event_to_message(&original);
    let restored = message_to_file_event(&msg, "machine-1").unwrap();
    assert_eq!(restored.file_path, original.file_path);
    assert_eq!(restored.project_id, original.project_id);
    assert_eq!(restored.source, original.source);
    assert_eq!(restored.source_id, original.source_id);
    assert_eq!(restored.content_hash, original.content_hash);
}

#[test]
fn message_to_file_event_with_renamed_event() {
    let mut msg = message("renamed", "user");
    msg.file_path = "new.rs".to_string();
    msg.old_path = Some("old.rs".to_string());
    let event = message_to_file_event(&msg, "m1").unwrap();
    assert_eq!(event.file_path, "new.rs");
    assert_eq!(event.old_path, Some("old.rs".to_string()));
}

#[test]
fn message_to_file_event_invalid_event_type_returns_none() {
    assert!(message_to_file_event(&message("invalid_type", "user"), "m1").is_none());
}

#[test]
fn message_to_file_event_invalid_source_returns_none() {
    assert!(message_to_file_event(&message("modified", "invalid_source"), "m1").is_none());
}

#[test]
fn message_times_round_down_and_scale_back() {
    let event = FileEvent::new(EventType::Created, "a", "p", "m").with_timestamp(-1);
    assert_eq!(file_event_to_message(&event).timestamp, -1);
    let event = FileEvent::new(EventType::Created, "a", "p", "m").with_timestamp(-1000);
    assert_eq!(file_event_to_message(&event).timestamp, -1);
    let event = FileEvent::new(EventType::Created, "a", "p", "m").with_timestamp(-1001);
    assert_eq!(file_event_to_message(&event).timestamp, -2);
    let mut msg = message("created", "git");
    msg.timestamp = 1_700_000_000;
    let back = message_to_file_event(&msg, "receiver").unwrap();
    assert_eq!(back.timestamp, 1_700_000_000_000);
    assert_eq!(back.machine_id, "receiver");
    assert_eq!(back.source, Source::Git);
    msg.timestamp = i64::MAX;
    assert!(message_to_file_event(&msg, "receiver").is_none());
}

#[test]
fn duplicate_copies_every_field() {
    let mut msg = message("created", "git");
    msg.source_id = Some("s".to_string());
    assert_eq!(msg.duplicate(), msg);
}
