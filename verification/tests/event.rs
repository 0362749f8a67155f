use ambient_fs::event::{EventType, FileEvent, Source};

#[test]
fn event_type_roundtrip() {
    for et in [EventType::Created, EventType::Modified, EventType::Deleted, EventType::Renamed] {
        let s = et.as_str();
        let parsed: EventType = s.parse().unwrap();
        assert_eq!(et, parsed);
    }
}

#[test]
fn event_type_invalid() {
    let result: Result<EventType, _> = "bogus".parse();
    assert!(result.is_err());
}

#[test]
fn source_roundtrip() {
    for src in [Source::User, Source::AiAgent, Source::Git, Source::Build, Source::Voice] {
        let s = src.as_str();
        let parsed: Source = s.parse().unwrap();
        assert_eq!(src, parsed);
    }
}

#[test]
fn source_invalid() {
    let result: Result<Source, _> = "bogus".parse();
    assert!(result.is_err());
}

#[test]
fn source_default_is_user() {
    assert_eq!(Source::default(), Source::User);
}

#[test]
fn file_event_builder() {
    let event = FileEvent::new(EventType::Created, "src/main.rs", "proj-1", "machine-a")
        .with_source(Source::AiAgent)
        .with_source_id("chat_42")
        .with_content_hash("abc123");

    assert_eq!(event.event_type, EventType::Created);
    assert_eq!(event.file_path, "src/main.rs");
    assert_eq!(event.project_id, "proj-1");
    assert_eq!(event.machine_id, "machine-a");
    assert_eq!(event.source, Source::AiAgent);
    assert_eq!(event.source_id.as_deref(), Some("chat_42"));
    assert_eq!(event.content_hash.as_deref(), Some("abc123"));
    assert!(event.old_path.is_none());
    assert!(!event.is_rename());
}

#[test]
fn file_event_rename() {
    let event = FileEvent::new(EventType::Renamed, "src/new.rs", "proj-1", "m1").with_old_path("src/old.rs");
    assert!(event.is_rename());
    assert_eq!(event.old_path.as_deref(), Some("src/old.rs"));
}

#[test]
fn file_event_rename_without_old_path_is_not_rename() {
    let event = FileEvent::new(EventType::Renamed, "src/new.rs", "proj-1", "m1");
    assert!(!event.is_rename());
}

#[test]
fn parse_error_messages() {
    let e = EventType::parse("bogus").unwrap_err();
    assert_eq!(e.message(), "invalid event type: bogus");
    let e = Source::parse("nope").unwrap_err();
    assert_eq!(e.message(), "invalid source: nope");
}

#[test]
fn with_timestamp_sets_time() {
    let event = FileEvent::new(EventType::Modified, "a", "p", "m").with_timestamp(1234);
    assert_eq!(event.timestamp, 1234);
}
