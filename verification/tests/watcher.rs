use ambient_fs::event::{EventType, FileEvent, Source};
use ambient_fs::filter::PathFilter;
use ambient_fs::watcher::{ChangeKind, Debouncer, FsWatcher, WatchError};

#[test]
fn new_watcher_has_debounce() {
    let watcher = FsWatcher::new(100, "proj", "machine");
    assert_eq!(watcher.debounce_ms(), 100);
}

#[test]
fn new_watcher_has_default_filter() {
    let watcher = FsWatcher::new(100, "proj", "machine");
    assert!(watcher.path_filter().should_ignore("node_modules/foo.js"));
    assert!(watcher.path_filter().should_ignore(".git/config"));
}

#[test]
fn new_watcher_is_empty() {
    let watcher = FsWatcher::new(100, "proj", "machine");
    assert!(watcher.watched_paths().is_empty());
}

#[test]
fn with_path_filter_sets_filter() {
    let filter = PathFilter::new(vec!["build".to_string()], 1024);
    let watcher = FsWatcher::new(100, "proj", "machine").with_path_filter(filter);
    assert!(watcher.path_filter().should_ignore("build/out.js"));
}

#[test]
fn set_path_filter_replaces_filter() {
    let mut watcher = FsWatcher::new(100, "proj", "machine");
    let filter = PathFilter::new(vec!["custom".to_string()], 512);
    watcher.set_path_filter(filter);
    assert!(watcher.path_filter().should_ignore("custom/file.txt"));
}

#[test]
fn watch_rejects_relative_path() {
    let mut watcher = FsWatcher::new(100, "proj", "machine");
    let result = watcher.watch("relative/path");
    assert!(matches!(result, Err(WatchError::NotAbsolute(_))));
}

#[test]
fn watch_rejects_nonexistent_path() {
    let mut watcher = FsWatcher::new(100, "proj", "machine");
    let result = watcher.watch("/does/not/exist");
    assert!(matches!(result, Err(WatchError::NotExists(_))));
}

#[test]
fn watch_same_path_twice_errors() {
    let mut watcher = FsWatcher::new(100, "proj", "machine");
    watcher.watch("/tmp").unwrap();
    let result = watcher.watch("/tmp");
    assert!(matches!(result, Err(WatchError::AlreadyWatching(_))));
}

#[test]
fn unwatch_non_watched_path_errors() {
    let mut watcher = FsWatcher::new(100, "proj", "machine");
    let result = watcher.unwatch("/not/watched");
    assert!(matches!(result, Err(WatchError::NotWatching(_))));
}

#[test]
fn watched_paths_returns_all_watched() {
    let mut watcher = FsWatcher::new(100, "proj", "machine");
    watcher.watch("/tmp").unwrap();
    watcher.watch("/").unwrap();
    let paths = watcher.watched_paths();
    assert_eq!(paths.len(), 2);
}

#[test]
fn watch_absolute_existing_path() {
    let mut watcher = FsWatcher::new(100, "proj", "machine");
    let result = watcher.watch("/tmp");
    assert!(result.is_ok());
    assert_eq!(watcher.watched_paths().len(), 1);
}

#[test]
fn unwatch_removes_watched_path() {
    let mut watcher = FsWatcher::new(100, "proj", "machine");
    watcher.watch("/tmp").unwrap();
    let result = watcher.unwatch("/tmp");
    assert!(result.is_ok());
    assert!(watcher.watched_paths().is_empty());
}

#[test]
fn stop_clears_watched_paths() {
    let mut watcher = FsWatcher::new(100, "proj", "machine");
    watcher.watch("/tmp").unwrap();
    assert_eq!(watcher.watched_paths().len(), 1);
    watcher.stop();
    assert!(watcher.watched_paths().is_empty());
}

#[test]
fn stop_is_idempotent() {
    let mut watcher = FsWatcher::new(100, "proj", "machine");
    watcher.stop();
    watcher.stop();
}

#[test]
fn stop_after_start_succeeds() {
    let mut watcher = FsWatcher::new(100, "proj", "machine");
    watcher.stop();
    assert!(watcher.watched_paths().is_empty());
}

#[test]
fn stop_without_start_is_safe() {
    let mut watcher = FsWatcher::new(100, "proj", "machine");
    watcher.stop();
    assert!(watcher.watched_paths().is_empty());
}

#[test]
fn watch_checked_reports_each_refusal() {
    let mut watcher = FsWatcher::new(100, "proj", "machine");
    assert_eq!(watcher.watch_checked("rel", true, true), Err(WatchError::NotAbsolute("rel".to_string())));
    assert_eq!(watcher.watch_checked("/a", false, false), Err(WatchError::NotExists("/a".to_string())));
    assert_eq!(watcher.watch_checked("/a", true, false), Ok(()));
    assert_eq!(watcher.watch_checked("/a", true, false), Err(WatchError::AlreadyWatching("/a".to_string())));
    assert!(watcher.is_watching("/a"));
    assert_eq!(watcher.watched_paths(), vec!["/a".to_string()]);
}

#[test]
fn watch_then_unwatch_restores_paths() {
    let mut watcher = FsWatcher::new(100, "proj", "machine");
    watcher.watch_checked("/x", true, true).unwrap();
    let before = watcher.watched_paths();
    watcher.watch_checked("/y", true, false).unwrap();
    watcher.unwatch("/y").unwrap();
    assert_eq!(watcher.watched_paths(), before);
    assert_eq!(watcher.unwatch("/y"), Err(WatchError::NotWatching("/y".to_string())));
}

#[test]
fn watched_paths_keep_insertion_order() {
    let mut watcher = FsWatcher::new(100, "proj", "machine");
    watcher.watch_checked("/b", true, true).unwrap();
    watcher.watch_checked("/a", true, true).unwrap();
    assert_eq!(watcher.watched_paths(), vec!["/b".to_string(), "/a".to_string()]);
}

#[test]
fn event_for_maps_change_kinds() {
    let watcher = FsWatcher::new(100, "proj", "machine");
    let created = watcher.event_for("src/main.rs", ChangeKind::Create).unwrap();
    assert_eq!(created.event_type, EventType::Created);
    assert_eq!(created.file_path, "src/main.rs");
    assert_eq!(created.project_id, "proj");
    assert_eq!(created.machine_id, "machine");
    assert_eq!(created.source, Source::User);
    assert_eq!(watcher.event_for("a.rs", ChangeKind::Modify).unwrap().event_type, EventType::Modified);
    assert_eq!(watcher.event_for("a.rs", ChangeKind::Remove).unwrap().event_type, EventType::Deleted);
    assert!(watcher.event_for("a.rs", ChangeKind::Other).is_none());
}

#[test]
fn event_for_skips_filtered_paths() {
    let watcher = FsWatcher::new(100, "proj", "machine");
    assert!(watcher.event_for("node_modules/x.js", ChangeKind::Create).is_none());
    assert!(watcher.event_for(".git/HEAD", ChangeKind::Modify).is_none());
}

#[test]
fn watch_error_messages() {
    assert_eq!(WatchError::NotAbsolute("a/b".to_string()).message(), "path is not absolute: a/b");
    assert_eq!(WatchError::NotExists("/x".to_string()).message(), "path does not exist: /x");
    assert_eq!(WatchError::AlreadyWatching("/x".to_string()).message(), "already watching: /x");
    assert_eq!(WatchError::NotWatching("/x".to_string()).message(), "not watching: /x");
    assert_eq!(WatchError::Io("boom".to_string()).message(), "IO error: boom");
    assert_eq!(WatchError::Notify("boom".to_string()).message(), "notify error: boom");
}

#[test]
fn debouncer_collapses_rapid_events_per_path() {
    let mut d = Debouncer::new(100);
    d.record(FileEvent::new(EventType::Created, "a.rs", "p", "m"), 1_000);
    d.record(FileEvent::new(EventType::Modified, "a.rs", "p", "m"), 1_050);
    d.record(FileEvent::new(EventType::Created, "b.rs", "p", "m"), 1_020);
    assert!(d.take_due(1_100).is_empty());
    let due = d.take_due(1_120);
    assert_eq!(due.len(), 1);
    assert_eq!(due[0].file_path, "b.rs");
    let due = d.take_due(1_150);
    assert_eq!(due.len(), 1);
    assert_eq!(due[0].file_path, "a.rs");
    assert_eq!(due[0].event_type, EventType::Modified);
    assert!(d.take_due(10_000).is_empty());
}
