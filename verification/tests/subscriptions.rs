use ambient_fs::awareness::FileAwareness;
use ambient_fs::event::{EventType, FileEvent, Source};
use ambient_fs::subscriptions::{Notification, SubscriptionManager};
use ambient_fs::tree_state::TreePatch;

fn make_event(project_id: &str, file_path: &str) -> FileEvent {
    FileEvent::new(EventType::Modified, file_path, project_id, "test-machine")
}

#[test]
fn subscriber_count_increases() {
    let mut mgr = SubscriptionManager::new();
    assert_eq!(mgr.subscriber_count("proj-1"), 0);
    mgr.subscribe("proj-1");
    assert_eq!(mgr.subscriber_count("proj-1"), 1);
    mgr.subscribe("proj-1");
    assert_eq!(mgr.subscriber_count("proj-1"), 2);
}

#[test]
fn explicit_unsubscribe_decreases_count() {
    let mut mgr = SubscriptionManager::new();
    mgr.subscribe("proj-1");
    assert_eq!(mgr.subscriber_count("proj-1"), 1);
    mgr.unsubscribe("proj-1");
    assert_eq!(mgr.subscriber_count("proj-1"), 0);
}

#[test]
fn unsubscribe_removes_project_channel_when_zero() {
    let mut mgr = SubscriptionManager::new();
    mgr.subscribe("proj-1");
    assert_eq!(mgr.recipients(&Notification::Event(make_event("proj-1", "src/main.rs"))), 1);
    mgr.unsubscribe("proj-1");
    assert_eq!(mgr.recipients(&Notification::Event(make_event("proj-1", "src/main.rs"))), 0);
    assert!(mgr.active_projects().is_empty());
}

#[test]
fn active_projects_lists_subscribed() {
    let mut mgr = SubscriptionManager::new();
    mgr.subscribe("proj-1");
    mgr.subscribe("proj-2");
    let mut active = mgr.active_projects();
    active.sort();
    assert_eq!(active, vec!["proj-1", "proj-2"]);
}

#[test]
fn broadcast_does_not_cross_projects() {
    let mut mgr = SubscriptionManager::new();
    mgr.subscribe("proj-2");
    assert_eq!(mgr.recipients(&Notification::Event(make_event("proj-1", "src/main.rs"))), 0);
}

#[test]
fn broadcast_with_no_subscribers_returns_zero() {
    let mgr = SubscriptionManager::new();
    assert_eq!(mgr.recipients(&Notification::Event(make_event("proj-1", "src/main.rs"))), 0);
}

#[test]
fn unsubscribe_without_subscribers_changes_nothing() {
    let mut mgr = SubscriptionManager::new();
    mgr.subscribe("a");
    mgr.unsubscribe("b");
    assert_eq!(mgr.subscriber_count("a"), 1);
    assert_eq!(mgr.subscriber_count("b"), 0);
}

#[test]
fn subscribe_then_unsubscribe_restores_counts() {
    let mut mgr = SubscriptionManager::default();
    mgr.subscribe("p");
    mgr.subscribe("p");
    mgr.subscribe("q");
    mgr.unsubscribe("p");
    assert_eq!(mgr.subscriber_count("p"), 1);
    assert_eq!(mgr.subscriber_count("q"), 1);
}

#[test]
fn notifications_route_by_project_and_name_their_method() {
    let event = Notification::Event(make_event("proj-1", "test.rs"));
    assert_eq!(event.project_id(), "proj-1");
    assert_eq!(event.method_name(), "event");
    let awareness = Notification::AwarenessChanged {
        project_id: "proj-2".to_string(),
        file_path: "file.rs".to_string(),
        awareness: FileAwareness::from_event_at("file.rs", "proj-2", 0, Source::User, 0),
    };
    assert_eq!(awareness.project_id(), "proj-2");
    assert_eq!(awareness.method_name(), "awareness_changed");
    let analysis = Notification::AnalysisComplete {
        project_id: "proj-3".to_string(),
        file_path: "lib.rs".to_string(),
        line_count: 100,
        todo_count: 3,
    };
    assert_eq!(analysis.project_id(), "proj-3");
    assert_eq!(analysis.method_name(), "analysis_complete");
    let patch = Notification::TreePatch {
        project_id: "proj-4".to_string(),
        patch: TreePatch::Remove { path: "a".to_string() },
    };
    assert_eq!(patch.project_id(), "proj-4");
    assert_eq!(patch.method_name(), "tree_patch");
}
