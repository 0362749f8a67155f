//! Live subscriptions: how many clients follow each project, and the
//! notifications sent to them.
use vstd::prelude::*;
use crate::assoc::Assoc;
use crate::awareness::FileAwareness;
use crate::event::FileEvent;
use crate::tree::views;
use crate::tree_state::TreePatch;

verus! {

/// Notification types that can be sent to subscribers.
#[derive(Debug, Clone, PartialEq, Eq)]
pub enum Notification {
    /// Raw file event from the watcher.
    Event(FileEvent),
    /// File awareness state changed.
    AwarenessChanged { project_id: String, file_path: String, awareness: FileAwareness },
    /// File analysis completed.
    AnalysisComplete { project_id: String, file_path: String, line_count: u32, todo_count: u32 },
    /// Tree structure changed.
    TreePatch { project_id: String, patch: TreePatch },
}

/// The project a notification is routed to.
pub open spec fn notification_project(n: Notification) -> Seq<char> {
    match n {
        Notification::Event(e) => e.project_id@,
        Notification::AwarenessChanged { project_id, .. } => project_id@,
        Notification::AnalysisComplete { project_id, .. } => project_id@,
        Notification::TreePatch { project_id, .. } => project_id@,
    }
}

/// The JSON-RPC method a notification is sent as.
pub open spec fn notification_method(n: Notification) -> Seq<char> {
    match n {
        Notification::Event(_) => "event"@,
        Notification::AwarenessChanged { .. } => "awareness_changed"@,
        Notification::AnalysisComplete { .. } => "analysis_complete"@,
        Notification::TreePatch { .. } => "tree_patch"@,
    }
}

impl Notification {
    /// The project the notification is routed to.
    pub fn project_id(&self) -> (r: &str)
        ensures
            r@ == notification_project(*self),
    {
        match self {
            Notification::Event(e) => e.project_id.as_str(),
            Notification::AwarenessChanged { project_id, .. } => project_id.as_str(),
            Notification::AnalysisComplete { project_id, .. } => project_id.as_str(),
            Notification::TreePatch { project_id, .. } => project_id.as_str(),
        }
    }

    /// The method the notification is sent as: `event`,
    /// `awareness_changed`, `analysis_complete` or `tree_patch`.
    pub fn method_name(&self) -> (r: &'static str)
        ensures
            r@ == notification_method(*self),
    {
        proof {
            reveal_strlit("event");
            reveal_strlit("awareness_changed");
            reveal_strlit("analysis_complete");
            reveal_strlit("tree_patch");
        }
        match self {
            Notification::Event(_) => "event",
            Notification::AwarenessChanged { .. } => "awareness_changed",
            Notification::AnalysisComplete { .. } => "analysis_complete",
            Notification::TreePatch { .. } => "tree_patch",
        }
    }
}

/// Subscriber counts after one more subscriber of `project`.
pub open spec fn after_subscribe(counts: Map<Seq<char>, usize>, project: Seq<char>) -> Map<Seq<char>, usize> {
    if counts.contains_key(project) {
        counts.insert(project, (counts[project] + 1) as usize)
    } else {
        counts.insert(project, 1)
    }
}

/// Subscriber counts after one subscriber of `project` leaves: the count
/// goes down by one, and a project whose count reaches zero is dropped.
pub open spec fn after_unsubscribe(counts: Map<Seq<char>, usize>, project: Seq<char>) -> Map<Seq<char>, usize> {
    if !counts.contains_key(project) {
        counts
    } else if counts[project] <= 1 {
        counts.remove(project)
    } else {
        counts.insert(project, (counts[project] - 1) as usize)
    }
}

/// The subscriber count of `project`; zero when nobody follows it.
pub open spec fn count_of(counts: Map<Seq<char>, usize>, project: Seq<char>) -> int {
    if counts.contains_key(project) {
        counts[project] as int
    } else {
        0
    }
}

/// Live subscription registry: the number of subscribers of each project.
/// Projects without subscribers are not held.
#[derive(Debug, Clone)]
pub struct SubscriptionManager {
    counts: Assoc<usize>,
}

impl SubscriptionManager {
    /// Subscriber counts by project.
    pub closed spec fn count_map(&self) -> Map<Seq<char>, usize> {
        self.counts@
    }

    /// Each project is held once, and only with a count above zero.
    pub closed spec fn wf(&self) -> bool {
        &&& self.counts.wf()
        &&& forall|p: Seq<char>| #[trigger] self.counts@.contains_key(p) ==> self.counts@[p] > 0
    }

    /// A registry with no subscribers.
    pub fn new() -> (r: Self)
        ensures
            r.wf(),
            r.count_map() == Map::<Seq<char>, usize>::empty(),
    {
        SubscriptionManager { counts: Assoc::new() }
    }

    /// Records one more subscriber of `project_id`.
    pub fn subscribe(&mut self, project_id: &str)
        requires
            old(self).wf(),
            count_of(old(self).count_map(), project_id@) < usize::MAX,
        ensures
            final(self).wf(),
            final(self).count_map() == after_subscribe(old(self).count_map(), project_id@),
    {
        let next: usize = match self.counts.get(project_id) {
            Some(c) => *c + 1,
            None => 1,
        };
        self.counts.insert(project_id.to_owned(), next);
    }

    /// Records that one subscriber of `project_id` left; nothing changes for
    /// a project without subscribers.
    pub fn unsubscribe(&mut self, project_id: &str)
        requires
            old(self).wf(),
        ensures
            final(self).wf(),
            final(self).count_map() == after_unsubscribe(old(self).count_map(), project_id@),
    {
        let current: usize = match self.counts.get(project_id) {
            Some(c) => *c,
            None => {
                return;
            },
        };
        if current <= 1 {
            let _ = self.counts.remove(project_id);
        } else {
            self.counts.insert(project_id.to_owned(), current - 1);
        }
    }

    /// The number of subscribers of `project_id`.
    pub fn subscriber_count(&self, project_id: &str) -> (r: usize)
        requires
            self.wf(),
        ensures
            r == count_of(self.count_map(), project_id@),
    {
        match self.counts.get(project_id) {
            Some(c) => *c,
            None => 0,
        }
    }

    /// The number of subscribers a notification reaches: those of its
    /// project.
    pub fn recipients(&self, notification: &Notification) -> (r: usize)
        requires
            self.wf(),
        ensures
            r == count_of(self.count_map(), notification_project(*notification)),
    {
        self.subscriber_count(notification.project_id())
    }

    /// The projects with at least one subscriber, each once.
    pub fn active_projects(&self) -> (r: Vec<String>)
        requires
            self.wf(),
        ensures
            views(r@).no_duplicates(),
            views(r@).to_set() == self.count_map().dom(),
    {
        proof {
            self.counts.lemma_keys();
        }
        let out = self.counts.keys();
        proof {
            assert(views(out@) =~= self.counts.key_seq());
        }
        out
    }
}

impl Default for SubscriptionManager {
    /// A registry with no subscribers.
    fn default() -> (r: Self)
        ensures
            r.wf(),
            r.count_map() == Map::<Seq<char>, usize>::empty(),
    {
        Self::new()
    }
}

/// A subscription followed by an unsubscription of the same project leaves
/// every count as it was, and a subscription raises the project's count by
/// exactly one while leaving every other project's count alone.
pub proof fn law_subscribe_then_unsubscribe(counts: Map<Seq<char>, usize>, project: Seq<char>, other: Seq<char>)
    requires
        forall|p: Seq<char>| #[trigger] counts.contains_key(p) ==> counts[p] > 0,
        count_of(counts, project) < usize::MAX,
    ensures
        after_unsubscribe(after_subscribe(counts, project), project) == counts,
        count_of(after_subscribe(counts, project), project) == count_of(counts, project) + 1,
        other != project ==> count_of(after_subscribe(counts, project), other) == count_of(counts, other),
{
    assert(after_unsubscribe(after_subscribe(counts, project), project) =~= counts);
}

} // verus!
