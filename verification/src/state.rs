//! The daemon's shared state: the watched projects and their watchers, the
//! live subscriptions, the machine identity and the agent tracker.
use vstd::prelude::*;
use crate::agents::{now_secs, ref_count, texts, AgentActivity, AgentState, AgentTracker};
use crate::assoc::Assoc;
use crate::subscriptions::SubscriptionManager;
use crate::tree::views;
use crate::watcher::FsWatcher;

verus! {

/// State shared by every connection of the daemon.
#[derive(Debug)]
pub struct ServerState {
    /// Path to the SQLite database.
    pub store_path: String,
    /// Event subscription registry.
    pub subscriptions: SubscriptionManager,
    /// Project id -> project path.
    pub projects: Assoc<String>,
    /// Project id -> its watcher (one watcher per project).
    pub watchers: Assoc<FsWatcher>,
    /// Machine id stamped on events.
    pub machine_id: String,
    /// Agent activity tracker.
    pub agent_tracker: AgentTracker,
}

impl ServerState {
    /// The watched projects, each id mapped to its path.
    pub open spec fn project_map(&self) -> Map<Seq<char>, Seq<char>> {
        self.projects@.map_values(|p: String| p@)
    }

    /// The projects' watchers by project id.
    pub open spec fn watcher_map(&self) -> Map<Seq<char>, FsWatcher> {
        self.watchers@
    }

    /// Each project and watcher is held once, each watcher is well formed,
    /// and so are the subscriptions and the tracker.
    pub open spec fn wf(&self) -> bool {
        &&& self.projects.wf()
        &&& self.watchers.wf()
        &&& forall|k: Seq<char>| #[trigger] self.watchers@.contains_key(k) ==> self.watchers@[k].wf()
        &&& self.subscriptions.wf()
        &&& self.agent_tracker.wf()
    }

    /// State for the database at `store_path`, named after `hostname`, or
    /// `unknown` when the host name could not be read.
    pub fn new(store_path: &str, hostname: Option<String>) -> (r: Self)
        ensures
            r.wf(),
            r.store_path@ == store_path@,
            r.machine_id@ == match hostname {
                Some(h) => h@,
                None => "unknown"@,
            },
            r.project_map() == Map::<Seq<char>, Seq<char>>::empty(),
            r.watcher_map() == Map::<Seq<char>, FsWatcher>::empty(),
            r.subscriptions.count_map() == Map::<Seq<char>, usize>::empty(),
            r.agent_tracker.agent_map() == Map::<Seq<char>, AgentState>::empty(),
            r.agent_tracker.timeout() == 300,
    {
        let machine_id = match hostname {
            Some(h) => h,
            None => {
                proof {
                    reveal_strlit("unknown");
                }
                "unknown".to_string()
            },
        };
        Self::with_machine_id(store_path, machine_id.as_str())
    }

    /// State for the database at `store_path` with the given machine id.
    pub fn with_machine_id(store_path: &str, machine_id: &str) -> (r: Self)
        ensures
            r.wf(),
            r.store_path@ == store_path@,
            r.machine_id@ == machine_id@,
            r.project_map() == Map::<Seq<char>, Seq<char>>::empty(),
            r.watcher_map() == Map::<Seq<char>, FsWatcher>::empty(),
            r.subscriptions.count_map() == Map::<Seq<char>, usize>::empty(),
            r.agent_tracker.agent_map() == Map::<Seq<char>, AgentState>::empty(),
            r.agent_tracker.timeout() == 300,
    {
        let r = ServerState {
            store_path: store_path.to_owned(),
            subscriptions: SubscriptionManager::new(),
            projects: Assoc::new(),
            watchers: Assoc::new(),
            machine_id: machine_id.to_owned(),
            agent_tracker: AgentTracker::with_default_timeout(),
        };
        proof {
            assert(r.project_map() =~= Map::<Seq<char>, Seq<char>>::empty());
        }
        r
    }

    /// The database path.
    pub fn store_path(&self) -> (r: &str)
        ensures
            r@ == self.store_path@,
    {
        self.store_path.as_str()
    }

    /// Records `project_id` at `path`, replacing any earlier path.
    pub fn add_project(&mut self, project_id: String, path: String)
        requires
            old(self).wf(),
        ensures
            final(self).wf(),
            final(self).project_map() == old(self).project_map().insert(project_id@, path@),
            final(self).watcher_map() == old(self).watcher_map(),
            final(self).machine_id == old(self).machine_id,
            final(self).store_path == old(self).store_path,
    {
        let ghost before = self.projects@;
        self.projects.insert(project_id, path);
        proof {
            assert(self.project_map() =~= before.map_values(|p: String| p@).insert(project_id@, path@));
        }
    }

    /// Forgets `project_id`; returns the path it had, if any.
    pub fn remove_project(&mut self, project_id: &str) -> (r: Option<String>)
        requires
            old(self).wf(),
        ensures
            final(self).wf(),
            final(self).project_map() == old(self).project_map().remove(project_id@),
            match r {
                Some(p) => old(self).project_map().contains_key(project_id@) && old(self).project_map()[project_id@]
                    == p@,
                None => !old(self).project_map().contains_key(project_id@),
            },
            final(self).watcher_map() == old(self).watcher_map(),
            final(self).machine_id == old(self).machine_id,
            final(self).store_path == old(self).store_path,
    {
        let ghost before = self.projects@;
        let r = self.projects.remove(project_id);
        proof {
            assert(self.project_map() =~= before.map_values(|p: String| p@).remove(project_id@));
        }
        r
    }

    /// The path of `project_id`, if it is watched.
    pub fn get_project(&self, project_id: &str) -> (r: Option<String>)
        requires
            self.wf(),
        ensures
            match r {
                Some(p) => self.project_map().contains_key(project_id@) && self.project_map()[project_id@] == p@,
                None => !self.project_map().contains_key(project_id@),
            },
    {
        match self.projects.get(project_id) {
            Some(p) => Some(p.clone()),
            None => None,
        }
    }

    /// Whether `project_id` is watched.
    pub fn has_project(&self, project_id: &str) -> (r: bool)
        requires
            self.wf(),
        ensures
            r == self.project_map().contains_key(project_id@),
    {
        self.projects.get(project_id).is_some()
    }

    /// The watched project ids, each once.
    pub fn list_projects(&self) -> (r: Vec<String>)
        requires
            self.wf(),
        ensures
            views(r@).no_duplicates(),
            views(r@).to_set() == self.project_map().dom(),
    {
        proof {
            self.projects.lemma_keys();
        }
        let out = self.projects.keys();
        proof {
            assert(views(out@) =~= self.projects.key_seq());
        }
        out
    }

    /// The watcher of `project_id`, if it has one.
    pub fn get_watcher(&self, project_id: &str) -> (r: Option<&FsWatcher>)
        requires
            self.wf(),
        ensures
            match r {
                Some(w) => self.watcher_map().contains_key(project_id@) && *w == self.watcher_map()[project_id@]
                    && w.wf(),
                None => !self.watcher_map().contains_key(project_id@),
            },
    {
        self.watchers.get(project_id)
    }

    /// Records `watcher` as the watcher of `project_id`, replacing any
    /// earlier one.
    pub fn add_watcher(&mut self, project_id: String, watcher: FsWatcher)
        requires
            old(self).wf(),
            watcher.wf(),
        ensures
            final(self).wf(),
            final(self).watcher_map() == old(self).watcher_map().insert(project_id@, watcher),
            final(self).project_map() == old(self).project_map(),
            final(self).machine_id == old(self).machine_id,
            final(self).store_path == old(self).store_path,
    {
        self.watchers.insert(project_id, watcher);
    }

    /// Takes the watcher of `project_id` out of the state, if it has one.
    pub fn remove_watcher(&mut self, project_id: &str) -> (r: Option<FsWatcher>)
        requires
            old(self).wf(),
        ensures
            final(self).wf(),
            final(self).watcher_map() == old(self).watcher_map().remove(project_id@),
            match r {
                Some(w) => old(self).watcher_map().contains_key(project_id@) && w == old(self).watcher_map()[project_id@]
                    && w.wf(),
                None => !old(self).watcher_map().contains_key(project_id@),
            },
            final(self).project_map() == old(self).project_map(),
            final(self).machine_id == old(self).machine_id,
            final(self).store_path == old(self).store_path,
    {
        self.watchers.remove(project_id)
    }

    /// The agent currently working on `file`, if any.
    pub fn get_active_agent(&self, file_path: &str) -> (r: Option<String>)
        requires
            self.wf(),
        ensures
            r matches Some(id) ==> self.agent_tracker.agent_map().contains_key(id@) && texts(
                self.agent_tracker.agent_map()[id@].files@,
            ).contains(file_path@),
            exists|now: i64| #[trigger] self.agent_tracker.active_answer(file_path@, now, r),
    {
        self.agent_tracker.get_active_agent(file_path)
    }

    /// Records an agent activity, seen now, in the tracker.
    pub fn update_agent_activity(&mut self, activity: &AgentActivity)
        requires
            old(self).wf(),
            ref_count(old(self).agent_tracker.reference_map(), activity.file@) < u32::MAX,
        ensures
            final(self).wf(),
            final(self).agent_tracker.agent_map().contains_key(activity.agent@),
            final(self).agent_tracker.reference_map() == old(self).agent_tracker.reference_map().insert(
                activity.file@,
                (ref_count(old(self).agent_tracker.reference_map(), activity.file@) + 1) as u32,
            ),
            final(self).project_map() == old(self).project_map(),
            final(self).watcher_map() == old(self).watcher_map(),
    {
        let now = now_secs();
        self.agent_tracker.update_from_activity(activity, now);
    }

    /// Copies of the agents that are not stale.
    pub fn get_all_agents(&self) -> (r: Vec<AgentState>)
        requires
            self.wf(),
        ensures
            forall|i: int| 0 <= i < r@.len() ==> self.agent_tracker.agent_map().contains_key(
                (#[trigger] r@[i]).agent_id@,
            ),
            exists|now: i64| #[trigger] self.agent_tracker.all_agents_answer(now, r@),
    {
        self.agent_tracker.get_all_agents()
    }

    /// Removes the stale agents; returns how many there were.
    pub fn prune_stale_agents(&mut self) -> (r: usize)
        requires
            old(self).wf(),
        ensures
            final(self).wf(),
            r == old(self).agent_tracker.agent_map().dom().len() - final(self).agent_tracker.agent_map().dom().len(),
            final(self).project_map() == old(self).project_map(),
            final(self).watcher_map() == old(self).watcher_map(),
            exists|now: i64| #[trigger] AgentTracker::pruned_at(old(self).agent_tracker, final(self).agent_tracker, now, r),
    {
        self.agent_tracker.prune_stale()
    }
}

/// Recording a project and then forgetting it leaves the projects as they
/// were when it was not recorded before; recording it twice keeps the last
/// path.
pub proof fn law_add_then_remove_project(
    projects: Map<Seq<char>, Seq<char>>,
    id: Seq<char>,
    path: Seq<char>,
    later: Seq<char>,
)
    ensures
        !projects.contains_key(id) ==> projects.insert(id, path).remove(id) == projects,
        projects.insert(id, path).insert(id, later) == projects.insert(id, later),
        projects.insert(id, path)[id] == path,
{
    assert(projects.insert(id, path).insert(id, later) =~= projects.insert(id, later));
    if !projects.contains_key(id) {
        assert(projects.insert(id, path).remove(id) =~= projects);
    }
}

} // verus!
