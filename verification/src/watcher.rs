//! The filesystem watcher's bookkeeping: which paths are watched, which
//! requests to watch or unwatch are refused, and which file event a raw
//! change notification becomes.
use vstd::prelude::*;
use crate::assoc::Assoc;
use crate::event::{EventType, FileEvent, Source};
use crate::filter::{ignored_by, PathFilter};
use crate::text::{chars_of, concat};
use crate::tree::views;

verus! {

/// Errors from the filesystem watcher.
#[derive(Debug, Clone, PartialEq, Eq)]
pub enum WatchError {
    Io(String),
    Notify(String),
    NotAbsolute(String),
    NotExists(String),
    AlreadyWatching(String),
    NotWatching(String),
}

/// The message of a watch error: its kind, a colon, and the detail.
pub open spec fn watch_error_text(e: WatchError) -> Seq<char> {
    match e {
        WatchError::Io(m) => "IO error: "@ + m@,
        WatchError::Notify(m) => "notify error: "@ + m@,
        WatchError::NotAbsolute(p) => "path is not absolute: "@ + p@,
        WatchError::NotExists(p) => "path does not exist: "@ + p@,
        WatchError::AlreadyWatching(p) => "already watching: "@ + p@,
        WatchError::NotWatching(p) => "not watching: "@ + p@,
    }
}

impl WatchError {
    /// `"path is not absolute: .."`, `"not watching: .."` and so on.
    pub fn message(&self) -> (r: String)
        ensures
            r@ == watch_error_text(*self),
    {
        match self {
            WatchError::Io(m) => concat("IO error: ", m.as_str()),
            WatchError::Notify(m) => concat("notify error: ", m.as_str()),
            WatchError::NotAbsolute(p) => concat("path is not absolute: ", p.as_str()),
            WatchError::NotExists(p) => concat("path does not exist: ", p.as_str()),
            WatchError::AlreadyWatching(p) => concat("already watching: ", p.as_str()),
            WatchError::NotWatching(p) => concat("not watching: ", p.as_str()),
        }
    }
}

/// What kind of change a notification reports.
#[derive(Debug, Clone, Copy, PartialEq, Eq)]
pub enum ChangeKind {
    Create,
    Modify,
    Remove,
    /// Access and any other notification that is not a change.
    Other,
}

/// The event type a change kind is reported as; none for `Other`.
pub open spec fn change_event_type(kind: ChangeKind) -> Option<EventType> {
    match kind {
        ChangeKind::Create => Some(EventType::Created),
        ChangeKind::Modify => Some(EventType::Modified),
        ChangeKind::Remove => Some(EventType::Deleted),
        ChangeKind::Other => None,
    }
}

/// A path is absolute when it starts at the root.
pub open spec fn is_absolute_path(path: Seq<char>) -> bool {
    path.len() > 0 && path[0] == '/'
}

/// The watched paths after a request to watch `path`: it is added, with
/// whether it is a directory, when it is absolute, exists and is not yet
/// watched; otherwise nothing changes.
pub open spec fn after_watch(
    watched: Map<Seq<char>, bool>,
    path: Seq<char>,
    exists: bool,
    is_dir: bool,
) -> Map<Seq<char>, bool> {
    if is_absolute_path(path) && exists && !watched.contains_key(path) {
        watched.insert(path, is_dir)
    } else {
        watched
    }
}

/// The watched paths after a request to unwatch `path`.
pub open spec fn after_unwatch(watched: Map<Seq<char>, bool>, path: Seq<char>) -> Map<Seq<char>, bool> {
    watched.remove(path)
}

/// Whether `path` is absolute.
fn starts_at_root(path: &str) -> (r: bool)
    ensures
        r == is_absolute_path(path@),
{
    let c = chars_of(path);
    c.len() > 0 && c[0] == '/'
}

/// Whether `path` exists on disk (`std::path::Path::exists`); nothing is
/// stated of the answer, which depends on the filesystem.
#[verifier::external_body]
fn path_exists(path: &str) -> bool {
    std::path::Path::new(path).exists()
}

/// Whether `path` is a directory on disk (`std::path::Path::is_dir`);
/// nothing is stated of the answer, which depends on the filesystem.
#[verifier::external_body]
fn path_is_dir(path: &str) -> bool {
    std::path::Path::new(path).is_dir()
}

/// Filesystem watcher state: the watched paths (each with whether it is
/// watched recursively), the path filter applied to notifications, and the
/// identifiers stamped on the events it emits.
#[derive(Debug, Clone)]
pub struct FsWatcher {
    debounce_ms: u64,
    watched: Assoc<bool>,
    path_filter: PathFilter,
    project_id: String,
    machine_id: String,
}

impl FsWatcher {
    /// The watched paths, each mapped to whether it is watched recursively.
    pub closed spec fn watched_map(&self) -> Map<Seq<char>, bool> {
        self.watched@
    }

    /// The watched paths in the order they were added.
    pub closed spec fn watched_seq(&self) -> Seq<Seq<char>> {
        self.watched.key_seq()
    }

    /// The filter's patterns and size limit.
    pub closed spec fn filter_view(&self) -> (Seq<Seq<char>>, u64) {
        self.path_filter@
    }

    pub closed spec fn debounce_view(&self) -> u64 {
        self.debounce_ms
    }

    pub closed spec fn project_view(&self) -> Seq<char> {
        self.project_id@
    }

    pub closed spec fn machine_view(&self) -> Seq<char> {
        self.machine_id@
    }

    /// Each watched path is held once.
    pub closed spec fn wf(&self) -> bool {
        self.watched.wf()
    }

    /// A watcher with nothing watched and the default path filter.
    pub fn new(debounce_ms: u64, project_id: &str, machine_id: &str) -> (r: Self)
        ensures
            r.wf(),
            r.debounce_view() == debounce_ms,
            r.watched_map() == Map::<Seq<char>, bool>::empty(),
            r.filter_view() == (crate::filter::default_patterns(), 10485760u64),
            r.project_view() == project_id@,
            r.machine_view() == machine_id@,
    {
        FsWatcher {
            debounce_ms,
            watched: Assoc::new(),
            path_filter: PathFilter::default(),
            project_id: project_id.to_owned(),
            machine_id: machine_id.to_owned(),
        }
    }

    /// The watcher with `filter` in place of its path filter.
    pub fn with_path_filter(self, filter: PathFilter) -> (r: Self)
        ensures
            r.filter_view() == filter@,
            r.watched_map() == self.watched_map(),
            r.watched_seq() == self.watched_seq(),
            r.wf() == self.wf(),
            r.debounce_view() == self.debounce_view(),
            r.project_view() == self.project_view(),
            r.machine_view() == self.machine_view(),
    {
        FsWatcher { path_filter: filter, ..self }
    }

    /// Replaces the path filter.
    pub fn set_path_filter(&mut self, filter: PathFilter)
        ensures
            final(self).filter_view() == filter@,
            final(self).watched_map() == old(self).watched_map(),
            final(self).watched_seq() == old(self).watched_seq(),
            final(self).wf() == old(self).wf(),
            final(self).debounce_view() == old(self).debounce_view(),
            final(self).project_view() == old(self).project_view(),
            final(self).machine_view() == old(self).machine_view(),
    {
        self.path_filter = filter;
    }

    /// The debounce interval in milliseconds.
    pub fn debounce_ms(&self) -> (r: u64)
        ensures
            r == self.debounce_view(),
    {
        self.debounce_ms
    }

    /// The filter applied to notifications.
    pub fn path_filter(&self) -> (r: &PathFilter)
        ensures
            r@ == self.filter_view(),
    {
        &self.path_filter
    }

    /// Whether `path` is watched.
    pub fn is_watching(&self, path: &str) -> (r: bool)
        requires
            self.wf(),
        ensures
            r == self.watched_map().contains_key(path@),
    {
        self.watched.get(path).is_some()
    }

    /// Adds a watch on `path`, given whether it exists and whether it is a
    /// directory (directories are watched recursively).  A relative path is
    /// refused first, then one that does not exist, then one already watched.
    pub fn watch_checked(&mut self, path: &str, exists: bool, is_dir: bool) -> (r: Result<(), WatchError>)
        requires
            old(self).wf(),
        ensures
            final(self).wf(),
            !is_absolute_path(path@) ==> (r matches Err(WatchError::NotAbsolute(p)) && p@ == path@),
            is_absolute_path(path@) && !exists ==> (r matches Err(WatchError::NotExists(p)) && p@ == path@),
            is_absolute_path(path@) && exists && old(self).watched_map().contains_key(path@) ==> (r matches Err(
                WatchError::AlreadyWatching(p),
            ) && p@ == path@),
            r is Ok <==> (is_absolute_path(path@) && exists && !old(self).watched_map().contains_key(path@)),
            final(self).watched_map() == after_watch(old(self).watched_map(), path@, exists, is_dir),
            r is Err ==> final(self).watched_seq() == old(self).watched_seq(),
            final(self).filter_view() == old(self).filter_view(),
            final(self).debounce_view() == old(self).debounce_view(),
            final(self).project_view() == old(self).project_view(),
            final(self).machine_view() == old(self).machine_view(),
    {
        let absolute = starts_at_root(path);
        if !absolute {
            return Err(WatchError::NotAbsolute(path.to_owned()));
        }
        if !exists {
            return Err(WatchError::NotExists(path.to_owned()));
        }
        if self.watched.get(path).is_some() {
            return Err(WatchError::AlreadyWatching(path.to_owned()));
        }
        self.watched.insert(path.to_owned(), is_dir);
        Ok(())
    }

    /// Adds a watch on `path`, asking the filesystem whether it exists and
    /// whether it is a directory.  A relative path is refused without asking;
    /// an absolute one is added, or refused as missing or already watched.
    pub fn watch(&mut self, path: &str) -> (r: Result<(), WatchError>)
        requires
            old(self).wf(),
        ensures
            final(self).wf(),
            !is_absolute_path(path@) ==> (r matches Err(WatchError::NotAbsolute(p)) && p@ == path@),
            is_absolute_path(path@) ==> match r {
                Ok(()) => !old(self).watched_map().contains_key(path@) && final(self).watched_map().dom()
                    == old(self).watched_map().dom().insert(path@),
                Err(WatchError::NotExists(p)) => p@ == path@,
                Err(WatchError::AlreadyWatching(p)) => p@ == path@ && old(self).watched_map().contains_key(
                    path@,
                ),
                Err(_) => false,
            },
            old(self).watched_map().contains_key(path@) ==> r is Err,
            r is Err ==> final(self).watched_map() == old(self).watched_map(),
            final(self).filter_view() == old(self).filter_view(),
            final(self).project_view() == old(self).project_view(),
            final(self).machine_view() == old(self).machine_view(),
    {
        let absolute = starts_at_root(path);
        if !absolute {
            return Err(WatchError::NotAbsolute(path.to_owned()));
        }
        let exists = path_exists(path);
        let is_dir = path_is_dir(path);
        self.watch_checked(path, exists, is_dir)
    }

    /// Removes the watch on `path`; a path that is not watched is refused.
    pub fn unwatch(&mut self, path: &str) -> (r: Result<(), WatchError>)
        requires
            old(self).wf(),
        ensures
            final(self).wf(),
            r is Ok <==> old(self).watched_map().contains_key(path@),
            r is Err ==> (r matches Err(WatchError::NotWatching(p)) && p@ == path@),
            final(self).watched_map() == after_unwatch(old(self).watched_map(), path@),
            final(self).filter_view() == old(self).filter_view(),
            final(self).debounce_view() == old(self).debounce_view(),
            final(self).project_view() == old(self).project_view(),
            final(self).machine_view() == old(self).machine_view(),
    {
        if self.watched.get(path).is_none() {
            return Err(WatchError::NotWatching(path.to_owned()));
        }
        let _ = self.watched.remove(path);
        Ok(())
    }

    /// The watched paths, each once, in the order they were added.
    pub fn watched_paths(&self) -> (r: Vec<String>)
        requires
            self.wf(),
        ensures
            views(r@) == self.watched_seq(),
            views(r@).no_duplicates(),
            views(r@).to_set() == self.watched_map().dom(),
            r@.len() == self.watched_map().dom().len(),
    {
        proof {
            self.watched.lemma_keys();
        }
        let out = self.watched.keys();
        proof {
            assert(views(out@) =~= self.watched.key_seq());
        }
        out
    }

    /// Stops watching everything; calling it again changes nothing.
    pub fn stop(&mut self)
        ensures
            final(self).wf(),
            final(self).watched_map() == Map::<Seq<char>, bool>::empty(),
            final(self).watched_seq().len() == 0,
            final(self).filter_view() == old(self).filter_view(),
            final(self).debounce_view() == old(self).debounce_view(),
            final(self).project_view() == old(self).project_view(),
            final(self).machine_view() == old(self).machine_view(),
    {
        self.watched = Assoc::new();
    }

    /// The event a change notification for `path` becomes: none when the
    /// filter ignores the path or the notification is not a create, modify
    /// or remove; otherwise a user event of the matching type on `path`,
    /// stamped with the watcher's project and machine.
    pub fn event_for(&self, path: &str, kind: ChangeKind) -> (r: Option<FileEvent>)
        ensures
            ignored_by(self.filter_view().0, path@) ==> r is None,
            !ignored_by(self.filter_view().0, path@) ==> match change_event_type(kind) {
                None => r is None,
                Some(t) => (r matches Some(e) && e.event_type == t && e.file_path@ == path@ && e.project_id@
                    == self.project_view() && e.machine_id@ == self.machine_view() && e.source
                    == Source::User && e.source_id is None && e.content_hash is None && e.old_path is None),
            },
    {
        if self.path_filter.should_ignore(path) {
            return None;
        }
        let event_type = match kind {
            ChangeKind::Create => EventType::Created,
            ChangeKind::Modify => EventType::Modified,
            ChangeKind::Remove => EventType::Deleted,
            ChangeKind::Other => {
                return None;
            },
        };
        Some(FileEvent::new(event_type, path, self.project_id.as_str(), self.machine_id.as_str()))
    }
}

/// Watching a path that is not yet watched and then unwatching it leaves
/// the watched paths as they were; a second request to watch the same path
/// changes nothing.
pub proof fn law_watch_then_unwatch(watched: Map<Seq<char>, bool>, path: Seq<char>, is_dir: bool, again_dir: bool)
    requires
        !watched.contains_key(path),
    ensures
        after_unwatch(after_watch(watched, path, true, is_dir), path) == watched,
        after_watch(after_watch(watched, path, true, is_dir), path, true, again_dir) == after_watch(
            watched,
            path,
            true,
            is_dir,
        ),
{
    assert(after_unwatch(after_watch(watched, path, true, is_dir), path) =~= watched);
}

/// A path's pending event is due at `now` once `debounce_ms` have passed
/// since the last event for it arrived.
pub open spec fn quiet_since(arrived: i64, now: i64, debounce_ms: u64) -> bool {
    now - arrived >= debounce_ms
}

/// Collapses rapid events into one per path: each path keeps only its
/// latest event, with the time it arrived, and the event is emitted once
/// the path has been quiet for the debounce interval.  The caller reads
/// the clock and hands the times in.
pub struct Debouncer {
    debounce_ms: u64,
    pending: Assoc<(FileEvent, i64)>,
}

impl Debouncer {
    /// The debounce interval in milliseconds.
    pub closed spec fn delay(&self) -> u64 {
        self.debounce_ms
    }

    /// The latest event of each path still waiting, with its arrival time.
    pub closed spec fn waiting(&self) -> Map<Seq<char>, (FileEvent, i64)> {
        self.pending@
    }

    /// Each waiting event is filed under its own path.
    pub closed spec fn wf(&self) -> bool {
        &&& self.pending.wf()
        &&& forall|k: Seq<char>| #[trigger] self.pending@.contains_key(k) ==> self.pending@[k].0.file_path@ == k
    }

    /// Nothing waits; events are held for `debounce_ms` milliseconds.
    pub fn new(debounce_ms: u64) -> (r: Self)
        ensures
            r.wf(),
            r.waiting() == Map::<Seq<char>, (FileEvent, i64)>::empty(),
            r.delay() == debounce_ms,
    {
        Debouncer { debounce_ms, pending: Assoc::new() }
    }

    /// Records `event`, arrived at `now`: it replaces any event still
    /// waiting for its path, and the path's quiet interval starts again.
    pub fn record(&mut self, event: FileEvent, now: i64)
        requires
            old(self).wf(),
        ensures
            final(self).wf(),
            final(self).delay() == old(self).delay(),
            final(self).waiting() == old(self).waiting().insert(event.file_path@, (event, now)),
    {
        let key = event.file_path.clone();
        let ghost k = key@;
        self.pending.insert(key, (event, now));
        proof {
            assert forall|q: Seq<char>| #[trigger] self.pending@.contains_key(q) implies self.pending@[q].0.file_path@ == q by {
                if q != k {
                    assert(old(self).pending@.contains_key(q));
                }
            }
        }
    }

    /// Takes the events whose paths have been quiet for the interval at
    /// `now`, one per path; the others keep waiting.
    pub fn take_due(&mut self, now: i64) -> (r: Vec<FileEvent>)
        requires
            old(self).wf(),
        ensures
            final(self).wf(),
            final(self).delay() == old(self).delay(),
            forall|k: Seq<char>| #[trigger] final(self).waiting().contains_key(k) <==> (old(self).waiting().contains_key(k)
                && !quiet_since(old(self).waiting()[k].1, now, old(self).delay())),
            forall|k: Seq<char>| #[trigger] final(self).waiting().contains_key(k) ==> final(self).waiting()[k] == old(self).waiting()[k],
            forall|i: int| 0 <= i < r@.len() ==> old(self).waiting().contains_key((#[trigger] r@[i]).file_path@)
                && old(self).waiting()[r@[i].file_path@].0 == r@[i]
                && quiet_since(old(self).waiting()[r@[i].file_path@].1, now, old(self).delay()),
            forall|k: Seq<char>| #[trigger] old(self).waiting().contains_key(k) && quiet_since(old(self).waiting()[k].1, now, old(self).delay())
                ==> exists|i: int| 0 <= i < r@.len() && (#[trigger] r@[i]).file_path@ == k,
            forall|i: int, j: int| 0 <= i < r@.len() && 0 <= j < r@.len() && i != j ==> (#[trigger] r@[i]).file_path@
                != (#[trigger] r@[j]).file_path@,
    {
        let ghost m0 = self.pending@;
        let ghost delay = self.debounce_ms;
        proof {
            self.pending.lemma_keys();
        }
        let keys = self.pending.keys();
        let ghost ks = old(self).pending.key_seq();
        let mut out: Vec<FileEvent> = Vec::new();
        let n = keys.len();
        for t in 0..n
            invariant
                n == keys@.len(),
                n == ks.len(),
                ks.no_duplicates(),
                forall|a: int| 0 <= a < n ==> #[trigger] keys@[a]@ == ks[a],
                forall|a: int| 0 <= a < n ==> #[trigger] m0.contains_key(ks[a]),
                forall|k: Seq<char>| #[trigger] m0.contains_key(k) ==> ks.contains(k),
                forall|k: Seq<char>| #[trigger] m0.contains_key(k) ==> m0[k].0.file_path@ == k,
                self.debounce_ms == delay,
                self.wf(),
                forall|k: Seq<char>| #[trigger] self.pending@.contains_key(k) <==> (m0.contains_key(k) && !(
                    ks.take(t as int).contains(k) && quiet_since(m0[k].1, now, delay))),
                forall|k: Seq<char>| #[trigger] self.pending@.contains_key(k) ==> self.pending@[k] == m0[k],
                forall|i: int| 0 <= i < out@.len() ==> m0.contains_key((#[trigger] out@[i]).file_path@)
                    && m0[out@[i].file_path@].0 == out@[i] && ks.take(t as int).contains(out@[i].file_path@)
                    && quiet_since(m0[out@[i].file_path@].1, now, delay),
                forall|k: Seq<char>| #[trigger] m0.contains_key(k) && ks.take(t as int).contains(k) && quiet_since(m0[k].1, now, delay)
                    ==> exists|i: int| 0 <= i < out@.len() && (#[trigger] out@[i]).file_path@ == k,
                forall|i: int, j: int| 0 <= i < out@.len() && 0 <= j < out@.len() && i != j ==> (#[trigger] out@[i]).file_path@
                    != (#[trigger] out@[j]).file_path@,
        {
            let ghost k = ks[t as int];
            assert(keys@[t as int]@ == k);
            assert(m0.contains_key(k));
            assert(!ks.take(t as int).contains(k)) by {
                let tk = ks.take(t as int);
                if tk.contains(k) {
                    let a = choose|a: int| 0 <= a < tk.len() && tk[a] == k;
                    assert(ks[a] == ks[t as int]);
                }
            }
            assert(self.pending@.contains_key(k));
            let ghost tk = ks.take(t as int);
            let ghost tk1 = ks.take(t + 1);
            assert forall|q: Seq<char>| #[trigger] tk1.contains(q) <==> tk.contains(q) || q == k by {
                if tk1.contains(q) {
                    let a = choose|a: int| 0 <= a < tk1.len() && tk1[a] == q;
                    if a < t {
                        assert(tk[a] == q);
                    }
                }
                if tk.contains(q) {
                    let a = choose|a: int| 0 <= a < tk.len() && tk[a] == q;
                    assert(tk1[a] == q);
                }
                if q == k {
                    assert(tk1[t as int] == q);
                }
            }
            let arrived = match self.pending.get(keys[t].as_str()) {
                Some(entry) => entry.1,
                None => now,
            };
            if now as i128 - arrived as i128 >= self.debounce_ms as i128 {
                let ghost before = out@;
                match self.pending.remove(keys[t].as_str()) {
                    Some(entry) => {
                        out.push(entry.0);
                        proof {
                            assert(out@[before.len() as int].file_path@ == k);
                            assert forall|i: int| 0 <= i < out@.len() implies m0.contains_key((#[trigger] out@[i]).file_path@)
                                && m0[out@[i].file_path@].0 == out@[i] && ks.take(t + 1).contains(out@[i].file_path@)
                                && quiet_since(m0[out@[i].file_path@].1, now, delay) by {
                                if i < before.len() {
                                    assert(out@[i] == before[i]);
                                }
                            }
                            assert forall|q: Seq<char>| #[trigger] m0.contains_key(q) && ks.take(t + 1).contains(q) && quiet_since(m0[q].1, now, delay)
                                implies exists|i: int| 0 <= i < out@.len() && (#[trigger] out@[i]).file_path@ == q by {
                                if q == k {
                                    assert(out@[before.len() as int].file_path@ == q);
                                } else {
                                    assert(ks.take(t as int).contains(q));
                                    let i = choose|i: int| 0 <= i < before.len() && (#[trigger] before[i]).file_path@ == q;
                                    assert(out@[i] == before[i]);
                                }
                            }
                            assert forall|i: int, j: int| 0 <= i < out@.len() && 0 <= j < out@.len() && i != j implies (#[trigger] out@[i]).file_path@
                                != (#[trigger] out@[j]).file_path@ by {
                                if i < before.len() && j < before.len() {
                                    assert(out@[i] == before[i] && out@[j] == before[j]);
                                } else if i < before.len() {
                                    assert(out@[i] == before[i]);
                                    assert(ks.take(t as int).contains(before[i].file_path@));
                                } else if j < before.len() {
                                    assert(out@[j] == before[j]);
                                    assert(ks.take(t as int).contains(before[j].file_path@));
                                }
                            }
                        }
                    },
                    None => {},
                }
            } else {
                proof {
                    assert(!quiet_since(m0[k].1, now, delay));
                }
            }
        }
        proof {
            assert(ks.take(n as int) == ks);
        }
        out
    }
}

} // verus!
