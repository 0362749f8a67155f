//! Cross-machine sync: the peers to sync with, how far each was synced,
//! which incoming events are imported, and what can go wrong.
use vstd::prelude::*;
use crate::assoc::Assoc;
use crate::event::FileEvent;
use crate::grpc::{convertible, converted, message_to_file_event, FileEventMessage};
use crate::state::ServerState;
use crate::store::EventFilter;
use crate::text::{concat, str_eq};

verus! {

/// Peer configuration for sync.
#[derive(Debug, Clone, PartialEq, Eq)]
pub struct PeerConfig {
    /// Peer address (host:port).
    pub addr: String,
    /// Project ID to sync.
    pub project_id: String,
}

impl PeerConfig {
    /// A peer at `addr` syncing `project_id`.
    pub fn new(addr: &str, project_id: &str) -> (r: Self)
        ensures
            r.addr@ == addr@,
            r.project_id@ == project_id@,
    {
        PeerConfig { addr: addr.to_string(), project_id: project_id.to_string() }
    }
}

/// Sync errors.
#[derive(Debug, Clone, PartialEq, Eq)]
pub enum SyncError {
    Connection(String),
    Rpc(String),
    Stream(String),
    Conversion(String),
    Store(String),
}

/// The message of a sync error: its kind, a colon, and the detail.
pub open spec fn sync_error_text(e: SyncError) -> Seq<char> {
    match e {
        SyncError::Connection(m) => "connection error: "@ + m@,
        SyncError::Rpc(m) => "rpc error: "@ + m@,
        SyncError::Stream(m) => "stream error: "@ + m@,
        SyncError::Conversion(m) => "conversion error: "@ + m@,
        SyncError::Store(m) => "store error: "@ + m@,
    }
}

impl SyncError {
    /// `"connection error: .."`, `"rpc error: .."` and so on.
    pub fn message(&self) -> (r: String)
        ensures
            r@ == sync_error_text(*self),
    {
        match self {
            SyncError::Connection(m) => concat("connection error: ", m.as_str()),
            SyncError::Rpc(m) => concat("rpc error: ", m.as_str()),
            SyncError::Stream(m) => concat("stream error: ", m.as_str()),
            SyncError::Conversion(m) => concat("conversion error: ", m.as_str()),
            SyncError::Store(m) => concat("store error: ", m.as_str()),
        }
    }
}

/// The duration of `secs` seconds (`Duration::from_secs`).
pub uninterp spec fn duration_of_secs(secs: u64) -> core::time::Duration;

/// `core::time::Duration::from_secs(secs)`; the name above stands for it.
#[verifier::external_body]
fn seconds(secs: u64) -> (r: core::time::Duration)
    ensures
        r == duration_of_secs(secs),
{
    core::time::Duration::from_secs(secs)
}

/// What a daemon asks a peer for: the events of a project that the peer
/// saw since a time (seconds), on behalf of this machine.
#[derive(Debug, Clone, PartialEq, Eq)]
pub struct SyncEventsRequest {
    pub project_id: String,
    pub machine_id: String,
    pub since_timestamp: i64,
}

/// `existing` already holds an event at the same time, on the same path,
/// from the same machine as `e`.
pub open spec fn is_duplicate(e: FileEvent, existing: Seq<FileEvent>) -> bool {
    exists|i: int|
        0 <= i < existing.len() && (#[trigger] existing[i]).timestamp == e.timestamp && existing[i].file_path@
            == e.file_path@ && existing[i].machine_id@ == e.machine_id@
}

/// Whether `existing` already holds `e` (see `is_duplicate`).
pub fn has_duplicate(e: &FileEvent, existing: &[FileEvent]) -> (r: bool)
    ensures
        r == is_duplicate(*e, existing@),
{
    for i in 0..existing.len()
        invariant
            forall|j: int|
                0 <= j < i ==> !((#[trigger] existing@[j]).timestamp == e.timestamp && existing@[j].file_path@
                    == e.file_path@ && existing@[j].machine_id@ == e.machine_id@),
    {
        if existing[i].timestamp == e.timestamp && str_eq(existing[i].file_path.as_str(), e.file_path.as_str())
            && str_eq(existing[i].machine_id.as_str(), e.machine_id.as_str()) {
            return true;
        }
    }
    false
}

/// The query that finds the stored events an incoming one may duplicate:
/// those of the same project and file from one second before it on;
/// `None` when that time is not representable.
pub fn duplicate_query(e: &FileEvent) -> (r: Option<EventFilter>)
    ensures
        e.timestamp - 1000 < i64::MIN ==> r is None,
        e.timestamp - 1000 >= i64::MIN ==> (r matches Some(f) && f.project_id == Some(e.project_id)
            && f.file_path == Some(e.file_path) && f.since == Some((e.timestamp - 1000) as i64) && f.source is None
            && f.limit is None),
{
    let start = match e.timestamp.checked_sub(1000) {
        Some(v) => v,
        None => {
            return None;
        },
    };
    Some(
        EventFilter {
            project_id: Some(e.project_id.clone()),
            file_path: Some(e.file_path.clone()),
            source: None,
            since: Some(start),
            limit: None,
        },
    )
}

/// Syncs events with peer daemons on an interval.
#[derive(Debug)]
pub struct SyncManager {
    /// This machine's id.
    pub machine_id: String,
    pub peers: Vec<PeerConfig>,
    pub sync_interval: core::time::Duration,
    /// When each peer (by address) was last synced, in seconds.
    pub last_sync: Assoc<i64>,
}

impl SyncManager {
    /// A manager for the machine of `state` and `peers`, syncing every
    /// thirty seconds, with no peer synced yet.
    pub fn new(state: &ServerState, peers: Vec<PeerConfig>) -> (r: Self)
        ensures
            r.machine_id@ == state.machine_id@,
            r.peers == peers,
            r.sync_interval == duration_of_secs(30),
            r.last_sync.wf(),
            r.last_sync@ == Map::<Seq<char>, i64>::empty(),
    {
        SyncManager {
            machine_id: state.machine_id.clone(),
            peers,
            sync_interval: seconds(30),
            last_sync: Assoc::new(),
        }
    }

    /// The manager syncing every `interval`.
    pub fn with_interval(self, interval: core::time::Duration) -> (r: Self)
        ensures
            r == (SyncManager { sync_interval: interval, ..self }),
    {
        SyncManager { sync_interval: interval, ..self }
    }

    /// Where the next sync with the peer at `addr` starts: its last sync
    /// time, or 0 when it was never synced.
    pub fn since_for(&self, addr: &str) -> (r: i64)
        requires
            self.last_sync.wf(),
        ensures
            self.last_sync@.contains_key(addr@) ==> r == self.last_sync@[addr@],
            !self.last_sync@.contains_key(addr@) ==> r == 0,
    {
        match self.last_sync.get(addr) {
            Some(t) => *t,
            None => 0,
        }
    }

    /// The request for the events of `peer`'s project since its last sync.
    pub fn request_for(&self, peer: &PeerConfig) -> (r: SyncEventsRequest)
        requires
            self.last_sync.wf(),
        ensures
            r.project_id@ == peer.project_id@,
            r.machine_id@ == self.machine_id@,
            self.last_sync@.contains_key(peer.addr@) ==> r.since_timestamp == self.last_sync@[peer.addr@],
            !self.last_sync@.contains_key(peer.addr@) ==> r.since_timestamp == 0,
    {
        SyncEventsRequest {
            project_id: peer.project_id.clone(),
            machine_id: self.machine_id.clone(),
            since_timestamp: self.since_for(peer.addr.as_str()),
        }
    }

    /// Records that the peer at `addr` was synced at `now` (seconds).
    pub fn record_sync(&mut self, addr: String, now: i64)
        requires
            old(self).last_sync.wf(),
        ensures
            final(self).last_sync.wf(),
            final(self).last_sync@ == old(self).last_sync@.insert(addr@, now),
            final(self).machine_id == old(self).machine_id,
            final(self).peers == old(self).peers,
            final(self).sync_interval == old(self).sync_interval,
    {
        self.last_sync.insert(addr, now);
    }

    /// What becomes of a message received from a peer, given the stored
    /// events it may duplicate: this machine's own events are skipped, a
    /// message that names no event is a conversion error, and a duplicate
    /// is skipped; any other message is the event to import.
    pub fn accept_message(&self, msg: &FileEventMessage, existing: &[FileEvent]) -> (r: Result<
        Option<FileEvent>,
        SyncError,
    >)
        ensures
            msg.machine_id@ == self.machine_id@ ==> r == Ok::<Option<FileEvent>, SyncError>(None),
            msg.machine_id@ != self.machine_id@ && !convertible(*msg) ==> (r matches Err(SyncError::Conversion(m))
                && m@ == "failed to convert event for "@ + msg.file_path@),
            msg.machine_id@ != self.machine_id@ && convertible(*msg) ==> (r matches Ok(o) && match o {
                Some(e) => converted(*msg, self.machine_id@, e) && !is_duplicate(e, existing@),
                None => exists|e: FileEvent| converted(*msg, self.machine_id@, e) && is_duplicate(e, existing@),
            }),
    {
        if str_eq(msg.machine_id.as_str(), self.machine_id.as_str()) {
            return Ok(None);
        }
        let event = match message_to_file_event(msg, self.machine_id.as_str()) {
            Some(e) => e,
            None => {
                return Err(SyncError::Conversion(concat("failed to convert event for ", msg.file_path.as_str())));
            },
        };
        if has_duplicate(&event, existing) {
            return Ok(None);
        }
        Ok(Some(event))
    }
}

} // verus!
