//! The event message exchanged between daemons and through the gateway,
//! and its conversions to and from file events.  Message times are whole
//! seconds; event times are milliseconds.
use vstd::prelude::*;
use crate::agents::{representable_secs, secs_representable};
use crate::store::copy_text;
use crate::event::{
    event_type_from_text, event_type_text, law_text_roundtrip, source_from_text, source_text, EventType,
    FileEvent, Source,
};

verus! {

/// A file event as daemons exchange it.
#[derive(Debug, Clone, PartialEq, Eq)]
pub struct FileEventMessage {
    /// Seconds since the Unix epoch.
    pub timestamp: i64,
    pub event_type: String,
    pub file_path: String,
    pub project_id: String,
    pub source: String,
    pub source_id: Option<String>,
    pub machine_id: String,
    pub content_hash: Option<String>,
    pub old_path: Option<String>,
}

impl FileEventMessage {
    /// A field-by-field copy.
    pub fn duplicate(&self) -> (r: Self)
        ensures
            r == *self,
    {
        FileEventMessage {
            timestamp: self.timestamp,
            event_type: self.event_type.clone(),
            file_path: self.file_path.clone(),
            project_id: self.project_id.clone(),
            source: self.source.clone(),
            source_id: copy_text(&self.source_id),
            machine_id: self.machine_id.clone(),
            content_hash: copy_text(&self.content_hash),
            old_path: copy_text(&self.old_path),
        }
    }
}

/// The whole seconds of a millisecond time, rounded down.
pub open spec fn floor_seconds(ms: i64) -> int {
    ms as int / 1000
}

/// `msg` carries `e`: its time in whole seconds (rounded down), its type
/// and source by name, every other field as it is.
pub open spec fn carries(msg: FileEventMessage, e: FileEvent) -> bool {
    &&& msg.timestamp == floor_seconds(e.timestamp)
    &&& msg.event_type@ == event_type_text(e.event_type)
    &&& msg.source@ == source_text(e.source)
    &&& msg.file_path == e.file_path
    &&& msg.project_id == e.project_id
    &&& msg.source_id == e.source_id
    &&& msg.machine_id == e.machine_id
    &&& msg.content_hash == e.content_hash
    &&& msg.old_path == e.old_path
}

/// The whole seconds of `ms`, rounded down.
fn seconds_of(ms: i64) -> (r: i64)
    ensures
        r == floor_seconds(ms),
{
    if ms >= 0 {
        ms / 1000
    } else {
        let a: i64 = -(ms + 1);
        let q: i64 = a / 1000;
        assert(-q - 1 == ms as int / 1000) by (nonlinear_arith)
            requires
                ms < 0,
                a == -(ms + 1),
                q == a / 1000,
        ;
        -q - 1
    }
}

/// The message that carries `event`.
pub fn file_event_to_message(event: &FileEvent) -> (r: FileEventMessage)
    ensures
        carries(r, *event),
{
    FileEventMessage {
        timestamp: seconds_of(event.timestamp),
        event_type: event.event_type.as_str().to_string(),
        file_path: event.file_path.clone(),
        project_id: event.project_id.clone(),
        source: event.source.as_str().to_string(),
        source_id: copy_text(&event.source_id),
        machine_id: event.machine_id.clone(),
        content_hash: copy_text(&event.content_hash),
        old_path: copy_text(&event.old_path),
    }
}

/// A message can be read as an event: its type and source name one, and
/// its time is an instant chrono can hold whose milliseconds fit.
pub open spec fn convertible(msg: FileEventMessage) -> bool {
    &&& event_type_from_text(msg.event_type@) is Some
    &&& source_from_text(msg.source@) is Some
    &&& representable_secs(msg.timestamp)
    &&& i64::MIN <= msg.timestamp * 1000 <= i64::MAX
}

/// `e` is the event `msg` describes, recorded for `machine`.
pub open spec fn converted(msg: FileEventMessage, machine: Seq<char>, e: FileEvent) -> bool {
    &&& Some(e.event_type) == event_type_from_text(msg.event_type@)
    &&& Some(e.source) == source_from_text(msg.source@)
    &&& e.timestamp == msg.timestamp * 1000
    &&& e.file_path == msg.file_path
    &&& e.project_id == msg.project_id
    &&& e.machine_id@ == machine
    &&& e.source_id == msg.source_id
    &&& e.content_hash == msg.content_hash
    &&& e.old_path == msg.old_path
}

/// The event a message describes, recorded for `machine_id`: `None` when
/// its type or source names none, or its time is not an instant chrono can
/// hold (or not a number of milliseconds that fits).
pub fn message_to_file_event(msg: &FileEventMessage, machine_id: &str) -> (r: Option<FileEvent>)
    ensures
        !convertible(*msg) ==> r is None,
        convertible(*msg) ==> (r matches Some(e) && converted(*msg, machine_id@, e)),
{
    let event_type = match EventType::parse(msg.event_type.as_str()) {
        Ok(t) => t,
        Err(_) => {
            return None;
        },
    };
    let source = match Source::parse(msg.source.as_str()) {
        Ok(s) => s,
        Err(_) => {
            return None;
        },
    };
    if !secs_representable(msg.timestamp) {
        return None;
    }
    let ms = match msg.timestamp.checked_mul(1000) {
        Some(v) => v,
        None => {
            return None;
        },
    };
    Some(
        FileEvent {
            timestamp: ms,
            event_type,
            file_path: msg.file_path.clone(),
            project_id: msg.project_id.clone(),
            source,
            source_id: copy_text(&msg.source_id),
            machine_id: machine_id.to_string(),
            content_hash: copy_text(&msg.content_hash),
            old_path: copy_text(&msg.old_path),
        },
    )
}

/// Sending an event and reading the message back gives the same event,
/// with its time rounded down to the second and the receiving machine's
/// id, whenever that second is representable.
pub proof fn law_message_roundtrip(e: FileEvent, msg: FileEventMessage)
    requires
        carries(msg, e),
    ensures
        event_type_from_text(msg.event_type@) == Some(e.event_type),
        source_from_text(msg.source@) == Some(e.source),
        msg.timestamp * 1000 <= e.timestamp < msg.timestamp * 1000 + 1000,
{
    law_text_roundtrip(e.event_type, e.source);
    assert(msg.timestamp * 1000 <= e.timestamp < msg.timestamp * 1000 + 1000) by (nonlinear_arith)
        requires
            msg.timestamp == e.timestamp as int / 1000,
    ;
}

} // verus!
