//! Filesystem events with their attribution: the kind of change, who made
//! it, and the text forms of both.
use vstd::prelude::*;
use crate::text::{concat, str_eq};

verus! {

/// Type of filesystem event.
#[derive(Debug, Clone, Copy, PartialEq, Eq, Hash, Structural)]
pub enum EventType {
    Created,
    Modified,
    Deleted,
    Renamed,
}

/// The text form of an event type.
pub open spec fn event_type_text(e: EventType) -> Seq<char> {
    match e {
        EventType::Created => "created"@,
        EventType::Modified => "modified"@,
        EventType::Deleted => "deleted"@,
        EventType::Renamed => "renamed"@,
    }
}

/// The event type whose text form is `s`, if any.
pub open spec fn event_type_from_text(s: Seq<char>) -> Option<EventType> {
    if s == "created"@ {
        Some(EventType::Created)
    } else if s == "modified"@ {
        Some(EventType::Modified)
    } else if s == "deleted"@ {
        Some(EventType::Deleted)
    } else if s == "renamed"@ {
        Some(EventType::Renamed)
    } else {
        None
    }
}

impl EventType {
    /// The lower-case text form (`"created"`, `"modified"`, ...).
    pub fn as_str(&self) -> (r: &'static str)
        ensures
            r@ == event_type_text(*self),
    {
        match self {
            EventType::Created => "created",
            EventType::Modified => "modified",
            EventType::Deleted => "deleted",
            EventType::Renamed => "renamed",
        }
    }

    /// Parses the text form; any other text is an `InvalidEventType` error
    /// carrying the text.
    pub fn parse(s: &str) -> (r: Result<EventType, ParseError>)
        ensures
            match event_type_from_text(s@) {
                Some(e) => r == Ok::<EventType, ParseError>(e),
                None => r matches Err(ParseError::InvalidEventType(t)) && t@ == s@,
            },
    {
        if str_eq(s, "created") {
            Ok(EventType::Created)
        } else if str_eq(s, "modified") {
            Ok(EventType::Modified)
        } else if str_eq(s, "deleted") {
            Ok(EventType::Deleted)
        } else if str_eq(s, "renamed") {
            Ok(EventType::Renamed)
        } else {
            Err(ParseError::InvalidEventType(s.to_owned()))
        }
    }
}

impl std::str::FromStr for EventType {
    type Err = ParseError;

    fn from_str(s: &str) -> (r: Result<Self, Self::Err>)
        ensures
            match event_type_from_text(s@) {
                Some(e) => r == Ok::<EventType, ParseError>(e),
                None => r matches Err(ParseError::InvalidEventType(t)) && t@ == s@,
            },
    {
        EventType::parse(s)
    }
}

/// Source of a filesystem change.
#[derive(Debug, Clone, Copy, PartialEq, Eq, Hash, Structural)]
pub enum Source {
    User,
    AiAgent,
    Git,
    Build,
    Voice,
}

/// The text form of a source.
pub open spec fn source_text(s: Source) -> Seq<char> {
    match s {
        Source::User => "user"@,
        Source::AiAgent => "ai_agent"@,
        Source::Git => "git"@,
        Source::Build => "build"@,
        Source::Voice => "voice"@,
    }
}

/// The source whose text form is `s`, if any.
pub open spec fn source_from_text(s: Seq<char>) -> Option<Source> {
    if s == "user"@ {
        Some(Source::User)
    } else if s == "ai_agent"@ {
        Some(Source::AiAgent)
    } else if s == "git"@ {
        Some(Source::Git)
    } else if s == "build"@ {
        Some(Source::Build)
    } else if s == "voice"@ {
        Some(Source::Voice)
    } else {
        None
    }
}

impl Source {
    /// The snake-case text form (`"user"`, `"ai_agent"`, ...).
    pub fn as_str(&self) -> (r: &'static str)
        ensures
            r@ == source_text(*self),
    {
        match self {
            Source::User => "user",
            Source::AiAgent => "ai_agent",
            Source::Git => "git",
            Source::Build => "build",
            Source::Voice => "voice",
        }
    }

    /// Parses the text form; any other text is an `InvalidSource` error
    /// carrying the text.
    pub fn parse(s: &str) -> (r: Result<Source, ParseError>)
        ensures
            match source_from_text(s@) {
                Some(x) => r == Ok::<Source, ParseError>(x),
                None => r matches Err(ParseError::InvalidSource(t)) && t@ == s@,
            },
    {
        if str_eq(s, "user") {
            Ok(Source::User)
        } else if str_eq(s, "ai_agent") {
            Ok(Source::AiAgent)
        } else if str_eq(s, "git") {
            Ok(Source::Git)
        } else if str_eq(s, "build") {
            Ok(Source::Build)
        } else if str_eq(s, "voice") {
            Ok(Source::Voice)
        } else {
            Err(ParseError::InvalidSource(s.to_owned()))
        }
    }
}

impl std::str::FromStr for Source {
    type Err = ParseError;

    fn from_str(s: &str) -> (r: Result<Self, Self::Err>)
        ensures
            match source_from_text(s@) {
                Some(x) => r == Ok::<Source, ParseError>(x),
                None => r matches Err(ParseError::InvalidSource(t)) && t@ == s@,
            },
    {
        Source::parse(s)
    }
}

impl Default for Source {
    /// Changes are attributed to the user unless something else is known.
    fn default() -> (r: Self)
        ensures
            r == Source::User,
    {
        Source::User
    }
}

/// Reading each text form back gives the value it was written from, for
/// event types and for sources alike.
pub proof fn law_text_roundtrip(e: EventType, s: Source)
    ensures
        event_type_from_text(event_type_text(e)) == Some(e),
        source_from_text(source_text(s)) == Some(s),
{
    reveal_strlit("created");
    reveal_strlit("modified");
    reveal_strlit("deleted");
    reveal_strlit("renamed");
    reveal_strlit("user");
    reveal_strlit("ai_agent");
    reveal_strlit("git");
    reveal_strlit("build");
    reveal_strlit("voice");
    assert("created"@[0] == 'c' && "modified"@[0] == 'm' && "deleted"@[0] == 'd' && "renamed"@[0] == 'r');
    assert("user"@[0] == 'u' && "ai_agent"@[0] == 'a' && "git"@[0] == 'g' && "build"@[0] == 'b' && "voice"@[0] == 'v');
}

/// Errors from parsing event/source strings.
#[derive(Debug, Clone, PartialEq, Eq)]
pub enum ParseError {
    InvalidEventType(String),
    InvalidSource(String),
}

impl ParseError {
    /// The error's message, e.g. `invalid event type: bogus`.
    pub fn message(&self) -> (r: String)
        ensures
            r@ == match self {
                ParseError::InvalidEventType(t) => "invalid event type: "@ + t@,
                ParseError::InvalidSource(t) => "invalid source: "@ + t@,
            },
    {
        match self {
            ParseError::InvalidEventType(t) => concat("invalid event type: ", t.as_str()),
            ParseError::InvalidSource(t) => concat("invalid source: ", t.as_str()),
        }
    }
}

/// The current time in milliseconds since the Unix epoch
/// (`chrono::Utc::now().timestamp_millis()`); nothing is stated of it.
#[verifier::external_body]
pub(crate) fn now_millis() -> i64 {
    chrono::Utc::now().timestamp_millis()
}

/// A filesystem event with full attribution.
#[derive(Debug, Clone, PartialEq, Eq)]
pub struct FileEvent {
    /// When the event occurred, in milliseconds since the Unix epoch.
    pub timestamp: i64,
    /// What type of event.
    pub event_type: EventType,
    /// File path relative to project root.
    pub file_path: String,
    /// Project this event belongs to.
    pub project_id: String,
    /// Who caused this change.
    pub source: Source,
    /// Optional identifier for the source (e.g. chat_id, commit hash).
    pub source_id: Option<String>,
    /// Machine that generated this event.
    pub machine_id: String,
    /// blake3 hash of file content (None for deletes).
    pub content_hash: Option<String>,
    /// Previous path (renames only).
    pub old_path: Option<String>,
}

impl FileEvent {
    /// An event stamped with the current time, attributed to the default
    /// source, with no source id, content hash or old path.
    pub fn new(event_type: EventType, file_path: &str, project_id: &str, machine_id: &str) -> (r: Self)
        ensures
            r.event_type == event_type,
            r.file_path@ == file_path@,
            r.project_id@ == project_id@,
            r.machine_id@ == machine_id@,
            r.source == Source::User,
            r.source_id is None,
            r.content_hash is None,
            r.old_path is None,
    {
        FileEvent {
            timestamp: now_millis(),
            event_type,
            file_path: file_path.to_owned(),
            project_id: project_id.to_owned(),
            source: Source::default(),
            source_id: None,
            machine_id: machine_id.to_owned(),
            content_hash: None,
            old_path: None,
        }
    }

    /// The event attributed to `source`.
    pub fn with_source(self, source: Source) -> (r: Self)
        ensures
            r == (FileEvent { source, ..self }),
    {
        FileEvent { source, ..self }
    }

    /// The event with a source identifier.
    pub fn with_source_id(self, source_id: &str) -> (r: Self)
        ensures
            r.source_id matches Some(x) && x@ == source_id@,
            r == (FileEvent { source_id: r.source_id, ..self }),
    {
        FileEvent { source_id: Some(source_id.to_owned()), ..self }
    }

    /// The event with a content hash.
    pub fn with_content_hash(self, hash: &str) -> (r: Self)
        ensures
            r.content_hash matches Some(x) && x@ == hash@,
            r == (FileEvent { content_hash: r.content_hash, ..self }),
    {
        FileEvent { content_hash: Some(hash.to_owned()), ..self }
    }

    /// The event with the path it was renamed from.
    pub fn with_old_path(self, old_path: &str) -> (r: Self)
        ensures
            r.old_path matches Some(x) && x@ == old_path@,
            r == (FileEvent { old_path: r.old_path, ..self }),
    {
        FileEvent { old_path: Some(old_path.to_owned()), ..self }
    }

    /// The event stamped with `ts` (milliseconds since the Unix epoch).
    pub fn with_timestamp(self, ts: i64) -> (r: Self)
        ensures
            r == (FileEvent { timestamp: ts, ..self }),
    {
        FileEvent { timestamp: ts, ..self }
    }

    /// A rename that records the path it came from.
    pub fn is_rename(&self) -> (r: bool)
        ensures
            r == (self.event_type == EventType::Renamed && self.old_path is Some),
    {
        self.event_type == EventType::Renamed && self.old_path.is_some()
    }
}

} // verus!
