//! Per-file awareness: who changed a file last, how recently, and what is
//! known of its content.  Times are milliseconds since the Unix epoch.
use vstd::prelude::*;
use crate::analysis::FileAnalysis;
use crate::event::{now_millis, FileEvent, Source};
use crate::text::concat;
use crate::text::{push_char, push_signed_decimal, signed_decimal_text};

verus! {

/// Ten minutes, in milliseconds.
pub const HOT_WINDOW_MILLIS: i128 = 600_000;

/// One hour, in milliseconds.
pub const WARM_WINDOW_MILLIS: i128 = 3_600_000;

/// How frequently a file has been changing.
#[derive(Debug, Clone, Copy, PartialEq, Eq, Hash, Structural)]
pub enum ChangeFrequency {
    /// Changed in the last 10 minutes.
    Hot,
    /// Changed in the last hour.
    Warm,
    /// Not changed recently.
    Cold,
}

/// The frequency of a file last modified at `last_modified` as seen at
/// `now`: hot under ten minutes of age (a modification in the future
/// counts as hot), warm under an hour, cold otherwise.
pub open spec fn frequency_of_age(last_modified: int, now: int) -> ChangeFrequency {
    let age = now - last_modified;
    if age < HOT_WINDOW_MILLIS {
        ChangeFrequency::Hot
    } else if age < WARM_WINDOW_MILLIS {
        ChangeFrequency::Warm
    } else {
        ChangeFrequency::Cold
    }
}

/// The lower-case name of a frequency.
pub open spec fn frequency_text(f: ChangeFrequency) -> Seq<char> {
    match f {
        ChangeFrequency::Hot => "hot"@,
        ChangeFrequency::Warm => "warm"@,
        ChangeFrequency::Cold => "cold"@,
    }
}

impl ChangeFrequency {
    /// The frequency from the time of last modification and the current
    /// time.
    pub fn from_age(last_modified: i64, now: i64) -> (r: Self)
        ensures
            r == frequency_of_age(last_modified as int, now as int),
    {
        let age: i128 = now as i128 - last_modified as i128;
        if age < HOT_WINDOW_MILLIS {
            ChangeFrequency::Hot
        } else if age < WARM_WINDOW_MILLIS {
            ChangeFrequency::Warm
        } else {
            ChangeFrequency::Cold
        }
    }

    pub fn as_str(&self) -> (r: &'static str)
        ensures
            r@ == frequency_text(*self),
    {
        proof {
            reveal_strlit("hot");
            reveal_strlit("warm");
            reveal_strlit("cold");
        }
        match self {
            ChangeFrequency::Hot => "hot",
            ChangeFrequency::Warm => "warm",
            ChangeFrequency::Cold => "cold",
        }
    }
}

/// Aggregated awareness state for a single file.
#[derive(Debug, Clone, PartialEq, Eq)]
pub struct FileAwareness {
    pub file_path: String,
    pub project_id: String,
    /// When the file was last modified (milliseconds since the epoch).
    pub last_modified: i64,
    pub modified_by: Source,
    /// Human-readable label for the modifier (e.g. chat title, commit msg).
    pub modified_by_label: Option<String>,
    /// Currently active agent working on this file (if any).
    pub active_agent: Option<String>,
    /// Number of chat conversations that reference this file.
    pub chat_references: u32,
    /// Number of TODO/FIXME/HACK comments.
    pub todo_count: u32,
    /// Number of lint hints/warnings.
    pub lint_hints: u32,
    /// Total line count.
    pub line_count: u32,
    /// How frequently this file changes.
    pub change_frequency: ChangeFrequency,
}

/// Whole seconds between `last_modified` and `now`, truncated toward zero
/// (negative when `last_modified` lies in the future).
pub open spec fn age_seconds(last_modified: int, now: int) -> int {
    let diff = now - last_modified;
    if diff >= 0 {
        diff / 1000
    } else {
        -((-diff) / 1000)
    }
}

/// The short relative form of an age in seconds: seconds under a minute,
/// then whole minutes, hours and days (`"2m"`, `"1h"`, `"3d"`).
pub open spec fn relative_text(secs: int) -> Seq<char> {
    if secs < 60 {
        signed_decimal_text(secs).push('s')
    } else if secs < 3600 {
        signed_decimal_text(secs / 60).push('m')
    } else if secs < 86400 {
        signed_decimal_text(secs / 3600).push('h')
    } else {
        signed_decimal_text(secs / 86400).push('d')
    }
}

/// What `from_event_minimal` fills in, apart from the frequency.
pub open spec fn is_minimal_entry(
    r: FileAwareness,
    file_path: Seq<char>,
    project_id: Seq<char>,
    modified_at: i64,
    source: Source,
) -> bool {
    &&& r.file_path@ == file_path
    &&& r.project_id@ == project_id
    &&& r.last_modified == modified_at
    &&& r.modified_by == source
    &&& r.modified_by_label is None
    &&& r.active_agent is None
    &&& r.chat_references == 0
    &&& r.todo_count == 0
    &&& r.lint_hints == 0
    &&& r.line_count == 0
}

impl FileAwareness {
    /// Whole seconds since the last modification, as seen at `now`.
    pub open spec fn age_seen_at(self, now: i64) -> int {
        age_seconds(self.last_modified as int, now as int)
    }

    /// The change frequency as seen at `now`.
    pub open spec fn frequency_seen_at(self, now: i64) -> ChangeFrequency {
        frequency_of_age(self.last_modified as int, now as int)
    }

    /// A minimal entry for a file modified at `modified_at` by `source`,
    /// with its frequency as seen at `now`.
    pub fn from_event_at(file_path: &str, project_id: &str, modified_at: i64, source: Source, now: i64) -> (r: Self)
        ensures
            is_minimal_entry(r, file_path@, project_id@, modified_at, source),
            r.change_frequency == frequency_of_age(modified_at as int, now as int),
    {
        FileAwareness {
            file_path: file_path.to_string(),
            project_id: project_id.to_string(),
            last_modified: modified_at,
            modified_by: source,
            modified_by_label: None,
            active_agent: None,
            chat_references: 0,
            todo_count: 0,
            lint_hints: 0,
            line_count: 0,
            change_frequency: ChangeFrequency::from_age(modified_at, now),
        }
    }

    /// A minimal entry (e.g. from a single event), its frequency taken at
    /// the current time.
    pub fn from_event_minimal(file_path: &str, project_id: &str, modified_at: i64, source: Source) -> (r: Self)
        ensures
            is_minimal_entry(r, file_path@, project_id@, modified_at, source),
    {
        Self::from_event_at(file_path, project_id, modified_at, source, now_millis())
    }

    /// Whole seconds since the last modification, as seen at `now`.
    pub fn age_secs_at(&self, now: i64) -> (r: i64)
        ensures
            r as int == age_seconds(self.last_modified as int, now as int),
    {
        let diff: i128 = now as i128 - self.last_modified as i128;
        if diff >= 0 {
            (diff / 1000) as i64
        } else {
            let magnitude: i128 = -diff;
            -((magnitude / 1000) as i64)
        }
    }

    /// Whole seconds since the last modification, as seen at the instant
    /// the clock was read.
    pub fn age_secs(&self) -> (r: i64)
        ensures
            exists|now: i64| #[trigger] self.age_seen_at(now) == r as int,
    {
        let now = now_millis();
        let r = self.age_secs_at(now);
        assert(self.age_seen_at(now) == r as int);
        r
    }

    /// The relative age as seen at `now` (e.g. `"2m"`, `"1h"`, `"3d"`).
    pub fn relative_time_at(&self, now: i64) -> (r: String)
        ensures
            r@ == relative_text(age_seconds(self.last_modified as int, now as int)),
    {
        let secs = self.age_secs_at(now);
        let mut s = String::new();
        if secs < 60 {
            push_signed_decimal(&mut s, secs);
            push_char(&mut s, 's');
        } else if secs < 3600 {
            push_signed_decimal(&mut s, secs / 60);
            push_char(&mut s, 'm');
        } else if secs < 86400 {
            push_signed_decimal(&mut s, secs / 3600);
            push_char(&mut s, 'h');
        } else {
            push_signed_decimal(&mut s, secs / 86400);
            push_char(&mut s, 'd');
        }
        s
    }

    /// The relative age (e.g. `"2m"`, `"1h"`, `"3d"`).
    pub fn relative_time(&self) -> (r: String)
        ensures
            exists|now: i64| r@ == relative_text(#[trigger] self.age_seen_at(now)),
    {
        let now = now_millis();
        let r = self.relative_time_at(now);
        assert(r@ == relative_text(self.age_seen_at(now)));
        r
    }

    /// Recomputes the frequency as seen at `now`; nothing else changes.
    pub fn refresh_frequency_at(&mut self, now: i64)
        ensures
            *final(self) == (FileAwareness {
                change_frequency: frequency_of_age(old(self).last_modified as int, now as int),
                ..*old(self)
            }),
    {
        self.change_frequency = ChangeFrequency::from_age(self.last_modified, now);
    }

    /// Recomputes the frequency at the current time; nothing else changes.
    pub fn refresh_frequency(&mut self)
        ensures
            *final(self) == (FileAwareness { change_frequency: final(self).change_frequency, ..*old(self) }),
            exists|now: i64| final(self).change_frequency == #[trigger] old(self).frequency_seen_at(now),
    {
        let now = now_millis();
        self.refresh_frequency_at(now);
        assert(self.change_frequency == old(self).frequency_seen_at(now));
    }
}

/// The frequency only cools with age: a later look never finds a file
/// hotter than an earlier one did.
pub proof fn law_frequency_cools_with_time(last_modified: int, earlier: int, later: int)
    requires
        earlier <= later,
    ensures
        frequency_of_age(last_modified, earlier) == ChangeFrequency::Cold ==> frequency_of_age(
            last_modified,
            later,
        ) == ChangeFrequency::Cold,
        frequency_of_age(last_modified, later) == ChangeFrequency::Hot ==> frequency_of_age(
            last_modified,
            earlier,
        ) == ChangeFrequency::Hot,
{
}

/// Errors while gathering awareness.
#[derive(Debug, Clone, PartialEq, Eq)]
pub enum AwarenessError {
    /// The event store failed.
    Store(String),
    /// The analysis cache failed.
    Cache(String),
}

impl AwarenessError {
    /// `"store error: .."` or `"cache error: .."`.
    pub fn message(&self) -> (r: String)
        ensures
            r@ == match self {
                AwarenessError::Store(m) => "store error: "@ + m@,
                AwarenessError::Cache(m) => "cache error: "@ + m@,
            },
    {
        proof {
            reveal_strlit("store error: ");
            reveal_strlit("cache error: ");
        }
        match self {
            AwarenessError::Store(m) => concat("store error: ", m.as_str()),
            AwarenessError::Cache(m) => concat("cache error: ", m.as_str()),
        }
    }
}

/// The awareness of a file from its latest event, its cached analysis (if
/// any), the agent working on it and its chat references, its frequency
/// as seen at `now`: the event gives path, project, time, source and the
/// source id as label; the analysis gives the marker, lint hint and line
/// counts, which are zero without one.
pub open spec fn is_aggregate(
    r: FileAwareness,
    event: FileEvent,
    analysis: Option<FileAnalysis>,
    active_agent: Option<String>,
    chat_references: u32,
    now: i64,
) -> bool {
    &&& r.file_path@ == event.file_path@
    &&& r.project_id@ == event.project_id@
    &&& r.last_modified == event.timestamp
    &&& r.modified_by == event.source
    &&& r.modified_by_label == event.source_id
    &&& r.active_agent == active_agent
    &&& r.chat_references == chat_references
    &&& r.change_frequency == frequency_of_age(event.timestamp as int, now as int)
    &&& match analysis {
        Some(a) => r.todo_count == a.todo_count && r.lint_hints == a.lint_hints@.len() as u32
            && r.line_count == a.line_count,
        None => r.todo_count == 0 && r.lint_hints == 0 && r.line_count == 0,
    }
}

/// Combines what the event store, the analysis cache and the agent tracker
/// hold of a file into its awareness; no latest event means no history,
/// and `None`.
pub fn aggregate_awareness(
    latest_event: Option<FileEvent>,
    analysis: Option<FileAnalysis>,
    active_agent: Option<String>,
    chat_references: u32,
    now: i64,
) -> (r: Option<FileAwareness>)
    ensures
        latest_event is None <==> r is None,
        latest_event matches Some(e) ==> (r matches Some(a) && is_aggregate(
            a,
            e,
            analysis,
            active_agent,
            chat_references,
            now,
        )),
{
    let event = match latest_event {
        Some(e) => e,
        None => return None,
    };
    let mut awareness = FileAwareness::from_event_at(
        event.file_path.as_str(),
        event.project_id.as_str(),
        event.timestamp,
        event.source,
        now,
    );
    if let Some(a) = analysis {
        awareness.todo_count = a.todo_count;
        awareness.lint_hints = a.lint_hints.len() as u32;
        awareness.line_count = a.line_count;
    }
    awareness.active_agent = active_agent;
    awareness.chat_references = chat_references;
    awareness.modified_by_label = event.source_id;
    Some(awareness)
}

} // verus!
