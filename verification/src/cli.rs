//! The daemon's command line: `ambient-fsd <command> [options]`.
//!
//! Commands are `start [-F|--foreground]`, `stop`, `status`,
//! `watch <PATH>`, `unwatch <ID>`, `events [-s|--since X] [-S|--source X]
//! [-p|--project X] [-l|--limit N]`, `awareness <PROJECT> <PATH>`,
//! `prune [-r|--retention-days N]`, `install-service` and
//! `uninstall-service`.  An option's value follows it as the next argument,
//! after `=` (`--since=1h`), or, for a short option, attached (`-s1h`).
//! `--` ends the options; `-h`/`--help` asks for help anywhere, and
//! `-V`/`--version` before the command asks for the version.
use vstd::prelude::*;
use crate::text::{chars_of, parse_i64, parse_i64_text, parse_usize, parse_usize_text, str_eq, string_of};

verus! {

/// The program's name.
pub const CLI_NAME: &'static str = "ambient-fsd";

/// The program's version.
pub const CLI_VERSION: &'static str = "0.1.0";

/// What the program does, as its help shows it.
pub const CLI_ABOUT: &'static str = "Watch project directories, log file events with source attribution, run background content analysis";

/// A command of the daemon's command line.
#[derive(Debug, Clone, PartialEq, Eq)]
pub enum Command {
    /// Start the daemon (background unless `foreground`).
    Start { foreground: bool },
    /// Stop the daemon.
    Stop,
    /// Show daemon status.
    Status,
    /// Add a project directory to the watch list.
    Watch { path: String },
    /// Remove a project from the watch list.
    Unwatch { id: String },
    /// Query the event log.
    Events { since: Option<String>, source: Option<String>, project: Option<String>, limit: Option<usize> },
    /// Query file awareness state for a project.
    Awareness { project: String, path: String },
    /// Prune old events and analysis records.
    Prune { retention_days: i64 },
    /// Install the service file.
    InstallService,
    /// Uninstall the service file.
    UninstallService,
}

/// A parsed command line.
#[derive(Debug, Clone, PartialEq, Eq)]
pub struct Cli {
    pub command: Command,
}

/// Why a command line gives no command.
#[derive(Debug, Clone, PartialEq, Eq)]
pub enum CliError {
    /// Help was asked for.
    Help,
    /// The version was asked for.
    Version,
    /// No command was given.
    MissingSubcommand,
    /// The command is not known.
    UnknownSubcommand(String),
    /// An argument that the command does not take.
    UnexpectedArgument(String),
    /// The option (by its long name) lacks its value.
    MissingValue(String),
    /// The option (by its long name) was given twice.
    RepeatedOption(String),
    /// The option's value is not of its type.
    InvalidValue { option: String, value: String },
    /// The named positional argument is missing.
    MissingArgument(String),
}

/// The text form of a command.
pub enum CommandView {
    Start { foreground: bool },
    Stop,
    Status,
    Watch { path: Seq<char> },
    Unwatch { id: Seq<char> },
    Events { since: Option<Seq<char>>, source: Option<Seq<char>>, project: Option<Seq<char>>, limit: Option<usize> },
    Awareness { project: Seq<char>, path: Seq<char> },
    Prune { retention_days: i64 },
    InstallService,
    UninstallService,
}

/// The text form of a command-line error.
pub enum CliErrorView {
    Help,
    Version,
    MissingSubcommand,
    UnknownSubcommand(Seq<char>),
    UnexpectedArgument(Seq<char>),
    MissingValue(Seq<char>),
    RepeatedOption(Seq<char>),
    InvalidValue { option: Seq<char>, value: Seq<char> },
    MissingArgument(Seq<char>),
}

pub open spec fn opt_view(o: Option<String>) -> Option<Seq<char>> {
    match o {
        Some(s) => Some(s@),
        None => None,
    }
}

impl View for Command {
    type V = CommandView;

    open spec fn view(&self) -> CommandView {
        match self {
            Command::Start { foreground } => CommandView::Start { foreground: *foreground },
            Command::Stop => CommandView::Stop,
            Command::Status => CommandView::Status,
            Command::Watch { path } => CommandView::Watch { path: path@ },
            Command::Unwatch { id } => CommandView::Unwatch { id: id@ },
            Command::Events { since, source, project, limit } => CommandView::Events {
                since: opt_view(*since),
                source: opt_view(*source),
                project: opt_view(*project),
                limit: *limit,
            },
            Command::Awareness { project, path } => CommandView::Awareness { project: project@, path: path@ },
            Command::Prune { retention_days } => CommandView::Prune { retention_days: *retention_days },
            Command::InstallService => CommandView::InstallService,
            Command::UninstallService => CommandView::UninstallService,
        }
    }
}

impl View for CliError {
    type V = CliErrorView;

    open spec fn view(&self) -> CliErrorView {
        match self {
            CliError::Help => CliErrorView::Help,
            CliError::Version => CliErrorView::Version,
            CliError::MissingSubcommand => CliErrorView::MissingSubcommand,
            CliError::UnknownSubcommand(s) => CliErrorView::UnknownSubcommand(s@),
            CliError::UnexpectedArgument(s) => CliErrorView::UnexpectedArgument(s@),
            CliError::MissingValue(s) => CliErrorView::MissingValue(s@),
            CliError::RepeatedOption(s) => CliErrorView::RepeatedOption(s@),
            CliError::InvalidValue { option, value } => CliErrorView::InvalidValue {
                option: option@,
                value: value@,
            },
            CliError::MissingArgument(s) => CliErrorView::MissingArgument(s@),
        }
    }
}

/// The commands.
#[derive(Debug, Clone, Copy, PartialEq, Eq, Structural)]
pub enum Sub {
    Start,
    Stop,
    Status,
    Watch,
    Unwatch,
    Events,
    Awareness,
    Prune,
    InstallService,
    UninstallService,
}

/// The command named `name`.
pub open spec fn sub_named(name: Seq<char>) -> Option<Sub> {
    if name == "start"@ {
        Some(Sub::Start)
    } else if name == "stop"@ {
        Some(Sub::Stop)
    } else if name == "status"@ {
        Some(Sub::Status)
    } else if name == "watch"@ {
        Some(Sub::Watch)
    } else if name == "unwatch"@ {
        Some(Sub::Unwatch)
    } else if name == "events"@ {
        Some(Sub::Events)
    } else if name == "awareness"@ {
        Some(Sub::Awareness)
    } else if name == "prune"@ {
        Some(Sub::Prune)
    } else if name == "install-service"@ {
        Some(Sub::InstallService)
    } else if name == "uninstall-service"@ {
        Some(Sub::UninstallService)
    } else {
        None
    }
}

/// The option slot of a command's long option `name`: `start` has the
/// flag `foreground`; `events` has `since`, `source`, `project` and
/// `limit`; `prune` has `retention-days`.
pub open spec fn long_slot(sub: Sub, name: Seq<char>) -> Option<int> {
    match sub {
        Sub::Start => if name == "foreground"@ { Some(0) } else { None },
        Sub::Events => if name == "since"@ {
            Some(0)
        } else if name == "source"@ {
            Some(1)
        } else if name == "project"@ {
            Some(2)
        } else if name == "limit"@ {
            Some(3)
        } else {
            None
        },
        Sub::Prune => if name == "retention-days"@ { Some(0) } else { None },
        _ => None,
    }
}

/// The option slot of a command's short option `c`.
pub open spec fn short_slot(sub: Sub, c: char) -> Option<int> {
    match sub {
        Sub::Start => if c == 'F' { Some(0) } else { None },
        Sub::Events => if c == 's' {
            Some(0)
        } else if c == 'S' {
            Some(1)
        } else if c == 'p' {
            Some(2)
        } else if c == 'l' {
            Some(3)
        } else {
            None
        },
        Sub::Prune => if c == 'r' { Some(0) } else { None },
        _ => None,
    }
}

/// The long name of an option slot.
pub open spec fn slot_name(sub: Sub, k: int) -> Seq<char> {
    match sub {
        Sub::Start => "foreground"@,
        Sub::Events => if k == 0 {
            "since"@
        } else if k == 1 {
            "source"@
        } else if k == 2 {
            "project"@
        } else {
            "limit"@
        },
        _ => "retention-days"@,
    }
}

/// Only `start --foreground` is a flag; every other option takes a value.
pub open spec fn is_flag(sub: Sub) -> bool {
    sub == Sub::Start
}

/// Whether `value` is acceptable for the option: `limit` reads as a
/// `usize`, `retention-days` as an `i64`, the others are free text.
pub open spec fn value_ok(sub: Sub, k: int, value: Seq<char>) -> bool {
    if sub == Sub::Events && k == 3 {
        parse_usize_text(value) is Some
    } else if sub == Sub::Prune {
        parse_i64_text(value) is Some
    } else {
        true
    }
}

/// The positional arguments of a command, by name.
pub open spec fn positional_names(sub: Sub) -> Seq<Seq<char>> {
    match sub {
        Sub::Watch => seq!["PATH"@],
        Sub::Unwatch => seq!["ID"@],
        Sub::Awareness => seq!["PROJECT"@, "PATH"@],
        _ => seq![],
    }
}

/// An argument that reads as an option (`-x`, `--xyz`) rather than a value.
pub open spec fn looks_like_option(t: Seq<char>) -> bool {
    t.len() > 1 && t[0] == '-'
}

/// A long option: `--name` or `--name=value`.
pub open spec fn is_long(t: Seq<char>) -> bool {
    t.len() > 2 && t[0] == '-' && t[1] == '-'
}

/// A short option: `-x`, possibly with an attached value.
pub open spec fn is_short(t: Seq<char>) -> bool {
    t.len() > 1 && t[0] == '-' && t[1] != '-'
}

/// The first index at or after `k` where `s` holds `c` (`s.len()` if none).
pub open spec fn find_from(s: Seq<char>, c: char, k: int) -> int
    decreases s.len() - k,
{
    if k < 0 || k >= s.len() {
        s.len() as int
    } else if s[k] == c {
        k
    } else {
        find_from(s, c, k + 1)
    }
}

/// A long option's name and its `=` value, if any.
pub open spec fn split_long(t: Seq<char>) -> (Seq<char>, Option<Seq<char>>) {
    let body = t.subrange(2, t.len() as int);
    let e = find_from(body, '=', 0);
    if e < body.len() {
        (body.subrange(0, e), Some(body.subrange(e + 1, body.len() as int)))
    } else {
        (body, None)
    }
}

/// A short option's attached value, if any (a leading `=` is dropped).
pub open spec fn short_value(t: Seq<char>) -> Option<Seq<char>> {
    let rest = t.subrange(2, t.len() as int);
    if rest.len() == 0 {
        None
    } else if rest[0] == '=' {
        Some(rest.drop_first())
    } else {
        Some(rest)
    }
}

/// What has been read of a command's arguments.
pub struct ScanView {
    pub values: Seq<Option<Seq<char>>>,
    pub flag: bool,
    pub positionals: Seq<Seq<char>>,
    pub after_dashes: bool,
}

/// Nothing read yet.
pub open spec fn scan_start() -> ScanView {
    ScanView { values: seq![None, None, None, None], flag: false, positionals: seq![], after_dashes: false }
}

/// One step of reading option `k` at `toks[i]`, whose value, if given in
/// the same argument, is `inline`: the new state and whether the next
/// argument was consumed as the value.
pub open spec fn take_option(
    sub: Sub,
    k: int,
    inline: Option<Seq<char>>,
    toks: Seq<Seq<char>>,
    i: int,
    st: ScanView,
) -> Result<(ScanView, bool), CliErrorView> {
    if is_flag(sub) {
        if inline is Some {
            Err(CliErrorView::UnexpectedArgument(toks[i]))
        } else if st.flag {
            Err(CliErrorView::RepeatedOption(slot_name(sub, k)))
        } else {
            Ok((ScanView { flag: true, ..st }, false))
        }
    } else if st.values[k] is Some {
        Err(CliErrorView::RepeatedOption(slot_name(sub, k)))
    } else {
        let (value, two) = match inline {
            Some(v) => (Some(v), false),
            None => if i + 1 < toks.len() && !looks_like_option(toks[i + 1]) {
                (Some(toks[i + 1]), true)
            } else {
                (None, false)
            },
        };
        match value {
            None => Err(CliErrorView::MissingValue(slot_name(sub, k))),
            Some(v) => if value_ok(sub, k, v) {
                Ok((ScanView { values: st.values.update(k, Some(v)), ..st }, two))
            } else {
                Err(CliErrorView::InvalidValue { option: slot_name(sub, k), value: v })
            },
        }
    }
}

/// One step of reading the arguments of `sub` at `toks[i]`.
pub open spec fn scan_step(sub: Sub, toks: Seq<Seq<char>>, i: int, st: ScanView) -> Result<
    (ScanView, bool),
    CliErrorView,
> {
    let t = toks[i];
    if !st.after_dashes && t == "--"@ {
        Ok((ScanView { after_dashes: true, ..st }, false))
    } else if !st.after_dashes && t == "--help"@ {
        Err(CliErrorView::Help)
    } else if !st.after_dashes && is_long(t) {
        let (name, inline) = split_long(t);
        match long_slot(sub, name) {
            None => Err(CliErrorView::UnexpectedArgument(t)),
            Some(k) => take_option(sub, k, inline, toks, i, st),
        }
    } else if !st.after_dashes && is_short(t) {
        if t[1] == 'h' {
            Err(CliErrorView::Help)
        } else {
            match short_slot(sub, t[1]) {
                None => Err(CliErrorView::UnexpectedArgument(t)),
                Some(k) => take_option(sub, k, short_value(t), toks, i, st),
            }
        }
    } else if st.positionals.len() < positional_names(sub).len() {
        Ok((ScanView { positionals: st.positionals.push(t), ..st }, false))
    } else {
        Err(CliErrorView::UnexpectedArgument(t))
    }
}

/// Reads the arguments of `sub` from `toks[i]` on.
pub open spec fn scan(sub: Sub, toks: Seq<Seq<char>>, i: int, st: ScanView) -> Result<ScanView, CliErrorView>
    decreases toks.len() - i,
{
    if i < 0 || i >= toks.len() {
        Ok(st)
    } else {
        match scan_step(sub, toks, i, st) {
            Err(e) => Err(e),
            Ok((st2, two)) => scan(sub, toks, if two { i + 2 } else { i + 1 }, st2),
        }
    }
}

/// The command `sub` with what was read of its arguments.
pub open spec fn finish(sub: Sub, st: ScanView) -> Result<CommandView, CliErrorView> {
    let names = positional_names(sub);
    if st.positionals.len() < names.len() {
        Err(CliErrorView::MissingArgument(names[st.positionals.len() as int]))
    } else {
        Ok(
            match sub {
                Sub::Start => CommandView::Start { foreground: st.flag },
                Sub::Stop => CommandView::Stop,
                Sub::Status => CommandView::Status,
                Sub::Watch => CommandView::Watch { path: st.positionals[0] },
                Sub::Unwatch => CommandView::Unwatch { id: st.positionals[0] },
                Sub::Events => CommandView::Events {
                    since: st.values[0],
                    source: st.values[1],
                    project: st.values[2],
                    limit: match st.values[3] {
                        Some(v) => parse_usize_text(v),
                        None => None,
                    },
                },
                Sub::Awareness => CommandView::Awareness { project: st.positionals[0], path: st.positionals[1] },
                Sub::Prune => CommandView::Prune {
                    retention_days: match st.values[0] {
                        Some(v) => match parse_i64_text(v) {
                            Some(d) => d,
                            None => 90,
                        },
                        None => 90,
                    },
                },
                Sub::InstallService => CommandView::InstallService,
                Sub::UninstallService => CommandView::UninstallService,
            },
        )
    }
}

/// What a command line (program name first) means.
pub open spec fn parse_spec(args: Seq<Seq<char>>) -> Result<CommandView, CliErrorView> {
    if args.len() < 2 {
        Err(CliErrorView::MissingSubcommand)
    } else {
        let first = args[1];
        if first == "--help"@ || first == "-h"@ || first == "help"@ {
            Err(CliErrorView::Help)
        } else if first == "--version"@ || first == "-V"@ {
            Err(CliErrorView::Version)
        } else {
            match sub_named(first) {
                None => if looks_like_option(first) {
                    Err(CliErrorView::UnexpectedArgument(first))
                } else {
                    Err(CliErrorView::UnknownSubcommand(first))
                },
                Some(sub) => match scan(sub, args, 2, scan_start()) {
                    Err(e) => Err(e),
                    Ok(st) => finish(sub, st),
                },
            }
        }
    }
}

/// The text of each argument.
pub open spec fn arg_texts(args: Seq<&str>) -> Seq<Seq<char>> {
    args.map_values(|a: &str| a@)
}

/// What has been read of a command's arguments.
struct ScanState {
    values: Vec<Option<String>>,
    flag: bool,
    positionals: Vec<String>,
    after_dashes: bool,
}

impl ScanState {
    spec fn view(&self) -> ScanView {
        ScanView {
            values: self.values@.map_values(|o: Option<String>| opt_view(o)),
            flag: self.flag,
            positionals: self.positionals@.map_values(|p: String| p@),
            after_dashes: self.after_dashes,
        }
    }
}

fn sub_from(name: &str) -> (r: Option<Sub>)
    ensures
        r == sub_named(name@),
{
    if str_eq(name, "start") {
        Some(Sub::Start)
    } else if str_eq(name, "stop") {
        Some(Sub::Stop)
    } else if str_eq(name, "status") {
        Some(Sub::Status)
    } else if str_eq(name, "watch") {
        Some(Sub::Watch)
    } else if str_eq(name, "unwatch") {
        Some(Sub::Unwatch)
    } else if str_eq(name, "events") {
        Some(Sub::Events)
    } else if str_eq(name, "awareness") {
        Some(Sub::Awareness)
    } else if str_eq(name, "prune") {
        Some(Sub::Prune)
    } else if str_eq(name, "install-service") {
        Some(Sub::InstallService)
    } else if str_eq(name, "uninstall-service") {
        Some(Sub::UninstallService)
    } else {
        None
    }
}

fn long_slot_of(sub: Sub, name: &str) -> (r: Option<usize>)
    ensures
        match long_slot(sub, name@) {
            Some(k) => r == Some(k as usize),
            None => r is None,
        },
{
    match sub {
        Sub::Start => if str_eq(name, "foreground") { Some(0) } else { None },
        Sub::Events => if str_eq(name, "since") {
            Some(0)
        } else if str_eq(name, "source") {
            Some(1)
        } else if str_eq(name, "project") {
            Some(2)
        } else if str_eq(name, "limit") {
            Some(3)
        } else {
            None
        },
        Sub::Prune => if str_eq(name, "retention-days") { Some(0) } else { None },
        _ => None,
    }
}

fn short_slot_of(sub: Sub, c: char) -> (r: Option<usize>)
    ensures
        match short_slot(sub, c) {
            Some(k) => r == Some(k as usize),
            None => r is None,
        },
{
    match sub {
        Sub::Start => if c == 'F' { Some(0) } else { None },
        Sub::Events => if c == 's' {
            Some(0)
        } else if c == 'S' {
            Some(1)
        } else if c == 'p' {
            Some(2)
        } else if c == 'l' {
            Some(3)
        } else {
            None
        },
        Sub::Prune => if c == 'r' { Some(0) } else { None },
        _ => None,
    }
}

fn slot_name_of(sub: Sub, k: usize) -> (r: String)
    ensures
        r@ == slot_name(sub, k as int),
{
    match sub {
        Sub::Start => "foreground".to_string(),
        Sub::Events => if k == 0 {
            "since".to_string()
        } else if k == 1 {
            "source".to_string()
        } else if k == 2 {
            "project".to_string()
        } else {
            "limit".to_string()
        },
        _ => "retention-days".to_string(),
    }
}

fn value_ok_for(sub: Sub, k: usize, value: &str) -> (r: bool)
    ensures
        r == value_ok(sub, k as int, value@),
{
    if matches!(sub, Sub::Events) && k == 3 {
        parse_usize(value).is_some()
    } else if matches!(sub, Sub::Prune) {
        parse_i64(value).is_some()
    } else {
        true
    }
}

fn positional_count(sub: Sub) -> (r: usize)
    ensures
        r == positional_names(sub).len(),
{
    match sub {
        Sub::Watch => 1,
        Sub::Unwatch => 1,
        Sub::Awareness => 2,
        _ => 0,
    }
}

fn looks_like_option_exec(t: &str) -> (r: bool)
    ensures
        r == looks_like_option(t@),
{
    let cs = chars_of(t);
    cs.len() > 1 && cs[0] == '-'
}

/// The first index at or after `k` where `s` holds `c`.
fn find_char_from(s: &[char], c: char, k: usize) -> (r: usize)
    requires
        k <= s@.len(),
    ensures
        r as int == find_from(s@, c, k as int),
{
    let mut j = k;
    while j < s.len() && s[j] != c
        invariant
            k <= j <= s@.len(),
            find_from(s@, c, j as int) == find_from(s@, c, k as int),
        decreases s@.len() - j,
    {
        j = j + 1;
    }
    j
}

/// The characters `s[a..b]` as a string.
fn sub_string(s: &[char], a: usize, b: usize) -> (r: String)
    requires
        a <= b <= s@.len(),
    ensures
        r@ == s@.subrange(a as int, b as int),
{
    let mut out: Vec<char> = Vec::new();
    for i in a..b
        invariant
            a <= b <= s@.len(),
            out@ == s@.subrange(a as int, i as int),
    {
        out.push(s[i]);
        assert(s@.subrange(a as int, i + 1) == s@.subrange(a as int, i as int).push(s@[i as int]));
    }
    string_of(out.as_slice())
}

fn take_option_exec(
    sub: Sub,
    k: usize,
    inline: Option<String>,
    args: &[&str],
    i: usize,
    st: &mut ScanState,
) -> (r: Result<bool, CliError>)
    requires
        i < args@.len(),
        k < 4,
        old(st)@.values.len() == 4,
    ensures
        match take_option(sub, k as int, opt_view(inline), arg_texts(args@), i as int, old(st)@) {
            Err(e) => r matches Err(e2) && e2@ == e,
            Ok((st2, two)) => r == Ok::<bool, CliError>(two) && final(st)@ == st2,
        },
        final(st)@.values.len() == 4,
{
    let ghost toks = arg_texts(args@);
    if matches!(sub, Sub::Start) {
        if inline.is_some() {
            return Err(CliError::UnexpectedArgument(args[i].to_string()));
        }
        if st.flag {
            return Err(CliError::RepeatedOption(slot_name_of(sub, k)));
        }
        st.flag = true;
        return Ok(false);
    }
    if st.values[k].is_some() {
        assert(old(st)@.values[k as int] == opt_view(st.values@[k as int]));
        return Err(CliError::RepeatedOption(slot_name_of(sub, k)));
    }
    assert(old(st)@.values[k as int] == opt_view(st.values@[k as int]));
    let mut two = false;
    let value: Option<String> = match inline {
        Some(v) => Some(v),
        None => {
            if i < args.len() - 1 && !looks_like_option_exec(args[i + 1]) {
                two = true;
                Some(args[i + 1].to_string())
            } else {
                None
            }
        },
    };
    match value {
        None => Err(CliError::MissingValue(slot_name_of(sub, k))),
        Some(v) => {
            if value_ok_for(sub, k, v.as_str()) {
                let ghost before = st.values@;
                st.values.set(k, Some(v));
                assert(st@.values =~= old(st)@.values.update(k as int, opt_view(st.values@[k as int])));
                Ok(two)
            } else {
                Err(CliError::InvalidValue { option: slot_name_of(sub, k), value: v })
            }
        },
    }
}

fn scan_step_exec(sub: Sub, args: &[&str], i: usize, st: &mut ScanState) -> (r: Result<bool, CliError>)
    requires
        i < args@.len(),
        old(st)@.values.len() == 4,
    ensures
        match scan_step(sub, arg_texts(args@), i as int, old(st)@) {
            Err(e) => r matches Err(e2) && e2@ == e,
            Ok((st2, two)) => r == Ok::<bool, CliError>(two) && final(st)@ == st2,
        },
        final(st)@.values.len() == 4,
{
    let ghost toks = arg_texts(args@);
    let t: &str = args[i];
    assert(toks[i as int] == t@);
    let cs = chars_of(t);
    let n = cs.len();
    if !st.after_dashes && str_eq(t, "--") {
        st.after_dashes = true;
        return Ok(false);
    }
    if !st.after_dashes && str_eq(t, "--help") {
        return Err(CliError::Help);
    }
    if !st.after_dashes && n > 2 && cs[0] == '-' && cs[1] == '-' {
        let ghost body = t@.subrange(2, n as int);
        let e = find_char_from(cs.as_slice(), '=', 2);
        proof {
            lemma_find_shift(t@, '=', 2, 2);
            lemma_find_range(t@, '=', 2);
        }
        let name = sub_string(cs.as_slice(), 2, e);
        let inline: Option<String> = if e < n {
            Some(sub_string(cs.as_slice(), e + 1, n))
        } else {
            None
        };
        proof {
            let eb = find_from(body, '=', 0);
            assert(e as int == eb + 2);
            if e < n {
                assert(body.subrange(0, eb) =~= t@.subrange(2, e as int));
                assert(body.subrange(eb + 1, body.len() as int) =~= t@.subrange(e + 1, n as int));
            } else {
                assert(body =~= t@.subrange(2, e as int));
            }
        }
        return match long_slot_of(sub, name.as_str()) {
            None => Err(CliError::UnexpectedArgument(t.to_string())),
            Some(k) => take_option_exec(sub, k, inline, args, i, st),
        };
    }
    if !st.after_dashes && n > 1 && cs[0] == '-' && cs[1] != '-' {
        if cs[1] == 'h' {
            return Err(CliError::Help);
        }
        let inline: Option<String> = if n == 2 {
            None
        } else if cs[2] == '=' {
            Some(sub_string(cs.as_slice(), 3, n))
        } else {
            Some(sub_string(cs.as_slice(), 2, n))
        };
        proof {
            let rest = t@.subrange(2, n as int);
            if n > 2 {
                assert(rest.drop_first() =~= t@.subrange(3, n as int));
            }
        }
        return match short_slot_of(sub, cs[1]) {
            None => Err(CliError::UnexpectedArgument(t.to_string())),
            Some(k) => take_option_exec(sub, k, inline, args, i, st),
        };
    }
    if st.positionals.len() < positional_count(sub) {
        st.positionals.push(t.to_string());
        assert(st@.positionals =~= old(st)@.positionals.push(t@));
        return Ok(false);
    }
    Err(CliError::UnexpectedArgument(t.to_string()))
}

/// A search from `k` ends between `k` and the end.
proof fn lemma_find_range(s: Seq<char>, c: char, k: int)
    requires
        0 <= k <= s.len(),
    ensures
        k <= find_from(s, c, k) <= s.len(),
        find_from(s, c, k) < s.len() ==> s[find_from(s, c, k)] == c,
    decreases s.len() - k,
{
    if k < s.len() && s[k] != c {
        lemma_find_range(s, c, k + 1);
    }
}

/// Searching from `k` in `s` finds what searching from `k - shift` in
/// `s` without its first `shift` characters finds, shifted.
proof fn lemma_find_shift(s: Seq<char>, c: char, k: int, shift: int)
    requires
        0 <= shift <= k <= s.len(),
    ensures
        find_from(s, c, k) == find_from(s.subrange(shift, s.len() as int), c, k - shift) + shift,
    decreases s.len() - k,
{
    if k < s.len() && s[k] != c {
        lemma_find_shift(s, c, k + 1, shift);
    }
}

fn finish_exec(sub: Sub, st: ScanState) -> (r: Result<Command, CliError>)
    requires
        st@.values.len() == 4,
        forall|k: int| 0 <= k < 4 ==> (#[trigger] st@.values[k] matches Some(v) ==> value_ok(sub, k, v)),
    ensures
        match finish(sub, st@) {
            Err(e) => r matches Err(e2) && e2@ == e,
            Ok(c) => r matches Ok(c2) && c2@ == c,
        },
{
    let ghost sv = st@;
    let count = positional_count(sub);
    if st.positionals.len() < count {
        let name = match sub {
            Sub::Watch => "PATH",
            Sub::Unwatch => "ID",
            Sub::Awareness => if st.positionals.len() == 0 { "PROJECT" } else { "PATH" },
            _ => "",
        };
        return Err(CliError::MissingArgument(name.to_string()));
    }
    let ScanState { values, flag, positionals, after_dashes: _ } = st;
    assert(sv.values[0] == opt_view(values@[0]));
    assert(sv.values[1] == opt_view(values@[1]));
    assert(sv.values[2] == opt_view(values@[2]));
    assert(sv.values[3] == opt_view(values@[3]));
    let command = match sub {
        Sub::Start => Command::Start { foreground: flag },
        Sub::Stop => Command::Stop,
        Sub::Status => Command::Status,
        Sub::Watch => Command::Watch { path: positionals[0].clone() },
        Sub::Unwatch => Command::Unwatch { id: positionals[0].clone() },
        Sub::Events => {
            let limit = match &values[3] {
                Some(v) => parse_usize(v.as_str()),
                None => None,
            };
            Command::Events {
                since: values[0].clone(),
                source: values[1].clone(),
                project: values[2].clone(),
                limit,
            }
        },
        Sub::Awareness => Command::Awareness { project: positionals[0].clone(), path: positionals[1].clone() },
        Sub::Prune => {
            let days = match &values[0] {
                Some(v) => match parse_i64(v.as_str()) {
                    Some(d) => d,
                    None => 90,
                },
                None => 90,
            };
            Command::Prune { retention_days: days }
        },
        Sub::InstallService => Command::InstallService,
        Sub::UninstallService => Command::UninstallService,
    };
    Ok(command)
}

impl Cli {
    /// Parses a command line, the program name first: the command it
    /// gives, or why it gives none (help and version requests included).
    pub fn try_parse_from(args: &[&str]) -> (r: Result<Cli, CliError>)
        ensures
            match parse_spec(arg_texts(args@)) {
                Err(e) => r matches Err(e2) && e2@ == e,
                Ok(c) => r matches Ok(cli) && cli.command@ == c,
            },
    {
        let ghost toks = arg_texts(args@);
        if args.len() < 2 {
            return Err(CliError::MissingSubcommand);
        }
        let first: &str = args[1];
        assert(toks[1] == first@);
        if str_eq(first, "--help") || str_eq(first, "-h") || str_eq(first, "help") {
            return Err(CliError::Help);
        }
        if str_eq(first, "--version") || str_eq(first, "-V") {
            return Err(CliError::Version);
        }
        let sub = match sub_from(first) {
            Some(s) => s,
            None => {
                return if looks_like_option_exec(first) {
                    Err(CliError::UnexpectedArgument(first.to_string()))
                } else {
                    Err(CliError::UnknownSubcommand(first.to_string()))
                };
            },
        };
        let mut st = ScanState {
            values: vec![None, None, None, None],
            flag: false,
            positionals: Vec::new(),
            after_dashes: false,
        };
        assert(st@.values =~= scan_start().values);
        assert(st@.positionals =~= scan_start().positionals);
        let mut i: usize = 2;
        while i < args.len()
            invariant
                2 <= i,
                toks == arg_texts(args@),
                st@.values.len() == 4,
                scan(sub, toks, i as int, st@) == scan(sub, toks, 2, scan_start()),
                parse_spec(toks) == match scan(sub, toks, 2, scan_start()) {
                    Err(e) => Err(e),
                    Ok(fin) => finish(sub, fin),
                },
                forall|k: int| 0 <= k < 4 ==> (#[trigger] st@.values[k] matches Some(v) ==> value_ok(sub, k, v)),
            decreases args@.len() - i,
        {
            let ghost before = st@;
            match scan_step_exec(sub, args, i, &mut st) {
                Err(e) => {
                    assert(scan(sub, toks, i as int, before) == Err::<ScanView, CliErrorView>(e@));
                    return Err(e);
                },
                Ok(two) => {
                    assert forall|k: int| 0 <= k < 4 implies (#[trigger] st@.values[k] matches Some(v) ==> value_ok(sub, k, v)) by {
                        if before.values[k] is None {
                            assert(st@.values[k] matches Some(v) ==> value_ok(sub, k, v));
                        }
                    }
                    if two {
                        i = if i + 2 < args.len() { i + 2 } else { args.len() };
                    } else {
                        i = i + 1;
                    }
                },
            }
        }
        match finish_exec(sub, st) {
            Ok(command) => Ok(Cli { command }),
            Err(e) => Err(e),
        }
    }
}

/// The index of the first non-digit at or after `k`.
pub open spec fn digits_end(s: Seq<char>, k: int) -> int
    decreases s.len() - k,
{
    if k < 0 || k >= s.len() {
        s.len() as int
    } else if '0' <= s[k] && s[k] <= '9' {
        digits_end(s, k + 1)
    } else {
        k
    }
}

/// Seconds per unit of a duration suffix: `s`/`sec`, `m`/`min`,
/// `h`/`hour`, `d`/`day`.
pub open spec fn unit_seconds(suffix: Seq<char>) -> Option<int> {
    if suffix == "s"@ || suffix == "sec"@ {
        Some(1)
    } else if suffix == "m"@ || suffix == "min"@ {
        Some(60)
    } else if suffix == "h"@ || suffix == "hour"@ {
        Some(3600)
    } else if suffix == "d"@ || suffix == "day"@ {
        Some(86400)
    } else {
        None
    }
}

/// A duration such as `"1h"`, `"30m"` or `"7d"` in seconds: leading
/// digits read as an `i64`, then a unit suffix.
pub open spec fn duration_seconds(s: Seq<char>) -> Option<int> {
    let k = digits_end(s, 0);
    match (parse_i64_text(s.take(k)), unit_seconds(s.skip(k))) {
        (Some(n), Some(u)) => Some(n * u),
        _ => None,
    }
}

/// The longest span a duration may have: `i64::MAX` milliseconds, in
/// whole seconds.
pub const MAX_DURATION_SECONDS: i64 = 9_223_372_036_854_775;

/// Whether the duration, if it reads as one, fits the longest span.
pub open spec fn duration_fits(s: Seq<char>) -> bool {
    duration_seconds(s) matches Some(secs) ==> secs <= MAX_DURATION_SECONDS
}

/// The digit run from `k` ends within `s`, and holds only digits.
proof fn lemma_digits_end(s: Seq<char>, k: int)
    requires
        0 <= k <= s.len(),
    ensures
        k <= digits_end(s, k) <= s.len(),
        forall|j: int| k <= j < digits_end(s, k) ==> '0' <= #[trigger] s[j] && s[j] <= '9',
    decreases s.len() - k,
{
    if k < s.len() && '0' <= s[k] && s[k] <= '9' {
        lemma_digits_end(s, k + 1);
    }
}

/// A number that is all digits reads as a non-negative value.
proof fn lemma_digit_number_nonnegative(d: Seq<char>)
    requires
        forall|j: int| 0 <= j < d.len() ==> '0' <= #[trigger] d[j] && d[j] <= '9',
    ensures
        parse_i64_text(d) matches Some(n) ==> n >= 0,
{
    if d.len() > 0 {
        assert('0' <= d[0] && d[0] <= '9');
    }
}

/// The digit run of a number followed by a unit ends where the number ends.
proof fn lemma_digits_end_before_unit(d: Seq<char>, u: Seq<char>, k: int)
    requires
        0 <= k <= d.len(),
        forall|j: int| 0 <= j < d.len() ==> '0' <= #[trigger] d[j] && d[j] <= '9',
        u.len() > 0 ==> !('0' <= u[0] && u[0] <= '9'),
    ensures
        digits_end(d + u, k) == d.len(),
    decreases d.len() - k,
{
    if k < d.len() {
        assert((d + u)[k] == d[k]);
        lemma_digits_end_before_unit(d, u, k + 1);
    } else if u.len() > 0 {
        assert((d + u)[k] == u[0]);
    }
}

/// A number followed by a unit reads as the number times the unit's span.
proof fn lemma_duration_of(d: Seq<char>, u: Seq<char>)
    requires
        forall|j: int| 0 <= j < d.len() ==> '0' <= #[trigger] d[j] && d[j] <= '9',
        u.len() > 0 ==> !('0' <= u[0] && u[0] <= '9'),
    ensures
        duration_seconds(d + u) == match (parse_i64_text(d), unit_seconds(u)) {
            (Some(n), Some(s)) => Some(n * s),
            _ => None::<int>,
        },
{
    lemma_digits_end_before_unit(d, u, 0);
    assert((d + u).take(d.len() as int) =~= d);
    assert((d + u).skip(d.len() as int) =~= u);
}

/// Each unit's long spelling means what its short one does, and the units
/// scale as a clock does: `n` seconds is `n`, `n` minutes `60 n`, `n`
/// hours `3600 n` and `n` days `86400 n` seconds, for every number `n`.
pub proof fn law_duration_units(d: Seq<char>)
    requires
        forall|j: int| 0 <= j < d.len() ==> '0' <= #[trigger] d[j] && d[j] <= '9',
    ensures
        duration_seconds(d + "sec"@) == duration_seconds(d + "s"@),
        duration_seconds(d + "min"@) == duration_seconds(d + "m"@),
        duration_seconds(d + "hour"@) == duration_seconds(d + "h"@),
        duration_seconds(d + "day"@) == duration_seconds(d + "d"@),
        match parse_i64_text(d) {
            Some(n) => {
                &&& duration_seconds(d + "s"@) == Some(n as int)
                &&& duration_seconds(d + "m"@) == Some(60 * n)
                &&& duration_seconds(d + "h"@) == Some(3600 * n)
                &&& duration_seconds(d + "d"@) == Some(86400 * n)
            },
            None => {
                &&& duration_seconds(d + "s"@) is None
                &&& duration_seconds(d + "m"@) is None
                &&& duration_seconds(d + "h"@) is None
                &&& duration_seconds(d + "d"@) is None
            },
        },
{
    reveal_strlit("s");
    reveal_strlit("sec");
    reveal_strlit("m");
    reveal_strlit("min");
    reveal_strlit("h");
    reveal_strlit("hour");
    reveal_strlit("d");
    reveal_strlit("day");
    assert("s"@[0] == 's' && "sec"@[0] == 's' && "m"@[0] == 'm' && "min"@[0] == 'm');
    assert("h"@[0] == 'h' && "hour"@[0] == 'h' && "d"@[0] == 'd' && "day"@[0] == 'd');
    lemma_duration_of(d, "s"@);
    lemma_duration_of(d, "sec"@);
    lemma_duration_of(d, "m"@);
    lemma_duration_of(d, "min"@);
    lemma_duration_of(d, "h"@);
    lemma_duration_of(d, "hour"@);
    lemma_duration_of(d, "d"@);
    lemma_duration_of(d, "day"@);
    assert(unit_seconds("s"@) == Some(1int));
    assert(unit_seconds("sec"@) == Some(1int));
    assert(unit_seconds("m"@) == Some(60int));
    assert(unit_seconds("min"@) == Some(60int));
    assert(unit_seconds("h"@) == Some(3600int));
    assert(unit_seconds("hour"@) == Some(3600int));
    assert(unit_seconds("d"@) == Some(86400int));
    assert(unit_seconds("day"@) == Some(86400int));
    match parse_i64_text(d) {
        Some(n) => {
            assert(duration_seconds(d + "s"@) == Some(n * 1int));
            assert(duration_seconds(d + "m"@) == Some(n * 60int));
            assert(duration_seconds(d + "h"@) == Some(n * 3600int));
            assert(duration_seconds(d + "d"@) == Some(n * 86400int));
            assert(n * 1int == n as int);
            assert(n * 60int == 60 * n);
            assert(n * 3600int == 3600 * n);
            assert(n * 86400int == 86400 * n);
        },
        None => {
            assert(duration_seconds(d + "s"@) is None);
            assert(duration_seconds(d + "m"@) is None);
            assert(duration_seconds(d + "h"@) is None);
            assert(duration_seconds(d + "d"@) is None);
        },
    }
}

fn digits_end_of(cs: &[char]) -> (k: usize)
    ensures
        k as int == digits_end(cs@, 0),
        k <= cs@.len(),
{
    let mut k: usize = 0;
    while k < cs.len() && '0' <= cs[k] && cs[k] <= '9'
        invariant
            k <= cs@.len(),
            digits_end(cs@, k as int) == digits_end(cs@, 0),
        decreases cs@.len() - k,
    {
        k = k + 1;
    }
    k
}

fn unit_seconds_of(suffix: &str) -> (r: Option<i64>)
    ensures
        match unit_seconds(suffix@) {
            Some(u) => r == Some(u as i64),
            None => r is None,
        },
{
    if str_eq(suffix, "s") || str_eq(suffix, "sec") {
        Some(1)
    } else if str_eq(suffix, "m") || str_eq(suffix, "min") {
        Some(60)
    } else if str_eq(suffix, "h") || str_eq(suffix, "hour") {
        Some(3600)
    } else if str_eq(suffix, "d") || str_eq(suffix, "day") {
        Some(86400)
    } else {
        None
    }
}

/// Splits a duration into its number and its unit's seconds.
fn duration_parts(s: &str) -> (r: (Option<i64>, Option<i64>))
    ensures
        r.0 == parse_i64_text(s@.take(digits_end(s@, 0))),
        r.0 matches Some(n) ==> n >= 0,
        match unit_seconds(s@.skip(digits_end(s@, 0))) {
            Some(u) => r.1 == Some(u as i64),
            None => r.1 is None,
        },
{
    let cs = chars_of(s);
    let k = digits_end_of(cs.as_slice());
    proof {
        lemma_digits_end(s@, 0);
        let d = s@.take(k as int);
        assert forall|j: int| 0 <= j < d.len() implies '0' <= #[trigger] d[j] && d[j] <= '9' by {
            assert(d[j] == s@[j]);
        }
        lemma_digit_number_nonnegative(d);
    }
    let num = sub_string(cs.as_slice(), 0, k);
    let suffix = sub_string(cs.as_slice(), k, cs.len());
    assert(s@.take(k as int) =~= cs@.subrange(0, k as int));
    assert(s@.skip(k as int) =~= cs@.subrange(k as int, cs@.len() as int));
    (parse_i64(num.as_str()), unit_seconds_of(suffix.as_str()))
}

/// Whether `s`, if it reads as a duration, fits the longest span (a
/// longer one cannot be represented).
pub fn duration_in_range(s: &str) -> (r: bool)
    ensures
        r == duration_fits(s@),
{
    let (num, unit) = duration_parts(s);
    match (num, unit) {
        (Some(n), Some(u)) => {
            assert(u > 0);
            assert((n <= MAX_DURATION_SECONDS / u) == (n * u <= MAX_DURATION_SECONDS)) by (nonlinear_arith)
                requires
                    u > 0,
                    n >= 0,
                    MAX_DURATION_SECONDS > 0,
            ;
            n <= MAX_DURATION_SECONDS / u
        },
        _ => true,
    }
}

/// Reads a duration such as `"1h"`, `"30m"` or `"7d"`, in seconds; `None`
/// when it has no leading number or no known unit.
pub fn parse_duration(s: &str) -> (r: Option<i64>)
    requires
        duration_fits(s@),
    ensures
        match duration_seconds(s@) {
            Some(secs) => r == Some(secs as i64),
            None => r is None,
        },
{
    let (num, unit) = duration_parts(s);
    match (num, unit) {
        (Some(n), Some(u)) => {
            assert(n * u <= MAX_DURATION_SECONDS);
            assert(0 <= n * u) by (nonlinear_arith)
                requires
                    n >= 0,
                    u > 0,
            ;
            Some(n * u)
        },
        _ => None,
    }
}

} // verus!
