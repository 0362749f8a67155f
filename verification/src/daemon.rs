//! Daemon process management: the PID file and its decisions, the start
//! sequence and the shutdown flag.  Reading and writing the PID file,
//! forking and redirecting output are the caller's part; the library
//! decides from what was read.
use vstd::prelude::*;
use std::sync::Arc;
use std::sync::atomic::AtomicBool;
use crate::text::{concat, parse_u32, parse_u32_text, push_char, push_decimal, decimal_text, trim_white_space, trim_ws};

verus! {

/// Default PID file path.
pub const DEFAULT_PID_FILE: &'static str = "/tmp/ambient-fs.pid";

/// Default log file path.
pub const DEFAULT_LOG_FILE: &'static str = "/tmp/ambient-fs.log";

/// Errors from daemon operations.
#[derive(Debug)]
pub enum DaemonError {
    /// A daemon with this PID is already running.
    AlreadyRunning(u32),
    /// No daemon is running.
    NotRunning,
    /// The PID file could not be read.
    PidFileRead(std::io::Error),
    /// The PID file does not hold a PID (the trimmed text).
    InvalidPid(String),
    /// A directory could not be created.
    DirCreate(std::io::Error),
    /// Any other I/O failure.
    Io(std::io::Error),
}

/// Formats an I/O error with its `Display`; nothing is stated of the text.
#[verifier::external_body]
pub(crate) fn io_error_text(e: &std::io::Error) -> String {
    format!("{}", e)
}

impl DaemonError {
    /// The error's message: `daemon already running (PID 42)`, `daemon not
    /// running`, `invalid PID format: x`, or a prefix before the I/O error.
    pub fn message(&self) -> (r: String)
        ensures
            self matches DaemonError::AlreadyRunning(pid) ==> r@ == "daemon already running (PID "@
                + decimal_text(pid as nat) + ")"@,
            self is NotRunning ==> r@ == "daemon not running"@,
            self matches DaemonError::InvalidPid(t) ==> r@ == "invalid PID format: "@ + t@,
    {
        match self {
            DaemonError::AlreadyRunning(pid) => {
                let mut s = "daemon already running (PID ".to_string();
                push_decimal(&mut s, *pid as u64);
                push_char(&mut s, ')');
                proof {
                    reveal_strlit(")");
                    assert(")"@ == seq![')']);
                }
                s
            },
            DaemonError::NotRunning => "daemon not running".to_string(),
            DaemonError::PidFileRead(e) => concat("failed to read PID file: ", io_error_text(e).as_str()),
            DaemonError::InvalidPid(t) => concat("invalid PID format: ", t.as_str()),
            DaemonError::DirCreate(e) => concat("failed to create directory: ", io_error_text(e).as_str()),
            DaemonError::Io(e) => concat("io error: ", io_error_text(e).as_str()),
        }
    }
}

/// What sending signal 0 to a process reported.
#[derive(Debug, Clone, Copy, PartialEq, Eq, Structural)]
pub enum SignalProbe {
    /// The signal could be sent.
    Delivered,
    /// No such process (`ESRCH`).
    NoSuchProcess,
    /// Any other error, such as missing permission.
    Refused,
}

/// Calls `nix::sys::signal::kill(Pid::from_raw(pid as i32), None)`, which
/// sends no signal and only checks the process, and tells its outcomes
/// apart.  It depends on the processes of the machine; nothing is stated
/// of it.
#[verifier::external_body]
fn probe_process(pid: u32) -> SignalProbe {
    match nix::sys::signal::kill(nix::unistd::Pid::from_raw(pid as i32), None) {
        Ok(()) => SignalProbe::Delivered,
        Err(nix::errno::Errno::ESRCH) => SignalProbe::NoSuchProcess,
        Err(_) => SignalProbe::Refused,
    }
}

/// Calls `nix::sys::signal::kill(Pid::from_raw(pid as i32), SIGTERM)`; a
/// refusal comes back as an I/O error.  It depends on the processes of the
/// machine; nothing is stated of it.
#[verifier::external_body]
fn send_terminate(pid: u32) -> Result<(), std::io::Error> {
    match nix::sys::signal::kill(nix::unistd::Pid::from_raw(pid as i32), nix::sys::signal::Signal::SIGTERM) {
        Ok(()) => Ok(()),
        Err(e) => Err(std::io::Error::new(std::io::ErrorKind::Other, e)),
    }
}

/// Whether a probe shows a live process: only `ESRCH` says it is gone
/// (other errors mean it exists but cannot be signalled).
pub open spec fn probe_alive(p: SignalProbe) -> bool {
    p != SignalProbe::NoSuchProcess
}

/// The PID recorded in PID file text: the trimmed text read as a `u32`.
pub open spec fn recorded_pid(content: Seq<char>) -> Option<u32> {
    parse_u32_text(trim_ws(content))
}

/// Reads the PID from the PID file's text; text that is no PID is
/// `InvalidPid` with the trimmed text.
pub fn parse_pid(content: &str) -> (r: Result<u32, DaemonError>)
    ensures
        recorded_pid(content@) matches Some(p) ==> (r matches Ok(q) && q == p),
        recorded_pid(content@) is None ==> (r matches Err(DaemonError::InvalidPid(t)) && t@ == trim_ws(
            content@,
        )),
{
    let trimmed = trim_white_space(content);
    match parse_u32(trimmed.as_str()) {
        Some(pid) => Ok(pid),
        None => Err(DaemonError::InvalidPid(trimmed)),
    }
}

/// The PID file text for `pid`: its decimal digits and a newline.
pub fn pid_file_content(pid: u32) -> (r: String)
    ensures
        r@ == decimal_text(pid as nat).push('\n'),
{
    let mut s = String::new();
    push_decimal(&mut s, pid as u64);
    push_char(&mut s, '\n');
    s
}

/// PID file manager.
#[derive(Debug, Clone, PartialEq, Eq)]
pub struct PidFile {
    pub path: &'static str,
}

/// What a read of the PID file gave: its text, or the read error.
pub type PidFileRead = Result<String, std::io::Error>;

impl PidFile {
    /// A manager for the PID file at `path`.
    pub fn new(path: &'static str) -> (r: Self)
        ensures
            r.path == path,
    {
        PidFile { path }
    }

    /// The recorded PID: `PidFileRead` when the file could not be read,
    /// `InvalidPid` when it holds no PID.
    pub fn read_pid(&self, read: PidFileRead) -> (r: Result<u32, DaemonError>)
        ensures
            read is Err ==> r matches Err(DaemonError::PidFileRead(_)),
            read matches Ok(c) ==> match recorded_pid(c@) {
                Some(p) => (r matches Ok(q) && q == p),
                None => (r matches Err(DaemonError::InvalidPid(t)) && t@ == trim_ws(c@)),
            },
    {
        match read {
            Ok(content) => parse_pid(content.as_str()),
            Err(e) => Err(DaemonError::PidFileRead(e)),
        }
    }

    /// Whether the process with `pid` is running (signal 0 reaches it or
    /// is refused).
    fn check_process(pid: u32) -> bool {
        probe_alive_exec(probe_process(pid))
    }

    /// Whether a daemon is running: an unreadable file means no; a file
    /// without a PID is `InvalidPid`; otherwise the recorded process is
    /// checked.
    pub fn is_running(&self, read: PidFileRead) -> (r: Result<bool, DaemonError>)
        ensures
            read is Err ==> (r matches Ok(b) && !b),
            read matches Ok(c) ==> match recorded_pid(c@) {
                Some(_) => r is Ok,
                None => (r matches Err(DaemonError::InvalidPid(t)) && t@ == trim_ws(c@)),
            },
    {
        match self.read_pid(read) {
            Ok(pid) => Ok(Self::check_process(pid)),
            Err(DaemonError::PidFileRead(_)) => Ok(false),
            Err(e) => Err(e),
        }
    }

    /// The outcome of `get_pid` once the recorded `pid` has been checked:
    /// the PID when the process is alive, `NotRunning` otherwise.
    pub fn running_pid(pid: u32, alive: bool) -> (r: Result<u32, DaemonError>)
        ensures
            alive ==> (r matches Ok(q) && q == pid),
            !alive ==> r matches Err(DaemonError::NotRunning),
    {
        if alive {
            Ok(pid)
        } else {
            Err(DaemonError::NotRunning)
        }
    }

    /// The PID of the running daemon: the read errors of `read_pid`, then
    /// the recorded PID if its process runs and `NotRunning` if not.
    pub fn get_pid(&self, read: PidFileRead) -> (r: Result<u32, DaemonError>)
        ensures
            read is Err ==> r matches Err(DaemonError::PidFileRead(_)),
            read matches Ok(c) ==> match recorded_pid(c@) {
                Some(p) => (r matches Ok(q) && q == p) || (r matches Err(DaemonError::NotRunning)),
                None => (r matches Err(DaemonError::InvalidPid(t)) && t@ == trim_ws(c@)),
            },
    {
        let pid = match self.read_pid(read) {
            Ok(p) => p,
            Err(e) => return Err(e),
        };
        Self::running_pid(pid, Self::check_process(pid))
    }

    /// Whether the PID file, read as `read`, records a process that the
    /// probe finds alive; `false` when it records none.
    fn recorded_alive(read: &PidFileRead) -> (r: bool)
        ensures
            read is Err ==> !r,
            read matches Ok(c) ==> (recorded_pid(c@) is None ==> !r),
    {
        match read {
            Ok(content) => match parse_pid(content.as_str()) {
                Ok(pid) => Self::check_process(pid),
                Err(_) => false,
            },
            Err(_) => false,
        }
    }

    /// The outcome of `create` once the recorded process, if any, has been
    /// probed (`alive`): a file that records a process found alive is
    /// `AlreadyRunning` with its PID; otherwise, an unreadable file or one
    /// without a PID included, the text to write for `own_pid`.
    pub fn create_with(&self, read: PidFileRead, own_pid: u32, alive: bool) -> (r: Result<String, DaemonError>)
        ensures
            match read {
                Ok(c) => match recorded_pid(c@) {
                    Some(p) => if alive {
                        r matches Err(DaemonError::AlreadyRunning(q)) && q == p
                    } else {
                        r matches Ok(text) && text@ == decimal_text(own_pid as nat).push('\n')
                    },
                    None => r matches Ok(text) && text@ == decimal_text(own_pid as nat).push('\n'),
                },
                Err(_) => r matches Ok(text) && text@ == decimal_text(own_pid as nat).push('\n'),
            },
    {
        if let Ok(content) = &read {
            if let Ok(pid) = parse_pid(content.as_str()) {
                if alive {
                    return Err(DaemonError::AlreadyRunning(pid));
                }
            }
        }
        Ok(pid_file_content(own_pid))
    }

    /// The text to write into the PID file for the process `own_pid`,
    /// unless a daemon is already running: a file that records a live
    /// process is `AlreadyRunning` with that PID; an unreadable file, or
    /// one without a PID, is overwritten.
    pub fn create(&self, read: PidFileRead, own_pid: u32) -> (r: Result<String, DaemonError>)
        ensures
            r matches Ok(text) ==> text@ == decimal_text(own_pid as nat).push('\n'),
            r matches Err(e) ==> (e matches DaemonError::AlreadyRunning(p) && read matches Ok(c)
                && recorded_pid(c@) == Some(p)),
            read is Err ==> r is Ok,
            read matches Ok(c) ==> (recorded_pid(c@) is None ==> r is Ok),
    {
        let alive = Self::recorded_alive(&read);
        self.create_with(read, own_pid, alive)
    }
}

/// Whether a probe shows a live process.
pub fn probe_alive_exec(p: SignalProbe) -> (r: bool)
    ensures
        r == probe_alive(p),
{
    !matches!(p, SignalProbe::NoSuchProcess)
}

/// What starting the daemon asks of the caller, in order: write the PID
/// file, fork to the background, install the signal handlers, redirect
/// output to the log file.
#[derive(Debug, Clone, PartialEq, Eq)]
pub struct StartPlan {
    /// The text of the PID file.
    pub pid_file_content: String,
    /// Whether to fork to the background.
    pub fork: bool,
    /// Whether to redirect stdin, stdout and stderr.
    pub redirect_stdio: bool,
}

/// Daemon process manager.
#[derive(Debug)]
pub struct Daemon {
    pub pid_file: PidFile,
    pub log_file: &'static str,
    /// Set when a termination signal arrives.
    pub shutdown: Arc<AtomicBool>,
    pub foreground: bool,
}

/// Calls `Arc::clone` on the shutdown flag.  As its documentation says, the
/// clone is another pointer to the same allocation, so the contract claims
/// that the result is the same shared flag as the argument.
#[verifier::external_body]
fn share_flag(flag: &Arc<AtomicBool>) -> (r: Arc<AtomicBool>)
    ensures
        r == *flag,
{
    Arc::clone(flag)
}

impl Daemon {
    /// The default PID and log files, in the background, shutdown not
    /// requested.
    pub fn new() -> (r: Self)
        ensures
            r.pid_file.path == DEFAULT_PID_FILE,
            r.log_file == DEFAULT_LOG_FILE,
            !r.foreground,
    {
        Daemon {
            pid_file: PidFile::new(DEFAULT_PID_FILE),
            log_file: DEFAULT_LOG_FILE,
            shutdown: Arc::new(AtomicBool::new(false)),
            foreground: false,
        }
    }

    /// Foreground mode: no fork and no redirection.
    pub fn with_foreground(self, foreground: bool) -> (r: Self)
        ensures
            r.foreground == foreground,
            r.pid_file == self.pid_file,
            r.log_file == self.log_file,
    {
        Daemon { foreground, ..self }
    }

    /// Another PID file.
    pub fn with_pid_file(self, path: &'static str) -> (r: Self)
        ensures
            r.pid_file.path == path,
            r.log_file == self.log_file,
            r.foreground == self.foreground,
    {
        Daemon { pid_file: PidFile::new(path), ..self }
    }

    /// Another log file.
    pub fn with_log_file(self, path: &'static str) -> (r: Self)
        ensures
            r.log_file == path,
            r.pid_file == self.pid_file,
            r.foreground == self.foreground,
    {
        Daemon { log_file: path, ..self }
    }

    /// The PID file text for `own_pid`, as `PidFile::create` decides.
    pub fn create_pid_file(&self, read: PidFileRead, own_pid: u32) -> (r: Result<String, DaemonError>)
        ensures
            r matches Ok(text) ==> text@ == decimal_text(own_pid as nat).push('\n'),
            r matches Err(e) ==> (e matches DaemonError::AlreadyRunning(p) && read matches Ok(c)
                && recorded_pid(c@) == Some(p)),
            read is Err ==> r is Ok,
            read matches Ok(c) ==> (recorded_pid(c@) is None ==> r is Ok),
    {
        self.pid_file.create(read, own_pid)
    }

    /// The outcome of `start` once the recorded process, if any, has been
    /// probed (`alive`): `InvalidPid` when the PID file holds no PID,
    /// `AlreadyRunning` when it records a process found alive; otherwise
    /// the PID file text for `own_pid`, and a fork and redirection unless
    /// in the foreground.
    pub fn start_with(&self, read: PidFileRead, own_pid: u32, alive: bool) -> (r: Result<StartPlan, DaemonError>)
        ensures
            match read {
                Ok(c) => match recorded_pid(c@) {
                    None => r matches Err(DaemonError::InvalidPid(t)) && t@ == trim_ws(c@),
                    Some(p) => if alive {
                        r matches Err(DaemonError::AlreadyRunning(q)) && q == p
                    } else {
                        r matches Ok(plan) && self.plans(plan, own_pid)
                    },
                },
                Err(_) => r matches Ok(plan) && self.plans(plan, own_pid),
            },
    {
        let recorded = match &read {
            Ok(content) => match parse_pid(content.as_str()) {
                Ok(pid) => Some(pid),
                Err(e) => return Err(e),
            },
            Err(_) => None,
        };
        if let Some(pid) = recorded {
            if alive {
                return Err(DaemonError::AlreadyRunning(pid));
            }
        }
        Ok(StartPlan {
            pid_file_content: pid_file_content(own_pid),
            fork: !self.foreground,
            redirect_stdio: !self.foreground,
        })
    }

    /// The plan for starting as `own_pid`: its PID file text, and a fork
    /// and redirection unless in the foreground.
    pub open spec fn plans(&self, plan: StartPlan, own_pid: u32) -> bool {
        &&& plan.pid_file_content@ == decimal_text(own_pid as nat).push('\n')
        &&& plan.fork == !self.foreground
        &&& plan.redirect_stdio == !self.foreground
    }

    /// Starting the daemon as process `own_pid`: refused with
    /// `InvalidPid` when the PID file holds no PID and with
    /// `AlreadyRunning` when it records a live process; otherwise the PID
    /// file text, and a fork and redirection unless in the foreground.
    pub fn start(&self, read: PidFileRead, own_pid: u32) -> (r: Result<StartPlan, DaemonError>)
        ensures
            r matches Ok(plan) ==> (plan.pid_file_content@ == decimal_text(own_pid as nat).push('\n')
                && plan.fork == !self.foreground && plan.redirect_stdio == !self.foreground),
            read is Err ==> r is Ok,
            read matches Ok(c) ==> match recorded_pid(c@) {
                None => (r matches Err(DaemonError::InvalidPid(t)) && t@ == trim_ws(c@)),
                Some(p) => (r is Ok) || (r matches Err(DaemonError::AlreadyRunning(q)) && q == p),
            },
    {
        let alive = PidFile::recorded_alive(&read);
        self.start_with(read, own_pid, alive)
    }

    /// Asks the running daemon to terminate: the errors of
    /// `PidFile::get_pid` when no daemon runs, an `Io` error when the signal
    /// cannot be sent.
    pub fn stop(&self, read: PidFileRead) -> (r: Result<(), DaemonError>)
        ensures
            read is Err ==> r matches Err(DaemonError::PidFileRead(_)),
            read matches Ok(c) ==> match recorded_pid(c@) {
                Some(p) => r is Ok || r matches Err(DaemonError::NotRunning) || r matches Err(DaemonError::Io(_)),
                None => (r matches Err(DaemonError::InvalidPid(t)) && t@ == trim_ws(c@)),
            },
    {
        let pid = match self.pid_file.get_pid(read) {
            Ok(p) => p,
            Err(e) => {
                return Err(e);
            },
        };
        match send_terminate(pid) {
            Ok(()) => Ok(()),
            Err(e) => Err(DaemonError::Io(e)),
        }
    }

    /// The outcome of `status` once the recorded process, if any, has been
    /// probed (`alive`): `None` when no daemon runs (the PID file cannot
    /// be read, or records a process not found alive), the PID when it
    /// runs, and `InvalidPid` when the file holds no PID.
    pub fn status_with(&self, read: PidFileRead, alive: bool) -> (r: Result<Option<u32>, DaemonError>)
        ensures
            match read {
                Ok(c) => match recorded_pid(c@) {
                    Some(p) => r == Ok::<Option<u32>, DaemonError>(if alive { Some(p) } else { None }),
                    None => r matches Err(DaemonError::InvalidPid(t)) && t@ == trim_ws(c@),
                },
                Err(_) => r == Ok::<Option<u32>, DaemonError>(None),
            },
    {
        match read {
            Ok(content) => match parse_pid(content.as_str()) {
                Ok(pid) => Ok(if alive { Some(pid) } else { None }),
                Err(e) => Err(e),
            },
            Err(_) => Ok(None),
        }
    }

    /// The running daemon's PID, `None` when it is not running (including
    /// when the PID file cannot be read); `InvalidPid` when the file holds
    /// no PID.
    pub fn status(&self, read: PidFileRead) -> (r: Result<Option<u32>, DaemonError>)
        ensures
            read is Err ==> r == Ok::<Option<u32>, DaemonError>(None),
            read matches Ok(c) ==> match recorded_pid(c@) {
                Some(p) => (r matches Ok(o) && (o == Some(p) || o is None)),
                None => (r matches Err(DaemonError::InvalidPid(t)) && t@ == trim_ws(c@)),
            },
    {
        let alive = PidFile::recorded_alive(&read);
        self.status_with(read, alive)
    }

    /// Whether a termination signal has set the shutdown flag.  The flag
    /// is shared with the signal handler; nothing is stated of it.
    pub fn is_shutdown_requested(&self) -> bool {
        self.shutdown.load(std::sync::atomic::Ordering::Relaxed)
    }

    /// Another handle to the shutdown flag, for other components.
    pub fn shutdown_flag(&self) -> (r: Arc<AtomicBool>)
        ensures
            r == self.shutdown,
    {
        share_flag(&self.shutdown)
    }

    pub fn is_foreground(&self) -> (r: bool)
        ensures
            r == self.foreground,
    {
        self.foreground
    }
}

impl Default for Daemon {
    fn default() -> (r: Self)
        ensures
            r.pid_file.path == DEFAULT_PID_FILE,
            r.log_file == DEFAULT_LOG_FILE,
            !r.foreground,
    {
        Self::new()
    }
}

} // verus!
