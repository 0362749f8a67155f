use ambient_fs::daemon::{
    parse_pid, pid_file_content, Daemon, DaemonError, PidFile, DEFAULT_LOG_FILE, DEFAULT_PID_FILE,
};

fn missing() -> Result<String, std::io::Error> {
    Err(std::io::Error::new(std::io::ErrorKind::NotFound, "no such file"))
}

#[test]
fn test_daemon_new() {
    let daemon = Daemon::new();
    assert_eq!(daemon.log_file, DEFAULT_LOG_FILE);
    assert_eq!(daemon.pid_file.path, DEFAULT_PID_FILE);
}

#[test]
fn test_daemon_with_custom_paths() {
    let daemon = Daemon::new().with_pid_file("/custom/pid").with_log_file("/custom/log");
    assert_eq!(daemon.log_file, "/custom/log");
    assert_eq!(daemon.pid_file.path, "/custom/pid");
}

#[test]
fn test_daemon_shutdown_flag() {
    let daemon = Daemon::new();
    assert!(!daemon.is_shutdown_requested());
    daemon.shutdown.store(true, std::sync::atomic::Ordering::Relaxed);
    assert!(daemon.is_shutdown_requested());
    assert!(daemon.shutdown_flag().load(std::sync::atomic::Ordering::Relaxed));
}

#[test]
fn test_daemon_default_background() {
    let daemon = Daemon::new();
    assert!(!daemon.is_foreground());
}

#[test]
fn test_daemon_with_foreground() {
    let daemon = Daemon::new().with_foreground(true);
    assert!(daemon.is_foreground());
}

#[test]
fn test_daemon_with_foreground_false() {
    let daemon = Daemon::new().with_foreground(false);
    assert!(!daemon.is_foreground());
}

#[test]
fn test_daemon_builder_chain() {
    let daemon = Daemon::new().with_pid_file("/custom/pid").with_log_file("/custom/log").with_foreground(true);
    assert!(daemon.is_foreground());
    assert_eq!(daemon.log_file, "/custom/log");
}

#[test]
fn test_pid_file_not_running_when_missing() {
    let pid_file = PidFile::new("/tmp/ambient-fs-test-1.pid");
    let result = pid_file.is_running(missing());
    assert!(result.is_ok());
    assert_eq!(result.unwrap(), false);
}

#[test]
fn test_pid_file_create_and_read() {
    let pid_file = PidFile::new("/tmp/ambient-fs-test-2.pid");
    let own: u32 = 1;
    let content = pid_file.create(missing(), own).unwrap();
    assert_eq!(content.trim(), own.to_string());
    assert_eq!(pid_file.read_pid(Ok(content)).unwrap(), own);
}

#[test]
fn test_pid_file_invalid_format() {
    let pid_file = PidFile::new("/tmp/ambient-fs-test-4.pid");
    let result = pid_file.read_pid(Ok("not-a-pid\n".to_string()));
    assert!(result.is_err());
    assert!(matches!(result, Err(DaemonError::InvalidPid(ref t)) if t == "not-a-pid"));
}

#[test]
fn test_daemon_status_not_running() {
    let daemon = Daemon::new().with_pid_file("/tmp/ambient-fs-test-5.pid");
    let result = daemon.status(missing());
    assert!(result.is_err() || result.unwrap().is_none());
}

#[test]
fn test_daemon_status_running() {
    let daemon = Daemon::new().with_pid_file("/tmp/ambient-fs-test-6.pid");
    let own: u32 = 1;
    let content = daemon.create_pid_file(missing(), own).unwrap();
    let status = daemon.status(Ok(content)).unwrap();
    assert!(status.is_some());
    assert_eq!(status.unwrap(), own);
}

#[test]
fn test_already_running_error() {
    let pid_file = PidFile::new("/tmp/ambient-fs-test-7.pid");
    let own: u32 = 1;
    let content = pid_file.create(missing(), own).unwrap();
    let result = pid_file.create(Ok(content), own);
    assert!(result.is_err());
    assert!(matches!(result, Err(DaemonError::AlreadyRunning(p)) if p == own));
}

#[test]
fn parse_pid_trims_and_reads_decimal() {
    assert_eq!(parse_pid("  42\n").unwrap(), 42);
    assert_eq!(parse_pid("+7").unwrap(), 7);
    assert_eq!(parse_pid("4294967295").unwrap(), 4294967295);
    assert!(matches!(parse_pid("4294967296"), Err(DaemonError::InvalidPid(ref t)) if t == "4294967296"));
    assert!(matches!(parse_pid("-1"), Err(DaemonError::InvalidPid(_))));
    assert!(matches!(parse_pid(""), Err(DaemonError::InvalidPid(ref t)) if t.is_empty()));
    assert!(matches!(parse_pid("1 2"), Err(DaemonError::InvalidPid(_))));
}

#[test]
fn pid_file_content_is_decimal_and_newline() {
    assert_eq!(pid_file_content(0), "0\n");
    assert_eq!(pid_file_content(12345), "12345\n");
    assert_eq!(pid_file_content(u32::MAX), "4294967295\n");
}

#[test]
fn running_pid_decision() {
    assert_eq!(PidFile::running_pid(9, true).unwrap(), 9);
    assert!(matches!(PidFile::running_pid(9, false), Err(DaemonError::NotRunning)));
}

#[test]
fn get_pid_read_error_is_reported() {
    let pid_file = PidFile::new("/tmp/x.pid");
    assert!(matches!(pid_file.get_pid(missing()), Err(DaemonError::PidFileRead(_))));
}

#[test]
fn start_plan_depends_on_foreground() {
    let own: u32 = 1;
    let background = Daemon::new().start(missing(), own).unwrap();
    assert!(background.fork);
    assert!(background.redirect_stdio);
    assert_eq!(background.pid_file_content, format!("{}\n", own));
    let foreground = Daemon::new().with_foreground(true).start(missing(), own).unwrap();
    assert!(!foreground.fork);
    assert!(!foreground.redirect_stdio);
}

#[test]
fn start_refuses_invalid_pid_file_but_create_overwrites_it() {
    let daemon = Daemon::new();
    assert!(matches!(daemon.start(Ok("garbage".to_string()), 5), Err(DaemonError::InvalidPid(_))));
    assert_eq!(daemon.create_pid_file(Ok("garbage".to_string()), 5).unwrap(), "5\n");
}

#[test]
fn start_refuses_when_running() {
    let own: u32 = 1;
    let daemon = Daemon::new();
    assert!(matches!(daemon.start(Ok(format!("{}\n", own)), own), Err(DaemonError::AlreadyRunning(p)) if p == own));
}

#[test]
fn error_messages() {
    assert_eq!(DaemonError::AlreadyRunning(42).message(), "daemon already running (PID 42)");
    assert_eq!(DaemonError::NotRunning.message(), "daemon not running");
    assert_eq!(DaemonError::InvalidPid("x".to_string()).message(), "invalid PID format: x");
    let io = DaemonError::Io(std::io::Error::new(std::io::ErrorKind::Other, "boom"));
    assert_eq!(io.message(), "io error: boom");
}

#[test]
fn stop_without_daemon_reports_why() {
    let daemon = Daemon::new();
    assert!(matches!(daemon.stop(missing()), Err(DaemonError::PidFileRead(_))));
    assert!(matches!(daemon.stop(Ok("garbage".to_string())), Err(DaemonError::InvalidPid(t)) if t == "garbage"));
    assert!(matches!(daemon.stop(Ok("999999999\n".to_string())), Err(DaemonError::NotRunning)));
}

#[test]
fn status_is_none_when_pid_file_cannot_be_read() {
    let daemon = Daemon::new().with_pid_file("/tmp/ambient-fs-test-9.pid");
    assert_eq!(daemon.status(missing()).unwrap(), None);
}

#[test]
fn status_with_follows_the_probe() {
    let daemon = Daemon::new();
    assert_eq!(daemon.status_with(Ok("42\n".to_string()), true).unwrap(), Some(42));
    assert_eq!(daemon.status_with(Ok("42\n".to_string()), false).unwrap(), None);
    assert_eq!(daemon.status_with(missing(), true).unwrap(), None);
    assert!(matches!(daemon.status_with(Ok("x".to_string()), true), Err(DaemonError::InvalidPid(t)) if t == "x"));
}

#[test]
fn start_with_refuses_a_live_daemon() {
    let daemon = Daemon::new();
    assert!(matches!(daemon.start_with(Ok("42\n".to_string()), 7, true), Err(DaemonError::AlreadyRunning(42))));
    let plan = daemon.start_with(Ok("42\n".to_string()), 7, false).unwrap();
    assert_eq!(plan.pid_file_content, "7\n");
    assert!(plan.fork && plan.redirect_stdio);
    assert!(daemon.start_with(missing(), 7, true).is_ok());
    assert!(matches!(daemon.start_with(Ok("junk".to_string()), 7, false), Err(DaemonError::InvalidPid(_))));
}

#[test]
fn create_with_refuses_a_live_daemon() {
    let pid_file = PidFile::new("/tmp/ambient-fs-test-10.pid");
    assert!(matches!(pid_file.create_with(Ok("42\n".to_string()), 7, true), Err(DaemonError::AlreadyRunning(42))));
    assert_eq!(pid_file.create_with(Ok("42\n".to_string()), 7, false).unwrap(), "7\n");
    assert_eq!(pid_file.create_with(Ok("junk".to_string()), 7, true).unwrap(), "7\n");
    assert_eq!(pid_file.create_with(missing(), 7, true).unwrap(), "7\n");
}
