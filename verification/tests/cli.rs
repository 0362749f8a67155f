use ambient_fs::cli::{
    duration_in_range, parse_duration, Cli, CliError, Command, CLI_ABOUT, CLI_NAME, CLI_VERSION,
};
use ambient_fs::service::{render_service_template, LAUNCHD_PLIST_TEMPLATE, SYSTEMD_SERVICE_TEMPLATE};

fn parse(args: &[&str]) -> Cli {
    Cli::try_parse_from(args).unwrap()
}

#[test]
fn cli_verify() {
    for args in [
        &["ambient-fsd", "start"][..],
        &["ambient-fsd", "stop"],
        &["ambient-fsd", "status"],
        &["ambient-fsd", "watch", "p"],
        &["ambient-fsd", "unwatch", "i"],
        &["ambient-fsd", "events"],
        &["ambient-fsd", "awareness", "p", "f"],
        &["ambient-fsd", "prune"],
        &["ambient-fsd", "install-service"],
        &["ambient-fsd", "uninstall-service"],
    ] {
        assert!(Cli::try_parse_from(args).is_ok(), "{:?}", args);
    }
}

#[test]
fn cli_start() {
    let cli = parse(&["ambient-fsd", "start"]);
    match cli.command {
        Command::Start { foreground } => assert!(!foreground),
        _ => panic!("expected Start command"),
    }
}

#[test]
fn cli_start_foreground_short() {
    let cli = parse(&["ambient-fsd", "start", "-F"]);
    match cli.command {
        Command::Start { foreground } => assert!(foreground),
        _ => panic!("expected Start command"),
    }
}

#[test]
fn cli_start_foreground_long() {
    let cli = parse(&["ambient-fsd", "start", "--foreground"]);
    match cli.command {
        Command::Start { foreground } => assert!(foreground),
        _ => panic!("expected Start command"),
    }
}

#[test]
fn cli_stop() {
    let cli = parse(&["ambient-fsd", "stop"]);
    assert!(matches!(cli.command, Command::Stop));
}

#[test]
fn cli_status() {
    let cli = parse(&["ambient-fsd", "status"]);
    assert!(matches!(cli.command, Command::Status));
}

#[test]
fn cli_watch() {
    let cli = parse(&["ambient-fsd", "watch", "/home/user/project"]);
    match cli.command {
        Command::Watch { path } => assert_eq!(path, "/home/user/project"),
        _ => panic!("expected Watch command"),
    }
}

#[test]
fn cli_watch_relative_path() {
    let cli = parse(&["ambient-fsd", "watch", "./my-project"]);
    match cli.command {
        Command::Watch { path } => assert_eq!(path, "./my-project"),
        _ => panic!("expected Watch command"),
    }
}

#[test]
fn cli_unwatch() {
    let cli = parse(&["ambient-fsd", "unwatch", "proj-123"]);
    match cli.command {
        Command::Unwatch { id } => assert_eq!(id, "proj-123"),
        _ => panic!("expected Unwatch command"),
    }
}

#[test]
fn cli_events_no_filters() {
    let cli = parse(&["ambient-fsd", "events"]);
    match cli.command {
        Command::Events { since, source, project, limit } => {
            assert!(since.is_none());
            assert!(source.is_none());
            assert!(project.is_none());
            assert!(limit.is_none());
        }
        _ => panic!("expected Events command"),
    }
}

#[test]
fn cli_events_with_since() {
    let cli = parse(&["ambient-fsd", "events", "--since", "1h"]);
    match cli.command {
        Command::Events { since, .. } => assert_eq!(since.as_deref(), Some("1h")),
        _ => panic!("expected Events command"),
    }
}

#[test]
fn cli_events_with_source() {
    let cli = parse(&["ambient-fsd", "events", "--source", "ai_agent"]);
    match cli.command {
        Command::Events { source, .. } => assert_eq!(source.as_deref(), Some("ai_agent")),
        _ => panic!("expected Events command"),
    }
}

#[test]
fn cli_events_with_project() {
    let cli = parse(&["ambient-fsd", "events", "--project", "my-project"]);
    match cli.command {
        Command::Events { project, .. } => assert_eq!(project.as_deref(), Some("my-project")),
        _ => panic!("expected Events command"),
    }
}

#[test]
fn cli_events_with_limit() {
    let cli = parse(&["ambient-fsd", "events", "--limit", "50"]);
    match cli.command {
        Command::Events { limit, .. } => assert_eq!(limit, Some(50)),
        _ => panic!("expected Events command"),
    }
}

#[test]
fn cli_events_all_filters() {
    let cli = parse(&[
        "ambient-fsd", "events", "--since", "30m", "--source", "git", "--project", "kollabor", "--limit", "100",
    ]);
    match cli.command {
        Command::Events { since, source, project, limit } => {
            assert_eq!(since.as_deref(), Some("30m"));
            assert_eq!(source.as_deref(), Some("git"));
            assert_eq!(project.as_deref(), Some("kollabor"));
            assert_eq!(limit, Some(100));
        }
        _ => panic!("expected Events command"),
    }
}

#[test]
fn cli_events_short_flags() {
    let cli = parse(&["ambient-fsd", "events", "-s", "1h", "-S", "user", "-p", "test-proj", "-l", "20"]);
    match cli.command {
        Command::Events { since, source, project, limit } => {
            assert_eq!(since.as_deref(), Some("1h"));
            assert_eq!(source.as_deref(), Some("user"));
            assert_eq!(project.as_deref(), Some("test-proj"));
            assert_eq!(limit, Some(20));
        }
        _ => panic!("expected Events command"),
    }
}

#[test]
fn cli_awareness() {
    let cli = parse(&["ambient-fsd", "awareness", "my-project", "src/main.rs"]);
    match cli.command {
        Command::Awareness { project, path } => {
            assert_eq!(project, "my-project");
            assert_eq!(path, "src/main.rs");
        }
        _ => panic!("expected Awareness command"),
    }
}

#[test]
fn cli_awareness_with_directory() {
    let cli = parse(&["ambient-fsd", "awareness", "my-project", "src/"]);
    match cli.command {
        Command::Awareness { project, path } => {
            assert_eq!(project, "my-project");
            assert_eq!(path, "src/");
        }
        _ => panic!("expected Awareness command"),
    }
}

#[test]
fn cli_prune_default_retention() {
    let cli = parse(&["ambient-fsd", "prune"]);
    match cli.command {
        Command::Prune { retention_days } => assert_eq!(retention_days, 90),
        _ => panic!("expected Prune command"),
    }
}

#[test]
fn cli_prune_custom_retention_short() {
    let cli = parse(&["ambient-fsd", "prune", "-r", "30"]);
    match cli.command {
        Command::Prune { retention_days } => assert_eq!(retention_days, 30),
        _ => panic!("expected Prune command"),
    }
}

#[test]
fn cli_prune_custom_retention_long() {
    let cli = parse(&["ambient-fsd", "prune", "--retention-days", "14"]);
    match cli.command {
        Command::Prune { retention_days } => assert_eq!(retention_days, 14),
        _ => panic!("expected Prune command"),
    }
}

#[test]
fn cli_long_about() {
    assert!(!CLI_ABOUT.is_empty());
}

#[test]
fn cli_version() {
    assert_eq!(CLI_VERSION, "0.1.0");
}

#[test]
fn cli_name() {
    assert_eq!(CLI_NAME, "ambient-fsd");
}

#[test]
fn cli_install_service() {
    let cli = parse(&["ambient-fsd", "install-service"]);
    assert!(matches!(cli.command, Command::InstallService));
}

#[test]
fn cli_uninstall_service() {
    let cli = parse(&["ambient-fsd", "uninstall-service"]);
    assert!(matches!(cli.command, Command::UninstallService));
}

#[test]
fn cli_value_forms() {
    let cli = parse(&["ambient-fsd", "events", "--since=2h", "-S", "git", "-l5", "-p=proj"]);
    assert_eq!(
        cli.command,
        Command::Events {
            since: Some("2h".to_string()),
            source: Some("git".to_string()),
            project: Some("proj".to_string()),
            limit: Some(5),
        }
    );
    let cli = parse(&["ambient-fsd", "watch", "--", "-odd-dir"]);
    assert_eq!(cli.command, Command::Watch { path: "-odd-dir".to_string() });
}

#[test]
fn cli_errors() {
    assert_eq!(Cli::try_parse_from(&["ambient-fsd"]), Err(CliError::MissingSubcommand));
    assert_eq!(Cli::try_parse_from(&["ambient-fsd", "--help"]), Err(CliError::Help));
    assert_eq!(Cli::try_parse_from(&["ambient-fsd", "events", "-h"]), Err(CliError::Help));
    assert_eq!(Cli::try_parse_from(&["ambient-fsd", "-V"]), Err(CliError::Version));
    assert_eq!(Cli::try_parse_from(&["ambient-fsd", "frobnicate"]), Err(CliError::UnknownSubcommand("frobnicate".to_string())));
    assert_eq!(Cli::try_parse_from(&["ambient-fsd", "watch"]), Err(CliError::MissingArgument("PATH".to_string())));
    assert_eq!(Cli::try_parse_from(&["ambient-fsd", "awareness", "p"]), Err(CliError::MissingArgument("PATH".to_string())));
    assert_eq!(Cli::try_parse_from(&["ambient-fsd", "stop", "now"]), Err(CliError::UnexpectedArgument("now".to_string())));
    assert_eq!(Cli::try_parse_from(&["ambient-fsd", "events", "--since"]), Err(CliError::MissingValue("since".to_string())));
    assert_eq!(
        Cli::try_parse_from(&["ambient-fsd", "events", "--limit", "ten"]),
        Err(CliError::InvalidValue { option: "limit".to_string(), value: "ten".to_string() })
    );
    assert_eq!(
        Cli::try_parse_from(&["ambient-fsd", "start", "-F", "--foreground"]),
        Err(CliError::RepeatedOption("foreground".to_string()))
    );
    assert_eq!(Cli::try_parse_from(&["ambient-fsd", "prune", "-r", "-5"]), Err(CliError::MissingValue("retention-days".to_string())));
    assert_eq!(parse(&["ambient-fsd", "prune", "-r=-5"]).command, Command::Prune { retention_days: -5 });
}

#[test]
fn duration_parsing() {
    assert_eq!(parse_duration("1h"), Some(3600));
    assert_eq!(parse_duration("30m"), Some(1800));
    assert_eq!(parse_duration("7d"), Some(7 * 86400));
    assert_eq!(parse_duration("45sec"), Some(45));
    assert_eq!(parse_duration("2hour"), Some(7200));
    assert_eq!(parse_duration("h"), None);
    assert_eq!(parse_duration("10w"), None);
    assert_eq!(parse_duration("2024-01-01"), None);
    assert!(duration_in_range("9223372036854775s"));
    assert!(!duration_in_range("9223372036854776s"));
    assert!(!duration_in_range("106751991167301d"));
}

#[test]
fn test_launchd_template_renders() {
    let result = render_service_template(LAUNCHD_PLIST_TEMPLATE, "/usr/local/bin/ambient-fsd");
    assert!(result.contains("/usr/local/bin/ambient-fsd"));
    assert!(result.contains("com.ambient-fs.daemon"));
    assert!(result.contains("start"));
    assert!(result.contains("--foreground"));
    assert!(!result.contains("{BINARY}"));
}

#[test]
fn test_systemd_template_renders() {
    let result = render_service_template(SYSTEMD_SERVICE_TEMPLATE, "/usr/local/bin/ambient-fsd");
    assert!(result.contains("/usr/local/bin/ambient-fsd"));
    assert!(result.contains("ExecStart"));
    assert!(result.contains("Restart=on-failure"));
    assert!(result.contains("WantedBy=default.target"));
}

#[test]
fn test_launchd_template_contains_expected_keys() {
    assert!(LAUNCHD_PLIST_TEMPLATE.contains("{BINARY}"));
    assert!(LAUNCHD_PLIST_TEMPLATE.contains("Label"));
    assert!(LAUNCHD_PLIST_TEMPLATE.contains("ProgramArguments"));
    assert!(LAUNCHD_PLIST_TEMPLATE.contains("RunAtLoad"));
    assert!(LAUNCHD_PLIST_TEMPLATE.contains("KeepAlive"));
}

#[test]
fn test_systemd_template_contains_expected_keys() {
    assert!(SYSTEMD_SERVICE_TEMPLATE.contains("{BINARY}"));
    assert!(SYSTEMD_SERVICE_TEMPLATE.contains("ExecStart"));
    assert!(SYSTEMD_SERVICE_TEMPLATE.contains("Type=simple"));
    assert!(SYSTEMD_SERVICE_TEMPLATE.contains("Restart=on-failure"));
    assert!(SYSTEMD_SERVICE_TEMPLATE.contains("RestartSec=5"));
}

#[test]
fn replace_matches_std_replace() {
    for (s, p, r) in [("aXbXc", "X", "yy"), ("{BINARY}{BINARY}", "{BINARY}", "b"), ("aaa", "aa", "b"), ("none", "zz", "q")] {
        assert_eq!(ambient_fs::service::replace(s, p, r), s.replace(p, r));
    }
}
