use utensil::cli::{
    help_text, missing_threshold_error, parse_command, parse_percent, unknown_command_error,
    wants_dry_run, AppError, CliCommand,
};
use utensil::config::ConfigError;
use utensil::supervisor::{CrashWindow, SupervisorAction};

#[test]
fn commands_and_aliases_are_recognised() {
    assert_eq!(parse_command("daemon"), Some(CliCommand::Daemon));
    assert_eq!(parse_command("forcepush"), Some(CliCommand::ForceThreshold));
    assert_eq!(parse_command("force-threshold"), Some(CliCommand::ForceThreshold));
    assert_eq!(parse_command("clearlearningdata"), Some(CliCommand::ClearLearning));
    assert_eq!(parse_command("checkidle"), Some(CliCommand::CheckIdle));
    assert_eq!(parse_command("--help"), Some(CliCommand::Help));
    assert_eq!(parse_command("print-default-config"), Some(CliCommand::PrintDefaultConfig));
    assert_eq!(parse_command("Daemon"), None);
    assert_eq!(unknown_command_error("x").message(), "unknown command `x`");
}

#[test]
fn thresholds_must_be_percentages() {
    assert!(matches!(parse_percent("0"), Ok(0)));
    assert!(matches!(parse_percent("100"), Ok(100)));
    assert!(matches!(parse_percent("+7"), Ok(7)));
    for bad in ["101", "-1", "", "x", "256"] {
        match parse_percent(bad) {
            Err(AppError::Usage(m)) => assert_eq!(m, "threshold must be 0-100"),
            other => panic!("{bad}: {other:?}"),
        }
    }
    assert_eq!(missing_threshold_error().message(), "missing threshold value");
}

#[test]
fn errors_print_their_message() {
    let e = AppError::from(ConfigError { line: 4, message: "invalid boolean".to_string() });
    assert_eq!(e.message(), "line 4: invalid boolean");
    let io = AppError::from(std::io::Error::other("disk"));
    assert_eq!(io.message(), "disk");
}

#[test]
fn dry_run_flag_is_found_among_the_arguments() {
    assert!(wants_dry_run(&vec!["x".to_string(), "--dry-run".to_string()]));
    assert!(!wants_dry_run(&vec!["--dry".to_string()]));
}

#[test]
fn help_lists_every_command() {
    let help = help_text();
    assert!(help.starts_with("Utensil Poker Rust\n\ncommands:\n  daemon\n"));
    assert!(help.ends_with("  print-default-config\n"));
    assert_eq!(help.lines().count(), 17);
}

#[test]
fn supervisor_gives_up_after_five_quick_crashes() {
    let mut w = CrashWindow::new(0);
    assert_eq!(w.on_exit(false, 1_000), SupervisorAction::Restart(500));
    assert_eq!(w.on_exit(false, 2_000), SupervisorAction::Restart(1_000));
    assert_eq!(w.on_exit(false, 3_000), SupervisorAction::Restart(1_500));
    assert_eq!(w.on_exit(false, 4_000), SupervisorAction::Restart(2_000));
    assert_eq!(w.on_exit(false, 5_000), SupervisorAction::GiveUp);
}

#[test]
fn supervisor_forgets_old_crashes() {
    let mut w = CrashWindow::new(0);
    assert_eq!(w.on_exit(false, 1_000), SupervisorAction::Restart(500));
    assert_eq!(w.on_exit(false, 2_000), SupervisorAction::Restart(1_000));
    assert_eq!(w.on_exit(false, 12_001), SupervisorAction::Restart(500));
    assert_eq!(w.on_exit(false, 13_000), SupervisorAction::Restart(1_000));
    assert_eq!(w.on_exit(true, 14_000), SupervisorAction::Stop);
}
