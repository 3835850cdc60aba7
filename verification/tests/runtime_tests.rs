use utensil::android::{
    forced_standby_backup, protected_packages, screen_timeout_backup, timeout_file_text, with_foreground,
};
use utensil::config::{parse_config, UtensilConfig};
use utensil::runtime::{
    timeout_restore_command, uninstall_removal_paths,
    dry_run_line, final_uninstall_commands, limit_mapping_by_build, limit_mapping_for,
    limit_processes_command, literal_command, package_list, parse_package_line, plugged_in_log,
    rate_setting_text, resolve_android_tool, standby_restore_command, status_report,
    uninstall_commands, wifi_enable_if_off, job_cancel_commands, AirplaneStep, ChangeAction, ChargingChange, Command,
    DeviceState, DrainReport, IdleStep, LimitMapping, Runtime,
};

fn cmd(program: &str, args: &[&str], must_succeed: bool) -> Command {
    Command {
        program: program.to_string(),
        args: args.iter().map(|a| a.to_string()).collect(),
        must_succeed,
    }
}

fn state(display_on: bool, charging: bool, level: u8, android_major: u32) -> DeviceState {
    DeviceState { display_on, charging, level, android_major }
}

fn runtime(text: &str) -> Runtime<()> {
    Runtime::new(parse_config(text).unwrap(), ())
}

#[test]
fn parses_cmd_package_lines() {
    assert_eq!(parse_package_line("package:com.example"), Some("com.example".to_string()));
}

#[test]
fn package_lists_keep_package_lines_only() {
    assert_eq!(parse_package_line("com.example"), None);
    assert_eq!(
        package_list("package:com.a\nnoise\npackage: com.b \n"),
        vec!["com.a".to_string(), "com.b".to_string()]
    );
}

#[test]
fn screen_off_waits_double_up_to_the_cap() {
    let mut rt = runtime("");
    let off = state(false, false, 50, 14);
    let waits: Vec<u64> = (0..6).map(|_| rt.next_wait_secs(off)).collect();
    assert_eq!(waits, vec![60, 120, 240, 320, 320, 320]);
}

#[test]
fn screen_on_waits_grow_linearly_and_reset() {
    let mut rt = runtime("");
    let off = state(false, false, 50, 14);
    let on = state(true, false, 50, 14);
    assert_eq!(rt.next_wait_secs(off), 60);
    let waits: Vec<u64> = (0..7).map(|_| rt.next_wait_secs(on)).collect();
    assert_eq!(waits, vec![85, 90, 95, 100, 105, 110, 110]);
    assert_eq!(rt.next_wait_secs(off), 60);
}

#[test]
fn published_state_is_written_once() {
    let mut rt = runtime("");
    let s = state(true, false, 42, 14);
    let first = rt.publish_state(s);
    assert_eq!(
        first,
        vec![
            ("debug.dcx.screenstate".to_string(), "true".to_string()),
            ("debug.dcx.batterylevel".to_string(), "42".to_string()),
            ("debug.dcx.chargestate".to_string(), "no".to_string()),
        ]
    );
    assert_eq!(rt.charging_step(s), ChargingChange::Unplugged);
    assert_eq!(rt.publish_state(s), vec![]);
    assert_eq!(rt.charging_step(s), ChargingChange::Unchanged);
    let plugged = state(true, true, 42, 14);
    assert_eq!(rt.charging_step(plugged), ChargingChange::PluggedIn);
}

#[test]
fn thermal_status_is_sent_on_change_only() {
    let mut rt = runtime("thermal.enabled=true");
    let s = state(false, false, 50, 14);
    assert_eq!(rt.thermal_step(s, 25), Some(cmd("cmd", &["thermalservice", "override-status", "1"], true)));
    assert_eq!(rt.thermal_step(s, 25), None);
    let low = state(false, false, 20, 14);
    assert_eq!(rt.thermal_step(low, 25), Some(cmd("cmd", &["thermalservice", "override-status", "3"], true)));
    let mid = state(false, false, 22, 14);
    assert_eq!(rt.thermal_step(mid, 25), Some(cmd("cmd", &["thermalservice", "override-status", "2"], true)));
    let charging = state(false, true, 22, 14);
    assert_eq!(rt.thermal_step(charging, 25), Some(cmd("cmd", &["thermalservice", "override-status", "1"], true)));
    let full = state(false, true, 80, 14);
    assert_eq!(rt.thermal_step(full, 25), Some(cmd("cmd", &["thermalservice", "override-status", "0"], true)));
}

#[test]
fn disabled_steps_do_nothing() {
    let mut rt = runtime("battery.enabled=false");
    let s = state(false, false, 10, 14);
    assert_eq!(rt.thermal_step(s, 25), None);
    assert_eq!(rt.sensors_step(s, 25), None);
    assert_eq!(rt.battery_step(s, 25), None);
    assert_eq!(rt.airplane_step(s, 25), AirplaneStep::Keep);
}

#[test]
fn battery_switches_sides_once() {
    let mut rt = runtime("");
    assert_eq!(rt.battery_step(state(false, false, 20, 14), 25), Some(true));
    assert_eq!(rt.battery_step(state(false, false, 21, 14), 25), None);
    assert_eq!(rt.battery_step(state(false, false, 26, 14), 25), Some(false));
}

#[test]
fn sensors_are_restricted_at_low_battery() {
    let mut rt = runtime("sensors.enabled=true");
    assert_eq!(
        rt.sensors_step(state(false, false, 20, 14), 25),
        Some(cmd("dumpsys", &["sensorservice", "restrict", "com.android.shell"], true))
    );
    assert_eq!(rt.sensors_step(state(false, false, 20, 14), 25), None);
}

#[test]
fn airplane_mode_follows_low_battery_charging() {
    let mut rt = runtime("airplane.enabled=true");
    assert_eq!(rt.airplane_step(state(false, true, 20, 14), 25), AirplaneStep::Enable);
    assert_eq!(rt.airplane_step(state(false, true, 20, 14), 25), AirplaneStep::Keep);
    assert_eq!(rt.airplane_step(state(true, true, 20, 14), 25), AirplaneStep::Disable);
    assert_eq!(rt.airplane_step(state(true, true, 20, 14), 25), AirplaneStep::Keep);
}

#[test]
fn compaction_runs_once_after_the_hardlock_ticks() {
    let mut rt = runtime("");
    let off = state(false, false, 50, 13);
    let runs: Vec<bool> = (0..6).map(|_| rt.compaction_step(off)).collect();
    assert_eq!(runs, vec![false, false, false, true, false, false]);
    assert!(!rt.compaction_step(state(true, false, 50, 13)));
    let again: Vec<bool> = (0..4).map(|_| rt.compaction_step(off)).collect();
    assert_eq!(again, vec![false, false, false, true]);
    let mut old = runtime("");
    assert!(!(0..10).any(|_| old.compaction_step(state(false, false, 50, 11))));
}

#[test]
fn watchdog_stops_only_unprotected_packages_after_the_timeout() {
    let mut rt = runtime("watchdog.enabled=true\nwatchdog.timeout_secs=300");
    let running = vec!["com.a".to_string(), "com.b".to_string()];
    let protected = vec!["com.b".to_string()];
    assert!(rt.watchdog_sweep(&running, &protected, 0).is_empty());
    assert!(rt.watchdog_sweep(&running, &protected, 299_000_000_000).is_empty());
    assert_eq!(rt.watchdog_sweep(&running, &protected, 300_000_000_000), vec!["com.a".to_string()]);
}

#[test]
fn commands_read_as_a_dry_run() {
    assert_eq!(dry_run_line(&cmd("cmd", &["power", "set-mode", "1"], true)), "dry-run: cmd power set-mode 1");
    assert_eq!(dry_run_line(&cmd("svc", &[], true)), "dry-run: svc ");
}

#[test]
fn android_tools_resolve_to_system_bin() {
    assert_eq!(resolve_android_tool("cmd"), "/system/bin/cmd");
    assert_eq!(resolve_android_tool("svc"), "/system/bin/svc");
    assert_eq!(resolve_android_tool("sh"), "sh");
}

#[test]
fn literal_commands_keep_their_words() {
    assert_eq!(literal_command("cmd", &["a", "b"], false), cmd("cmd", &["a", "b"], false));
}

#[test]
fn removal_restores_settings() {
    let first = uninstall_commands();
    assert_eq!(first.len(), 11);
    assert!(first.iter().all(|c| !c.must_succeed));
    assert_eq!(first[1], cmd("cmd", &["connectivity", "airplane-mode", "disable"], false));
    let last = final_uninstall_commands();
    assert_eq!(
        last,
        vec![
            cmd("cmd", &["thermalservice", "reset"], false),
            cmd("dumpsys", &["sensorservice", "enable"], false),
            cmd("cmd", &["notification", "set_dnd", "off"], false),
        ]
    );
    assert_eq!(
        standby_restore_command(Some(" 1 \n"), false),
        Some(cmd("cmd", &["settings", "put", "global", "forced_app_standby_enabled", "1"], false))
    );
    assert_eq!(
        standby_restore_command(None, true),
        Some(cmd("cmd", &["settings", "delete", "global", "forced_app_standby_enabled"], false))
    );
    assert_eq!(standby_restore_command(None, false), None);
    assert_eq!(rate_setting_text(120), "120.0");
}

#[test]
fn wifi_comes_back_only_where_it_was_off() {
    assert_eq!(wifi_enable_if_off("0"), Some(cmd("svc", &["wifi", "enable"], true)));
    assert_eq!(wifi_enable_if_off("1"), None);
}

#[test]
fn process_limit_mapping_depends_on_the_release() {
    assert_eq!(limit_mapping_for(14), LimitMapping::Mapped(51));
    assert_eq!(limit_mapping_for(12), LimitMapping::Mapped(44));
    assert_eq!(limit_mapping_for(15), LimitMapping::ByBuild);
    assert_eq!(limit_mapping_for(8), LimitMapping::Unsupported);
    assert_eq!(limit_mapping_by_build("BP4A.250105.001"), 58);
    assert_eq!(limit_mapping_by_build("BP3A.1"), 55);
    assert_eq!(limit_mapping_by_build("AP2A"), 52);
    assert_eq!(limit_processes_command(51, -1), cmd("service", &["call", "activity", "51", "i32", "-1"], true));
}

#[test]
fn plugged_in_log_names_the_threshold() {
    assert_eq!(plugged_in_log(25), "plugged in; threshold=25");
}

#[test]
fn status_report_lists_the_state() {
    let config = UtensilConfig::for_config_path("/data/local/tmp/utensil/utensil.conf");
    let report = status_report(&config, state(true, false, 77, 14), 30, None);
    assert_eq!(
        report,
        "home=/data/local/tmp/utensil\ndisplay_on=true\ncharging=false\nlevel=77\nandroid_major=14\ndynamic_threshold=30\nforeground=unknown\ndry_run=false\n"
    );
    let with_fg = status_report(&config, state(false, true, 5, 12), 25, Some("com.x"));
    assert!(with_fg.contains("foreground=com.x\n"));
}

#[test]
fn package_cache_is_used_while_the_mtime_holds() {
    let mut rt = runtime("");
    assert_eq!(rt.cached_packages(Some(5)), None);
    let stored = rt.store_packages("package:com.a\n", Some(5));
    assert_eq!(stored, vec!["com.a".to_string()]);
    assert_eq!(rt.cached_packages(Some(5)), Some(vec!["com.a".to_string()]));
    assert_eq!(rt.cached_packages(Some(6)), None);
    assert_eq!(rt.cached_packages(None), None);
}

#[test]
fn empty_package_list_is_cached_too() {
    let mut rt = runtime("");
    let stored = rt.store_packages("no packages here\n", Some(5));
    assert_eq!(stored, Vec::<String>::new());
    assert_eq!(rt.cached_packages(Some(5)), Some(Vec::new()));
    assert_eq!(rt.cached_packages(Some(7)), None);
}

#[test]
fn job_cancels_skip_protected_packages() {
    let packages = vec!["com.a".to_string(), "com.b".to_string(), "com.c".to_string()];
    let protected = vec!["com.b".to_string()];
    assert_eq!(
        job_cancel_commands(&packages, &protected),
        vec![
            cmd("cmd", &["jobscheduler", "cancel", "com.a"], true),
            cmd("cmd", &["jobscheduler", "cancel", "com.c"], true),
        ]
    );
}

#[test]
fn fast_idle_forces_deep_idle_once_per_screen_off() {
    let mut rt = runtime("");
    let off = state(false, false, 50, 13);
    assert!(matches!(rt.fast_idle_step(off), IdleStep::AskLightState));
    assert_eq!(
        rt.fast_idle_light("IDLE"),
        Some(cmd("service", &["call", "batterystats", "75", "i32", "1"], false))
    );
    assert_eq!(rt.fast_idle_light("IDLE"), None);
    assert_eq!(
        rt.fast_idle_light("INACTIVE"),
        Some(cmd("service", &["call", "batterystats", "75", "i32", "2"], true))
    );
    assert!(matches!(rt.fast_idle_step(off), IdleStep::Nothing));
    match rt.fast_idle_step(state(true, false, 50, 13)) {
        IdleStep::Run(cs) => assert_eq!(cs, vec![cmd("service", &["call", "batterystats", "75", "i32", "0"], false)]),
        other => panic!("{other:?}"),
    }
    assert!(matches!(rt.fast_idle_step(state(false, false, 50, 11)), IdleStep::Nothing));
}

#[test]
fn drain_is_off_by_default_and_resets_while_charging() {
    let mut rt = runtime("");
    assert_eq!(rt.drain_step(state(false, false, 50, 14), 0), None);
    let mut on = runtime("drain.enabled=true");
    assert_eq!(on.drain_step(state(false, true, 50, 14), 0), None);
    assert_eq!(on.drain_step(state(false, false, 50, 14), 0), None);
}

#[test]
fn drain_is_reported_after_an_hour() {
    let secs = 1_000_000_000u64;
    let mut rt = runtime("drain.enabled=true");
    assert_eq!(rt.drain_step(state(true, false, 80, 14), 0), None);
    assert_eq!(rt.drain_step(state(false, false, 75, 14), 1800 * secs), None);
    assert_eq!(
        rt.drain_step(state(false, false, 70, 14), 3600 * secs),
        Some(DrainReport {
            property: "10%/hr|on:30m|off:30m|dur:3600s|24h:0%".to_string(),
            message: "Drain: 10%/hr | on:30m | off:30m | 24h:0%".to_string(),
        })
    );
    assert_eq!(rt.drain_step(state(false, false, 69, 14), 3700 * secs), None);
}

#[test]
fn first_full_day_reports_the_level_lost_since_the_first_report() {
    let secs = 1_000_000_000u64;
    let hour = 3600 * secs;
    let mut rt = runtime("drain.enabled=true");
    assert_eq!(rt.drain_step(state(false, false, 90, 14), 0), None);
    let first = rt.drain_step(state(false, false, 88, 14), hour).unwrap();
    assert!(first.property.ends_with("|24h:0%"));
    for h in 2..25u64 {
        let r = rt.drain_step(state(false, false, (90 - 2 * h) as u8, 14), h * hour).unwrap();
        assert!(r.property.ends_with("|24h:0%"));
    }
    let day = rt.drain_step(state(false, false, 38, 14), 25 * hour).unwrap();
    assert_eq!(day.property, "4%/hr|on:0m|off:0m|dur:3600s|24h:50%");
    assert_eq!(day.message, "Drain: 4%/hr | on:0m | off:0m | 24h:50%");
}

#[test]
fn dry_run_only_shows_changes() {
    let c = cmd("cmd", &["settings", "put", "global", "low_power", "1"], true);
    let live = runtime("");
    assert_eq!(live.command_action(&c), ChangeAction::Apply);
    assert!(live.applies_changes());
    let dry = runtime("dry_run=true");
    assert_eq!(
        dry.command_action(&c),
        ChangeAction::Show("dry-run: cmd settings put global low_power 1".to_string())
    );
    assert!(!dry.applies_changes());
}

#[test]
fn standby_backup_is_restored_trimmed() {
    let backup = forced_standby_backup(" 1 ").unwrap();
    assert_eq!(
        standby_restore_command(Some(&backup), true),
        Some(cmd("cmd", &["settings", "put", "global", "forced_app_standby_enabled", "1"], false))
    );
}

#[test]
fn whitelisted_and_foreground_packages_are_never_stopped() {
    let protected = with_foreground(
        protected_packages(Some("# apps\ncom.white\n")),
        Some("com.front".to_string()),
    );
    let running = vec!["com.white".to_string(), "com.front".to_string(), "com.other".to_string()];
    let mut rt = runtime("watchdog.enabled=true\nwatchdog.timeout_secs=1");
    assert!(rt.watchdog_sweep(&running, &protected, 0).is_empty());
    assert_eq!(rt.watchdog_sweep(&running, &protected, 5_000_000_000), vec!["com.other".to_string()]);
    assert_eq!(
        job_cancel_commands(&running, &protected),
        vec![cmd("cmd", &["jobscheduler", "cancel", "com.other"], true)]
    );
}

#[test]
fn backed_up_screen_timeout_is_restored() {
    let (timeout, modified) = screen_timeout_backup("60000").unwrap();
    assert_eq!((timeout, modified), (60000, 36000));
    let file = timeout_file_text(timeout);
    assert_eq!(file, "60000\n");
    assert_eq!(
        timeout_restore_command(Some(&file)),
        Some(cmd("cmd", &["settings", "put", "system", "screen_off_timeout", "60000"], false))
    );
    assert_eq!(timeout_restore_command(Some("  \n")), None);
    assert_eq!(timeout_restore_command(None), None);
}

#[test]
fn removal_deletes_the_learning_files_and_markers() {
    let config = UtensilConfig::for_config_path("/data/local/tmp/utensil/utensil.conf");
    let paths = uninstall_removal_paths(&config);
    assert_eq!(paths.len(), 9);
    assert_eq!(paths[0], config.paths.learning_file);
    assert_eq!(paths[1], config.paths.threshold_file);
    assert_eq!(paths[2], config.paths.whitelist_file);
    assert_eq!(paths[3], "/data/local/tmp/utensil/screentimeout.dat");
    assert_eq!(paths[8], "/data/local/tmp/utensil/refreshrateconfig");
}
