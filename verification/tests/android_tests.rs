use utensil::android::{
    android_major_of, battery_level, boot_completed, charging_state, collect_pids,
    default_keyboard_of, default_launcher_of, device_state, display_on, forced_standby_backup,
    is_app_uid, keeps_high_refresh_rate, millis_from_text, package_from_cmdline,
    parse_focusd_status_foreground, parse_max_refresh_rate, parse_refresh_rate_int,
    parse_u64_setting, protected_packages, screen_needs_fallback, screen_timeout_backup,
    screen_value_is_on, status_needs_fallback, whitelist_text, with_foreground,
};
use utensil::runtime::DeviceState;

#[test]
fn parses_corepolicy_status_foreground() {
    assert_eq!(
        parse_focusd_status_foreground("daemon=running\nforeground=com.example\n").as_deref(),
        Some("com.example")
    );
    assert_eq!(parse_focusd_status_foreground("foreground=unknown\n"), None);
}

#[test]
fn foreground_accepts_the_colon_form() {
    assert_eq!(
        parse_focusd_status_foreground("foreground: com.example\n").as_deref(),
        Some("com.example")
    );
    assert_eq!(parse_focusd_status_foreground("daemon=running\n"), None);
}

#[test]
fn parses_display_refresh_rates() {
    assert_eq!(parse_max_refresh_rate("mode 1 fps=60.0, mode 2 fps=120.0,"), Some(120));
}

#[test]
fn refresh_rates_without_modes_are_absent() {
    assert_eq!(parse_max_refresh_rate("no modes here"), None);
    assert_eq!(parse_refresh_rate_int(" 90.0 "), Some(90));
    assert_eq!(parse_refresh_rate_int("null"), None);
}

#[test]
fn screen_values_read_as_on_or_off() {
    for on in ["true", "ON", " Awake ", "2", "awake"] {
        assert!(screen_value_is_on(on), "{on}");
    }
    for off in ["false", "off", "1", "Asleep", ""] {
        assert!(!screen_value_is_on(off), "{off}");
    }
}

#[test]
fn android_major_reads_the_release() {
    assert_eq!(android_major_of("14"), Some(14));
    assert_eq!(android_major_of("13.0.1"), Some(13));
    assert_eq!(android_major_of(""), None);
    assert_eq!(android_major_of("U"), None);
}

#[test]
fn device_state_combines_the_sources() {
    let s = device_state(Some("14"), Some("false"), None, Some("55\n"), None, Some("Charging\n"), None);
    assert_eq!(s, DeviceState { display_on: false, charging: true, level: 55, android_major: 14 });
    let fallback = device_state(None, Some(""), Some("Awake"), None, Some("33"), None, Some("1"));
    assert_eq!(fallback, DeviceState { display_on: true, charging: true, level: 33, android_major: 0 });
    let nothing = device_state(None, None, None, Some("  "), Some("x"), Some(" "), Some("0"));
    assert_eq!(nothing, DeviceState { display_on: true, charging: false, level: 0, android_major: 0 });
}

#[test]
fn probe_fallbacks_are_asked_only_when_needed() {
    assert!(screen_needs_fallback(None));
    assert!(screen_needs_fallback(Some("")));
    assert!(!screen_needs_fallback(Some("false")));
    assert!(status_needs_fallback(Some("  \n")));
    assert!(!status_needs_fallback(Some("Full")));
    assert!(display_on(None, None));
    assert_eq!(battery_level(Some("abc"), Some("12")), 12);
    assert!(charging_state(Some("Full"), Some("0")));
    assert!(!charging_state(Some("Discharging"), Some("1")));
    assert!(!charging_state(None, Some("")));
}

#[test]
fn boot_completion_defaults_to_done() {
    assert!(boot_completed(Some("1")));
    assert!(!boot_completed(Some("0")));
    assert!(boot_completed(None));
}

#[test]
fn settings_values_parse() {
    assert_eq!(parse_u64_setting(" 30000 \n"), Some(30000));
    assert_eq!(parse_u64_setting("null"), None);
    assert_eq!(parse_u64_setting(""), None);
    assert_eq!(millis_from_text(Some("15000\n")), Some(15000));
    assert_eq!(millis_from_text(Some("  ")), None);
    assert_eq!(screen_timeout_backup("30000"), Some((30000, 18000)));
    assert_eq!(screen_timeout_backup("null"), None);
    assert_eq!(forced_standby_backup("1").as_deref(), Some("1\n"));
    assert_eq!(forced_standby_backup("null"), None);
}

#[test]
fn high_refresh_needs_a_fast_display_and_setting() {
    assert!(keeps_high_refresh_rate(Some(120), "120.0"));
    assert!(!keeps_high_refresh_rate(Some(120), "60.0"));
    assert!(!keeps_high_refresh_rate(None, "120"));
}

#[test]
fn default_apps_are_read_from_output() {
    assert_eq!(default_launcher_of("priority=0\ncom.launcher/.Home"), "com.launcher");
    assert_eq!(default_launcher_of(""), "");
    assert_eq!(default_keyboard_of("com.kb/.Ime"), "com.kb");
    assert_eq!(
        whitelist_text("com.launcher", "com.kb"),
        "# Protected apps\ncom.launcher\ncom.kb\ncom.zing.zalo\n"
    );
    assert_eq!(whitelist_text("", ""), "# Protected apps\ncom.zing.zalo\n");
}

#[test]
fn protected_packages_skip_comments_and_blanks() {
    assert_eq!(
        protected_packages(Some("# Protected apps\n com.a \n\n#x\ncom.b")),
        vec!["com.a".to_string(), "com.b".to_string()]
    );
    assert!(protected_packages(None).is_empty());
    let with = with_foreground(vec!["com.a".to_string()], Some("com.b".to_string()));
    assert_eq!(with, vec!["com.a".to_string(), "com.b".to_string()]);
    let same = with_foreground(vec!["com.a".to_string()], Some("com.a".to_string()));
    assert_eq!(same, vec!["com.a".to_string()]);
}

#[test]
fn processes_are_read_from_cgroups_and_cmdlines() {
    let mut pids = vec![7];
    collect_pids(&mut pids, "12\n7\n x\n 13 \n12\n");
    assert_eq!(pids, vec![7, 12, 13]);
    assert!(is_app_uid(10123));
    assert!(!is_app_uid(1000));
    assert!(!is_app_uid(20000));
    assert_eq!(package_from_cmdline("com.example:remote\0\0").as_deref(), Some("com.example"));
    assert_eq!(package_from_cmdline("com.example\0"). as_deref(), Some("com.example"));
    assert_eq!(package_from_cmdline(""), None);
}
