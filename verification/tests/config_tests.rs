use std::path::PathBuf;
use std::time::Duration;
use utensil::config::{parse_config, parse_config_with_base, UtensilConfig};

#[test]
fn parses_key_value_config() {
    let config = parse_config(
        "\
battery.dynamic_threshold=33
sensors.enabled=yes
thermal.enabled=on
path.whitelist_file=/tmp/apps.txt
",
    )
    .unwrap();
    assert_eq!(config.battery.dynamic_threshold, 33);
    assert!(config.sensors.enabled);
    assert!(config.thermal.enabled);
    assert_eq!(PathBuf::from(&config.paths.whitelist_file), PathBuf::from("/tmp/apps.txt"));
}

#[test]
fn rejects_unknown_keys() {
    let err = parse_config("unknown.key=true").unwrap_err();
    assert_eq!(err.line, 1);
}

#[test]
fn unknown_key_message_names_the_key() {
    let err = parse_config("# comment\n\nunknown.key=true").unwrap_err();
    assert_eq!(err.line, 3);
    assert_eq!(err.message, "unknown key `unknown.key`");
    assert_eq!(err.text(), "line 3: unknown key `unknown.key`");
}

#[test]
fn rejects_lines_without_equals() {
    let err = parse_config("battery.enabled").unwrap_err();
    assert_eq!(err.line, 1);
    assert_eq!(err.message, "expected key=value");
}

#[test]
fn rejects_bad_values() {
    assert_eq!(parse_config("battery.enabled=maybe").unwrap_err().message, "invalid boolean");
    assert_eq!(parse_config("battery.min_threshold=101").unwrap_err().message, "invalid 0-100 value");
    assert_eq!(parse_config("battery.learn_min_points=-1").unwrap_err().message, "invalid unsigned integer");
    assert_eq!(
        parse_config("battery.background_process_limit_low=x").unwrap_err().message,
        "invalid signed integer"
    );
}

#[test]
fn booleans_ignore_ascii_case() {
    let config = parse_config("dry_run=TRUE\ndoze.enabled=Off\n").unwrap();
    assert!(config.dry_run);
    assert!(!config.doze.enabled);
}

#[test]
fn optional_values_parse_or_clear() {
    let config = parse_config(
        "battery.refresh_rate_low= 60.0 \nbattery.screen_timeout_low_ms=30000\nbattery.background_process_limit_low=\nbattery.background_process_limit_default=-1\n",
    )
    .unwrap();
    assert_eq!(config.battery.refresh_rate_low.as_deref(), Some("60.0"));
    assert_eq!(config.battery.screen_timeout_low_ms, Some(30000));
    assert_eq!(config.battery.background_process_limit_low, None);
    assert_eq!(config.battery.background_process_limit_default, Some(-1));
}

#[test]
fn defaults_follow_the_config_path() {
    let config = UtensilConfig::for_config_path("/data/local/tmp/utensil/utensil.conf");
    assert_eq!(config.paths.home, "/data/local/tmp/utensil");
    assert_eq!(config.paths.learning_file, "/data/local/tmp/utensil/battery_learning.dat");
    assert_eq!(config.paths.threshold_file, "/data/local/tmp/utensil/battery_threshold.dat");
    assert_eq!(config.paths.whitelist_file, "/data/local/tmp/utensil/fileconfig.txt");
    assert_eq!(config.paths.drain_log_file, "/sdcard/chargelog.txt");
    assert_eq!(config.battery.dynamic_threshold, 25);
    assert_eq!(config.battery.max_threshold, 60);
    assert_eq!(config.battery.background_process_limit_low, Some(2));
    assert_eq!(config.compaction.hardlock_ticks, 4);
    assert_eq!(config.watchdog.timeout_secs, 300);

    let other = UtensilConfig::for_config_path("/tmp/custom/utensil.conf");
    assert_eq!(other.paths.home, "/tmp/custom");
    assert_eq!(other.paths.learning_file, "/tmp/custom/battery_learning.dat");

    let bare = UtensilConfig::for_config_path("utensil.conf");
    assert_eq!(bare.paths.home, "/data/local/tmp/utensil");
}

#[test]
fn sleep_duration_depends_on_activity() {
    let config = UtensilConfig::for_config_path("/data/local/tmp/utensil/utensil.conf");
    assert_eq!(config.sleep_duration(true, false), Duration::from_secs(85));
    assert_eq!(config.sleep_duration(false, true), Duration::from_secs(85));
    assert_eq!(config.sleep_duration(false, false), Duration::from_secs(160));
}

#[test]
fn printed_config_reads_back() {
    let mut config = UtensilConfig::for_config_path("/data/local/tmp/utensil/utensil.conf");
    config.battery.dynamic_threshold = 40;
    config.thermal.enabled = true;
    config.watchdog.timeout_secs = 900;
    config.paths.whitelist_file = "/tmp/white.txt".to_string();
    let text = config.to_config_text();
    assert!(text.starts_with("# Utensil Poker Rust config\nbattery.enabled=true\n"));
    assert!(text.contains("\nbattery.refresh_rate_low=\n"));
    assert!(text.contains("\nbattery.background_process_limit_low=2\n"));
    assert!(text.ends_with(
        "path.drain_log_file=/sdcard/chargelog.txt\npath.packages_xml=/data/system/packages.xml\n"
    ));
    let base = UtensilConfig::for_config_path("/data/local/tmp/utensil/utensil.conf");
    let parsed = parse_config_with_base(&text, base).unwrap();
    assert_eq!(parsed, config);
}

#[test]
fn printed_defaults_read_back_as_the_defaults() {
    let defaults = UtensilConfig::for_config_path("/data/local/tmp/utensil/utensil.conf");
    let text = defaults.to_config_text();
    assert!(text.contains("\nbattery.background_process_limit_low=2\n"));
    assert!(text.contains("\nbattery.background_process_limit_default=\n"));
    assert_eq!(parse_config(&text), Ok(defaults));
}

#[test]
fn printed_optional_settings_read_back() {
    let mut config = UtensilConfig::for_config_path("/data/local/tmp/utensil/utensil.conf");
    config.battery.refresh_rate_low = Some("60.0".to_string());
    config.battery.refresh_rate_default = Some("120.0".to_string());
    config.battery.screen_timeout_low_ms = Some(30000);
    config.battery.screen_timeout_default_ms = Some(600000);
    config.battery.background_process_limit_low = Some(-1);
    config.battery.background_process_limit_default = None;
    config.paths.packages_xml = "/tmp/packages.xml".to_string();
    let text = config.to_config_text();
    assert!(text.contains("\nbattery.refresh_rate_low=60.0\nbattery.refresh_rate_default=120.0\n"));
    assert!(text.contains("\nbattery.screen_timeout_low_ms=30000\nbattery.screen_timeout_default_ms=600000\n"));
    assert!(text.contains("\nbattery.background_process_limit_low=-1\nbattery.background_process_limit_default=\n"));
    assert!(text.ends_with("\npath.packages_xml=/tmp/packages.xml\n"));
    let base = UtensilConfig::for_config_path("/somewhere/else/utensil.conf");
    let mut expected = config.clone();
    expected.paths.home = base.paths.home.clone();
    assert_eq!(parse_config_with_base(&text, base), Ok(expected));
}

#[test]
fn packages_xml_path_can_be_set() {
    let config = parse_config("path.packages_xml=/tmp/packages.xml").unwrap();
    assert_eq!(config.paths.packages_xml, "/tmp/packages.xml");
    let default = parse_config("").unwrap();
    assert_eq!(default.paths.packages_xml, "/data/system/packages.xml");
}

#[test]
fn defaults_follow_the_parent_directory() {
    let config = UtensilConfig::for_parent_dir(Some("/x/y".to_string()));
    assert_eq!(config.paths.home, "/x/y");
    assert_eq!(config.paths.whitelist_file, "/x/y/fileconfig.txt");
    assert_eq!(UtensilConfig::for_parent_dir(Some(String::new())).paths.home, "/data/local/tmp/utensil");
    assert_eq!(UtensilConfig::for_parent_dir(None).paths.home, "/data/local/tmp/utensil");
    assert_eq!(UtensilConfig::for_parent_dir(Some("/".to_string())).paths.learning_file, "/battery_learning.dat");
}

#[test]
fn blank_and_comment_lines_change_nothing() {
    let base = UtensilConfig::for_config_path("/data/local/tmp/utensil/utensil.conf");
    assert_eq!(parse_config_with_base("", base.clone()), Ok(base.clone()));
    assert_eq!(parse_config_with_base("# note\n\n   \n  # battery.enabled=false\n", base.clone()), Ok(base));
}

#[test]
fn the_last_setting_of_a_key_wins() {
    let config = parse_config("battery.dynamic_threshold=30\nsensors.enabled=true\nbattery.dynamic_threshold=40\n").unwrap();
    assert_eq!(config.battery.dynamic_threshold, 40);
    assert!(config.sensors.enabled);
}

#[test]
fn settings_no_line_sets_keep_the_base() {
    let mut base = UtensilConfig::for_config_path("/x/utensil.conf");
    base.thermal.critical_level = 12;
    base.paths.packages_xml = "/tmp/p.xml".to_string();
    let parsed = parse_config_with_base("thermal.enabled=true\n", base.clone()).unwrap();
    let mut expected = base.clone();
    expected.thermal.enabled = true;
    assert_eq!(parsed, expected);
}
