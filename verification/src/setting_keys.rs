//! Which setting a configuration line sets, and what parsing keeps: a
//! setting changes only the field its key names, so every field whose key
//! no line sets keeps the base's value, and the last line that sets a key
//! decides its field.
use vstd::prelude::*;
use crate::config::{
    apply_line, apply_lines, apply_setting, battery_a_setting, battery_b_setting,
    feature_a_setting, feature_b_setting, parse_config_spec, path_setting, thermal_setting,
    BatteryConfigView, CompactionConfig, ConfigErrorView, FeatureConfig, PathConfigView,
    ThermalConfig, UtensilConfigView, WatchdogConfig,
};
use crate::text::{index_of, lemma_index_of_bounds, split_lines, trim};

verus! {

/// The position of the setting named `key` in the order the parser tries
/// them, or -1 for a name that is no setting.
#[verifier::opaque]
pub open spec fn key_index(key: Seq<char>) -> int {
    if key == "battery.enabled"@ {
        0
    } else if key == "battery.dynamic_threshold"@ {
        1
    } else if key == "battery.min_threshold"@ {
        2
    } else if key == "battery.max_threshold"@ {
        3
    } else if key == "battery.learn_min_points"@ {
        4
    } else if key == "battery.learn_max_points"@ {
        5
    } else if key == "battery.force_app_standby"@ {
        6
    } else if key == "battery.dnd_while_charging"@ {
        7
    } else if key == "battery.refresh_rate_low"@ {
        8
    } else if key == "battery.refresh_rate_default"@ {
        9
    } else if key == "battery.screen_timeout_low_ms"@ {
        10
    } else if key == "battery.screen_timeout_default_ms"@ {
        11
    } else if key == "battery.samsung_restricted_performance"@ {
        12
    } else if key == "battery.background_process_limit_low"@ {
        13
    } else if key == "battery.background_process_limit_default"@ {
        14
    } else if key == "thermal.enabled"@ {
        15
    } else if key == "thermal.charging_status"@ {
        16
    } else if key == "thermal.charging_done_status"@ {
        17
    } else if key == "thermal.discharging_normal"@ {
        18
    } else if key == "thermal.discharging_low"@ {
        19
    } else if key == "thermal.discharging_critical"@ {
        20
    } else if key == "thermal.critical_level"@ {
        21
    } else if key == "sensors.enabled"@ {
        22
    } else if key == "airplane.enabled"@ {
        23
    } else if key == "doze.enabled"@ {
        24
    } else if key == "compaction.enabled"@ {
        25
    } else if key == "compaction.hardlock_ticks"@ {
        26
    } else if key == "watchdog.enabled"@ {
        27
    } else if key == "watchdog.jobscheduler"@ {
        28
    } else if key == "watchdog.timeout_secs"@ {
        29
    } else if key == "watchdog.idle_threshold_secs"@ {
        30
    } else if key == "drain.enabled"@ {
        31
    } else if key == "notification.enabled"@ {
        32
    } else if key == "logging.enabled"@ {
        33
    } else if key == "dry_run"@ {
        34
    } else if key == "path.learning_file"@ {
        35
    } else if key == "path.threshold_file"@ {
        36
    } else if key == "path.whitelist_file"@ {
        37
    } else if key == "path.drain_log_file"@ {
        38
    } else if key == "path.packages_xml"@ {
        39
    } else {
        -1
    }
}

/// The name of the setting at position `i`.
pub open spec fn key_name(i: int) -> Seq<char> {
    if i == 0 {
        "battery.enabled"@
    } else if i == 1 {
        "battery.dynamic_threshold"@
    } else if i == 2 {
        "battery.min_threshold"@
    } else if i == 3 {
        "battery.max_threshold"@
    } else if i == 4 {
        "battery.learn_min_points"@
    } else if i == 5 {
        "battery.learn_max_points"@
    } else if i == 6 {
        "battery.force_app_standby"@
    } else if i == 7 {
        "battery.dnd_while_charging"@
    } else if i == 8 {
        "battery.refresh_rate_low"@
    } else if i == 9 {
        "battery.refresh_rate_default"@
    } else if i == 10 {
        "battery.screen_timeout_low_ms"@
    } else if i == 11 {
        "battery.screen_timeout_default_ms"@
    } else if i == 12 {
        "battery.samsung_restricted_performance"@
    } else if i == 13 {
        "battery.background_process_limit_low"@
    } else if i == 14 {
        "battery.background_process_limit_default"@
    } else if i == 15 {
        "thermal.enabled"@
    } else if i == 16 {
        "thermal.charging_status"@
    } else if i == 17 {
        "thermal.charging_done_status"@
    } else if i == 18 {
        "thermal.discharging_normal"@
    } else if i == 19 {
        "thermal.discharging_low"@
    } else if i == 20 {
        "thermal.discharging_critical"@
    } else if i == 21 {
        "thermal.critical_level"@
    } else if i == 22 {
        "sensors.enabled"@
    } else if i == 23 {
        "airplane.enabled"@
    } else if i == 24 {
        "doze.enabled"@
    } else if i == 25 {
        "compaction.enabled"@
    } else if i == 26 {
        "compaction.hardlock_ticks"@
    } else if i == 27 {
        "watchdog.enabled"@
    } else if i == 28 {
        "watchdog.jobscheduler"@
    } else if i == 29 {
        "watchdog.timeout_secs"@
    } else if i == 30 {
        "watchdog.idle_threshold_secs"@
    } else if i == 31 {
        "drain.enabled"@
    } else if i == 32 {
        "notification.enabled"@
    } else if i == 33 {
        "logging.enabled"@
    } else if i == 34 {
        "dry_run"@
    } else if i == 35 {
        "path.learning_file"@
    } else if i == 36 {
        "path.threshold_file"@
    } else if i == 37 {
        "path.whitelist_file"@
    } else if i == 38 {
        "path.drain_log_file"@
    } else if i == 39 {
        "path.packages_xml"@
    } else {
        Seq::empty()
    }
}

/// Whether `a` and `b` hold the same value for the setting at position `i`.
#[verifier::opaque]
pub open spec fn field_eq(a: UtensilConfigView, b: UtensilConfigView, i: int) -> bool {
    if i == 0 {
        a.battery.enabled == b.battery.enabled
    } else if i == 1 {
        a.battery.dynamic_threshold == b.battery.dynamic_threshold
    } else if i == 2 {
        a.battery.min_threshold == b.battery.min_threshold
    } else if i == 3 {
        a.battery.max_threshold == b.battery.max_threshold
    } else if i == 4 {
        a.battery.learn_min_points == b.battery.learn_min_points
    } else if i == 5 {
        a.battery.learn_max_points == b.battery.learn_max_points
    } else if i == 6 {
        a.battery.force_app_standby == b.battery.force_app_standby
    } else if i == 7 {
        a.battery.dnd_while_charging == b.battery.dnd_while_charging
    } else if i == 8 {
        a.battery.refresh_rate_low == b.battery.refresh_rate_low
    } else if i == 9 {
        a.battery.refresh_rate_default == b.battery.refresh_rate_default
    } else if i == 10 {
        a.battery.screen_timeout_low_ms == b.battery.screen_timeout_low_ms
    } else if i == 11 {
        a.battery.screen_timeout_default_ms == b.battery.screen_timeout_default_ms
    } else if i == 12 {
        a.battery.samsung_restricted_performance == b.battery.samsung_restricted_performance
    } else if i == 13 {
        a.battery.background_process_limit_low == b.battery.background_process_limit_low
    } else if i == 14 {
        a.battery.background_process_limit_default == b.battery.background_process_limit_default
    } else if i == 15 {
        a.thermal.enabled == b.thermal.enabled
    } else if i == 16 {
        a.thermal.charging_status == b.thermal.charging_status
    } else if i == 17 {
        a.thermal.charging_done_status == b.thermal.charging_done_status
    } else if i == 18 {
        a.thermal.discharging_normal == b.thermal.discharging_normal
    } else if i == 19 {
        a.thermal.discharging_low == b.thermal.discharging_low
    } else if i == 20 {
        a.thermal.discharging_critical == b.thermal.discharging_critical
    } else if i == 21 {
        a.thermal.critical_level == b.thermal.critical_level
    } else if i == 22 {
        a.sensors.enabled == b.sensors.enabled
    } else if i == 23 {
        a.airplane.enabled == b.airplane.enabled
    } else if i == 24 {
        a.doze.enabled == b.doze.enabled
    } else if i == 25 {
        a.compaction.enabled == b.compaction.enabled
    } else if i == 26 {
        a.compaction.hardlock_ticks == b.compaction.hardlock_ticks
    } else if i == 27 {
        a.watchdog.enabled == b.watchdog.enabled
    } else if i == 28 {
        a.watchdog.jobscheduler == b.watchdog.jobscheduler
    } else if i == 29 {
        a.watchdog.timeout_secs == b.watchdog.timeout_secs
    } else if i == 30 {
        a.watchdog.idle_threshold_secs == b.watchdog.idle_threshold_secs
    } else if i == 31 {
        a.drain.enabled == b.drain.enabled
    } else if i == 32 {
        a.notification.enabled == b.notification.enabled
    } else if i == 33 {
        a.logging.enabled == b.logging.enabled
    } else if i == 34 {
        a.dry_run == b.dry_run
    } else if i == 35 {
        a.paths.learning_file == b.paths.learning_file
    } else if i == 36 {
        a.paths.threshold_file == b.paths.threshold_file
    } else if i == 37 {
        a.paths.whitelist_file == b.paths.whitelist_file
    } else if i == 38 {
        a.paths.drain_log_file == b.paths.drain_log_file
    } else if i == 39 {
        a.paths.packages_xml == b.paths.packages_xml
    } else {
        true
    }
}

/// Whether `a` and `b` hold the same value for the setting named `key`
/// (true for a name that is no setting).
pub open spec fn same_setting(a: UtensilConfigView, b: UtensilConfigView, key: Seq<char>) -> bool {
    field_eq(a, b, key_index(key))
}

proof fn lemma_key_index(key: Seq<char>)
    ensures
        -1 <= key_index(key) < 40,
        key_index(key) >= 0 ==> key == key_name(key_index(key)),
{
    reveal(key_index);
}

/// The name of the setting a line sets, where it is a `key=value` line
/// (blank lines, comments and lines without `=` set none).
pub open spec fn line_key(line: Seq<char>) -> Option<Seq<char>> {
    let t = trim(line);
    if t.len() == 0 || t[0] == '#' {
        None
    } else {
        let eq = index_of(t, '=');
        if eq >= t.len() {
            None
        } else {
            Some(trim(t.subrange(0, eq as int)))
        }
    }
}

/// The value a `key=value` line gives, trimmed.
pub open spec fn line_value(line: Seq<char>) -> Seq<char> {
    let t = trim(line);
    let eq = index_of(t, '=');
    trim(t.subrange(eq as int + 1, t.len() as int))
}

/// Whether some line of `text` sets `key`.
pub open spec fn sets_key(text: Seq<char>, key: Seq<char>) -> bool {
    exists|i: int| 0 <= i < split_lines(text).len() && #[trigger] line_key(split_lines(text)[i]) == Some(key)
}

proof fn lemma_line_shape(line: Seq<char>, n: nat, x: UtensilConfigView)
    ensures
        line_key(line) is None && apply_line(line, n, x) is Ok ==> apply_line(line, n, x) == Ok::<
            UtensilConfigView,
            ConfigErrorView,
        >(x),
        line_key(line) matches Some(k) ==> apply_line(line, n, x) == apply_setting(k, line_value(line), n, x),
{
}

proof fn lemma_same_setting_refl(a: UtensilConfigView, k: Seq<char>)
    ensures
        same_setting(a, a, k),
{
    reveal(field_eq);
}

proof fn lemma_same_setting_trans(a: UtensilConfigView, b: UtensilConfigView, c: UtensilConfigView, k: Seq<char>)
    requires
        same_setting(a, b, k),
        same_setting(b, c, k),
    ensures
        same_setting(a, c, k),
{
    reveal(field_eq);
}

proof fn lemma_frame_0(x: UtensilConfigView, y: UtensilConfigView, k: Seq<char>)
    requires
        y == (UtensilConfigView { battery: BatteryConfigView { enabled: y.battery.enabled, ..x.battery }, ..x }),
        key_index(k) != 0,
    ensures
        same_setting(y, x, k),
{
    reveal(field_eq);
}

proof fn lemma_frame_1(x: UtensilConfigView, y: UtensilConfigView, k: Seq<char>)
    requires
        y == (UtensilConfigView { battery: BatteryConfigView { dynamic_threshold: y.battery.dynamic_threshold, ..x.battery }, ..x }),
        key_index(k) != 1,
    ensures
        same_setting(y, x, k),
{
    reveal(field_eq);
}

proof fn lemma_frame_2(x: UtensilConfigView, y: UtensilConfigView, k: Seq<char>)
    requires
        y == (UtensilConfigView { battery: BatteryConfigView { min_threshold: y.battery.min_threshold, ..x.battery }, ..x }),
        key_index(k) != 2,
    ensures
        same_setting(y, x, k),
{
    reveal(field_eq);
}

proof fn lemma_frame_3(x: UtensilConfigView, y: UtensilConfigView, k: Seq<char>)
    requires
        y == (UtensilConfigView { battery: BatteryConfigView { max_threshold: y.battery.max_threshold, ..x.battery }, ..x }),
        key_index(k) != 3,
    ensures
        same_setting(y, x, k),
{
    reveal(field_eq);
}

proof fn lemma_frame_4(x: UtensilConfigView, y: UtensilConfigView, k: Seq<char>)
    requires
        y == (UtensilConfigView { battery: BatteryConfigView { learn_min_points: y.battery.learn_min_points, ..x.battery }, ..x }),
        key_index(k) != 4,
    ensures
        same_setting(y, x, k),
{
    reveal(field_eq);
}

proof fn lemma_frame_5(x: UtensilConfigView, y: UtensilConfigView, k: Seq<char>)
    requires
        y == (UtensilConfigView { battery: BatteryConfigView { learn_max_points: y.battery.learn_max_points, ..x.battery }, ..x }),
        key_index(k) != 5,
    ensures
        same_setting(y, x, k),
{
    reveal(field_eq);
}

proof fn lemma_frame_6(x: UtensilConfigView, y: UtensilConfigView, k: Seq<char>)
    requires
        y == (UtensilConfigView { battery: BatteryConfigView { force_app_standby: y.battery.force_app_standby, ..x.battery }, ..x }),
        key_index(k) != 6,
    ensures
        same_setting(y, x, k),
{
    reveal(field_eq);
}

proof fn lemma_frame_7(x: UtensilConfigView, y: UtensilConfigView, k: Seq<char>)
    requires
        y == (UtensilConfigView { battery: BatteryConfigView { dnd_while_charging: y.battery.dnd_while_charging, ..x.battery }, ..x }),
        key_index(k) != 7,
    ensures
        same_setting(y, x, k),
{
    reveal(field_eq);
}

proof fn lemma_frame_8(x: UtensilConfigView, y: UtensilConfigView, k: Seq<char>)
    requires
        y == (UtensilConfigView { battery: BatteryConfigView { refresh_rate_low: y.battery.refresh_rate_low, ..x.battery }, ..x }),
        key_index(k) != 8,
    ensures
        same_setting(y, x, k),
{
    reveal(field_eq);
}

proof fn lemma_frame_9(x: UtensilConfigView, y: UtensilConfigView, k: Seq<char>)
    requires
        y == (UtensilConfigView { battery: BatteryConfigView { refresh_rate_default: y.battery.refresh_rate_default, ..x.battery }, ..x }),
        key_index(k) != 9,
    ensures
        same_setting(y, x, k),
{
    reveal(field_eq);
}

proof fn lemma_frame_10(x: UtensilConfigView, y: UtensilConfigView, k: Seq<char>)
    requires
        y == (UtensilConfigView { battery: BatteryConfigView { screen_timeout_low_ms: y.battery.screen_timeout_low_ms, ..x.battery }, ..x }),
        key_index(k) != 10,
    ensures
        same_setting(y, x, k),
{
    reveal(field_eq);
}

proof fn lemma_frame_11(x: UtensilConfigView, y: UtensilConfigView, k: Seq<char>)
    requires
        y == (UtensilConfigView { battery: BatteryConfigView { screen_timeout_default_ms: y.battery.screen_timeout_default_ms, ..x.battery }, ..x }),
        key_index(k) != 11,
    ensures
        same_setting(y, x, k),
{
    reveal(field_eq);
}

proof fn lemma_frame_12(x: UtensilConfigView, y: UtensilConfigView, k: Seq<char>)
    requires
        y == (UtensilConfigView { battery: BatteryConfigView { samsung_restricted_performance: y.battery.samsung_restricted_performance, ..x.battery }, ..x }),
        key_index(k) != 12,
    ensures
        same_setting(y, x, k),
{
    reveal(field_eq);
}

proof fn lemma_frame_13(x: UtensilConfigView, y: UtensilConfigView, k: Seq<char>)
    requires
        y == (UtensilConfigView { battery: BatteryConfigView { background_process_limit_low: y.battery.background_process_limit_low, ..x.battery }, ..x }),
        key_index(k) != 13,
    ensures
        same_setting(y, x, k),
{
    reveal(field_eq);
}

proof fn lemma_frame_14(x: UtensilConfigView, y: UtensilConfigView, k: Seq<char>)
    requires
        y == (UtensilConfigView { battery: BatteryConfigView { background_process_limit_default: y.battery.background_process_limit_default, ..x.battery }, ..x }),
        key_index(k) != 14,
    ensures
        same_setting(y, x, k),
{
    reveal(field_eq);
}

proof fn lemma_frame_15(x: UtensilConfigView, y: UtensilConfigView, k: Seq<char>)
    requires
        y == (UtensilConfigView { thermal: ThermalConfig { enabled: y.thermal.enabled, ..x.thermal }, ..x }),
        key_index(k) != 15,
    ensures
        same_setting(y, x, k),
{
    reveal(field_eq);
}

proof fn lemma_frame_16(x: UtensilConfigView, y: UtensilConfigView, k: Seq<char>)
    requires
        y == (UtensilConfigView { thermal: ThermalConfig { charging_status: y.thermal.charging_status, ..x.thermal }, ..x }),
        key_index(k) != 16,
    ensures
        same_setting(y, x, k),
{
    reveal(field_eq);
}

proof fn lemma_frame_17(x: UtensilConfigView, y: UtensilConfigView, k: Seq<char>)
    requires
        y == (UtensilConfigView { thermal: ThermalConfig { charging_done_status: y.thermal.charging_done_status, ..x.thermal }, ..x }),
        key_index(k) != 17,
    ensures
        same_setting(y, x, k),
{
    reveal(field_eq);
}

proof fn lemma_frame_18(x: UtensilConfigView, y: UtensilConfigView, k: Seq<char>)
    requires
        y == (UtensilConfigView { thermal: ThermalConfig { discharging_normal: y.thermal.discharging_normal, ..x.thermal }, ..x }),
        key_index(k) != 18,
    ensures
        same_setting(y, x, k),
{
    reveal(field_eq);
}

proof fn lemma_frame_19(x: UtensilConfigView, y: UtensilConfigView, k: Seq<char>)
    requires
        y == (UtensilConfigView { thermal: ThermalConfig { discharging_low: y.thermal.discharging_low, ..x.thermal }, ..x }),
        key_index(k) != 19,
    ensures
        same_setting(y, x, k),
{
    reveal(field_eq);
}

proof fn lemma_frame_20(x: UtensilConfigView, y: UtensilConfigView, k: Seq<char>)
    requires
        y == (UtensilConfigView { thermal: ThermalConfig { discharging_critical: y.thermal.discharging_critical, ..x.thermal }, ..x }),
        key_index(k) != 20,
    ensures
        same_setting(y, x, k),
{
    reveal(field_eq);
}

proof fn lemma_frame_21(x: UtensilConfigView, y: UtensilConfigView, k: Seq<char>)
    requires
        y == (UtensilConfigView { thermal: ThermalConfig { critical_level: y.thermal.critical_level, ..x.thermal }, ..x }),
        key_index(k) != 21,
    ensures
        same_setting(y, x, k),
{
    reveal(field_eq);
}

proof fn lemma_frame_22(x: UtensilConfigView, y: UtensilConfigView, k: Seq<char>)
    requires
        y == (UtensilConfigView { sensors: FeatureConfig { enabled: y.sensors.enabled, ..x.sensors }, ..x }),
        key_index(k) != 22,
    ensures
        same_setting(y, x, k),
{
    reveal(field_eq);
}

proof fn lemma_frame_23(x: UtensilConfigView, y: UtensilConfigView, k: Seq<char>)
    requires
        y == (UtensilConfigView { airplane: FeatureConfig { enabled: y.airplane.enabled, ..x.airplane }, ..x }),
        key_index(k) != 23,
    ensures
        same_setting(y, x, k),
{
    reveal(field_eq);
}

proof fn lemma_frame_24(x: UtensilConfigView, y: UtensilConfigView, k: Seq<char>)
    requires
        y == (UtensilConfigView { doze: FeatureConfig { enabled: y.doze.enabled, ..x.doze }, ..x }),
        key_index(k) != 24,
    ensures
        same_setting(y, x, k),
{
    reveal(field_eq);
}

proof fn lemma_frame_25(x: UtensilConfigView, y: UtensilConfigView, k: Seq<char>)
    requires
        y == (UtensilConfigView { compaction: CompactionConfig { enabled: y.compaction.enabled, ..x.compaction }, ..x }),
        key_index(k) != 25,
    ensures
        same_setting(y, x, k),
{
    reveal(field_eq);
}

proof fn lemma_frame_26(x: UtensilConfigView, y: UtensilConfigView, k: Seq<char>)
    requires
        y == (UtensilConfigView { compaction: CompactionConfig { hardlock_ticks: y.compaction.hardlock_ticks, ..x.compaction }, ..x }),
        key_index(k) != 26,
    ensures
        same_setting(y, x, k),
{
    reveal(field_eq);
}

proof fn lemma_frame_27(x: UtensilConfigView, y: UtensilConfigView, k: Seq<char>)
    requires
        y == (UtensilConfigView { watchdog: WatchdogConfig { enabled: y.watchdog.enabled, ..x.watchdog }, ..x }),
        key_index(k) != 27,
    ensures
        same_setting(y, x, k),
{
    reveal(field_eq);
}

proof fn lemma_frame_28(x: UtensilConfigView, y: UtensilConfigView, k: Seq<char>)
    requires
        y == (UtensilConfigView { watchdog: WatchdogConfig { jobscheduler: y.watchdog.jobscheduler, ..x.watchdog }, ..x }),
        key_index(k) != 28,
    ensures
        same_setting(y, x, k),
{
    reveal(field_eq);
}

proof fn lemma_frame_29(x: UtensilConfigView, y: UtensilConfigView, k: Seq<char>)
    requires
        y == (UtensilConfigView { watchdog: WatchdogConfig { timeout_secs: y.watchdog.timeout_secs, ..x.watchdog }, ..x }),
        key_index(k) != 29,
    ensures
        same_setting(y, x, k),
{
    reveal(field_eq);
}

proof fn lemma_frame_30(x: UtensilConfigView, y: UtensilConfigView, k: Seq<char>)
    requires
        y == (UtensilConfigView { watchdog: WatchdogConfig { idle_threshold_secs: y.watchdog.idle_threshold_secs, ..x.watchdog }, ..x }),
        key_index(k) != 30,
    ensures
        same_setting(y, x, k),
{
    reveal(field_eq);
}

proof fn lemma_frame_31(x: UtensilConfigView, y: UtensilConfigView, k: Seq<char>)
    requires
        y == (UtensilConfigView { drain: FeatureConfig { enabled: y.drain.enabled, ..x.drain }, ..x }),
        key_index(k) != 31,
    ensures
        same_setting(y, x, k),
{
    reveal(field_eq);
}

proof fn lemma_frame_32(x: UtensilConfigView, y: UtensilConfigView, k: Seq<char>)
    requires
        y == (UtensilConfigView { notification: FeatureConfig { enabled: y.notification.enabled, ..x.notification }, ..x }),
        key_index(k) != 32,
    ensures
        same_setting(y, x, k),
{
    reveal(field_eq);
}

proof fn lemma_frame_33(x: UtensilConfigView, y: UtensilConfigView, k: Seq<char>)
    requires
        y == (UtensilConfigView { logging: FeatureConfig { enabled: y.logging.enabled, ..x.logging }, ..x }),
        key_index(k) != 33,
    ensures
        same_setting(y, x, k),
{
    reveal(field_eq);
}

proof fn lemma_frame_34(x: UtensilConfigView, y: UtensilConfigView, k: Seq<char>)
    requires
        y == (UtensilConfigView { dry_run: y.dry_run, ..x }),
        key_index(k) != 34,
    ensures
        same_setting(y, x, k),
{
    reveal(field_eq);
}

proof fn lemma_frame_35(x: UtensilConfigView, y: UtensilConfigView, k: Seq<char>)
    requires
        y == (UtensilConfigView { paths: PathConfigView { learning_file: y.paths.learning_file, ..x.paths }, ..x }),
        key_index(k) != 35,
    ensures
        same_setting(y, x, k),
{
    reveal(field_eq);
}

proof fn lemma_frame_36(x: UtensilConfigView, y: UtensilConfigView, k: Seq<char>)
    requires
        y == (UtensilConfigView { paths: PathConfigView { threshold_file: y.paths.threshold_file, ..x.paths }, ..x }),
        key_index(k) != 36,
    ensures
        same_setting(y, x, k),
{
    reveal(field_eq);
}

proof fn lemma_frame_37(x: UtensilConfigView, y: UtensilConfigView, k: Seq<char>)
    requires
        y == (UtensilConfigView { paths: PathConfigView { whitelist_file: y.paths.whitelist_file, ..x.paths }, ..x }),
        key_index(k) != 37,
    ensures
        same_setting(y, x, k),
{
    reveal(field_eq);
}

proof fn lemma_frame_38(x: UtensilConfigView, y: UtensilConfigView, k: Seq<char>)
    requires
        y == (UtensilConfigView { paths: PathConfigView { drain_log_file: y.paths.drain_log_file, ..x.paths }, ..x }),
        key_index(k) != 38,
    ensures
        same_setting(y, x, k),
{
    reveal(field_eq);
}

proof fn lemma_frame_39(x: UtensilConfigView, y: UtensilConfigView, k: Seq<char>)
    requires
        y == (UtensilConfigView { paths: PathConfigView { packages_xml: y.paths.packages_xml, ..x.paths }, ..x }),
        key_index(k) != 39,
    ensures
        same_setting(y, x, k),
{
    reveal(field_eq);
}

#[verifier::rlimit(100)]
#[verifier::spinoff_prover]
proof fn lemma_battery_a_frame(k1: Seq<char>, v: Seq<char>, n: nat, m: nat, x: UtensilConfigView, z: UtensilConfigView)
    ensures
        match battery_a_setting(k1, v, n, x) {
            Some(Ok(y)) => {
                &&& y.paths.home == x.paths.home
                &&& forall|k: Seq<char>| k != k1 ==> #[trigger] same_setting(y, x, k)
                &&& battery_a_setting(k1, v, m, z) matches Some(Ok(y2)) && same_setting(y, y2, k1)
            },
            _ => true,
        },
{
    if let Some(Ok(y)) = battery_a_setting(k1, v, n, x) {
        if k1 == "battery.enabled"@ {
        assert(key_index(k1) == 0) by {
            reveal(key_index);
        }
        assert forall|k: Seq<char>| k != k1 implies #[trigger] same_setting(y, x, k) by {
            lemma_key_index(k);
            if key_index(k) != 0 {
                lemma_frame_0(x, y, k);
            }
        }
        assert(battery_a_setting(k1, v, m, z) matches Some(Ok(y2)) && same_setting(y, y2, k1)) by {
            reveal(field_eq);
        }
    } else if k1 == "battery.dynamic_threshold"@ {
        assert(key_index(k1) == 1) by {
            reveal(key_index);
        }
        assert forall|k: Seq<char>| k != k1 implies #[trigger] same_setting(y, x, k) by {
            lemma_key_index(k);
            if key_index(k) != 1 {
                lemma_frame_1(x, y, k);
            }
        }
        assert(battery_a_setting(k1, v, m, z) matches Some(Ok(y2)) && same_setting(y, y2, k1)) by {
            reveal(field_eq);
        }
    } else if k1 == "battery.min_threshold"@ {
        assert(key_index(k1) == 2) by {
            reveal(key_index);
        }
        assert forall|k: Seq<char>| k != k1 implies #[trigger] same_setting(y, x, k) by {
            lemma_key_index(k);
            if key_index(k) != 2 {
                lemma_frame_2(x, y, k);
            }
        }
        assert(battery_a_setting(k1, v, m, z) matches Some(Ok(y2)) && same_setting(y, y2, k1)) by {
            reveal(field_eq);
        }
    } else if k1 == "battery.max_threshold"@ {
        assert(key_index(k1) == 3) by {
            reveal(key_index);
        }
        assert forall|k: Seq<char>| k != k1 implies #[trigger] same_setting(y, x, k) by {
            lemma_key_index(k);
            if key_index(k) != 3 {
                lemma_frame_3(x, y, k);
            }
        }
        assert(battery_a_setting(k1, v, m, z) matches Some(Ok(y2)) && same_setting(y, y2, k1)) by {
            reveal(field_eq);
        }
    } else if k1 == "battery.learn_min_points"@ {
        assert(key_index(k1) == 4) by {
            reveal(key_index);
        }
        assert forall|k: Seq<char>| k != k1 implies #[trigger] same_setting(y, x, k) by {
            lemma_key_index(k);
            if key_index(k) != 4 {
                lemma_frame_4(x, y, k);
            }
        }
        assert(battery_a_setting(k1, v, m, z) matches Some(Ok(y2)) && same_setting(y, y2, k1)) by {
            reveal(field_eq);
        }
    } else if k1 == "battery.learn_max_points"@ {
        assert(key_index(k1) == 5) by {
            reveal(key_index);
        }
        assert forall|k: Seq<char>| k != k1 implies #[trigger] same_setting(y, x, k) by {
            lemma_key_index(k);
            if key_index(k) != 5 {
                lemma_frame_5(x, y, k);
            }
        }
        assert(battery_a_setting(k1, v, m, z) matches Some(Ok(y2)) && same_setting(y, y2, k1)) by {
            reveal(field_eq);
        }
    } else if k1 == "battery.force_app_standby"@ {
        assert(key_index(k1) == 6) by {
            reveal(key_index);
        }
        assert forall|k: Seq<char>| k != k1 implies #[trigger] same_setting(y, x, k) by {
            lemma_key_index(k);
            if key_index(k) != 6 {
                lemma_frame_6(x, y, k);
            }
        }
        assert(battery_a_setting(k1, v, m, z) matches Some(Ok(y2)) && same_setting(y, y2, k1)) by {
            reveal(field_eq);
        }
    } else if k1 == "battery.dnd_while_charging"@ {
        assert(key_index(k1) == 7) by {
            reveal(key_index);
        }
        assert forall|k: Seq<char>| k != k1 implies #[trigger] same_setting(y, x, k) by {
            lemma_key_index(k);
            if key_index(k) != 7 {
                lemma_frame_7(x, y, k);
            }
        }
        assert(battery_a_setting(k1, v, m, z) matches Some(Ok(y2)) && same_setting(y, y2, k1)) by {
            reveal(field_eq);
        }
    }
    }
}

#[verifier::rlimit(100)]
#[verifier::spinoff_prover]
proof fn lemma_battery_b_frame(k1: Seq<char>, v: Seq<char>, n: nat, m: nat, x: UtensilConfigView, z: UtensilConfigView)
    requires
        battery_a_setting(k1, v, n, x) is None,
        battery_a_setting(k1, v, m, z) is None,
    ensures
        match battery_b_setting(k1, v, n, x) {
            Some(Ok(y)) => {
                &&& y.paths.home == x.paths.home
                &&& forall|k: Seq<char>| k != k1 ==> #[trigger] same_setting(y, x, k)
                &&& battery_b_setting(k1, v, m, z) matches Some(Ok(y2)) && same_setting(y, y2, k1)
            },
            _ => true,
        },
{
    if let Some(Ok(y)) = battery_b_setting(k1, v, n, x) {
        if k1 == "battery.refresh_rate_low"@ {
        assert(key_index(k1) == 8) by {
            reveal(key_index);
        }
        assert forall|k: Seq<char>| k != k1 implies #[trigger] same_setting(y, x, k) by {
            lemma_key_index(k);
            if key_index(k) != 8 {
                lemma_frame_8(x, y, k);
            }
        }
        assert(battery_b_setting(k1, v, m, z) matches Some(Ok(y2)) && same_setting(y, y2, k1)) by {
            reveal(field_eq);
        }
    } else if k1 == "battery.refresh_rate_default"@ {
        assert(key_index(k1) == 9) by {
            reveal(key_index);
        }
        assert forall|k: Seq<char>| k != k1 implies #[trigger] same_setting(y, x, k) by {
            lemma_key_index(k);
            if key_index(k) != 9 {
                lemma_frame_9(x, y, k);
            }
        }
        assert(battery_b_setting(k1, v, m, z) matches Some(Ok(y2)) && same_setting(y, y2, k1)) by {
            reveal(field_eq);
        }
    } else if k1 == "battery.screen_timeout_low_ms"@ {
        assert(key_index(k1) == 10) by {
            reveal(key_index);
        }
        assert forall|k: Seq<char>| k != k1 implies #[trigger] same_setting(y, x, k) by {
            lemma_key_index(k);
            if key_index(k) != 10 {
                lemma_frame_10(x, y, k);
            }
        }
        assert(battery_b_setting(k1, v, m, z) matches Some(Ok(y2)) && same_setting(y, y2, k1)) by {
            reveal(field_eq);
        }
    } else if k1 == "battery.screen_timeout_default_ms"@ {
        assert(key_index(k1) == 11) by {
            reveal(key_index);
        }
        assert forall|k: Seq<char>| k != k1 implies #[trigger] same_setting(y, x, k) by {
            lemma_key_index(k);
            if key_index(k) != 11 {
                lemma_frame_11(x, y, k);
            }
        }
        assert(battery_b_setting(k1, v, m, z) matches Some(Ok(y2)) && same_setting(y, y2, k1)) by {
            reveal(field_eq);
        }
    } else if k1 == "battery.samsung_restricted_performance"@ {
        assert(key_index(k1) == 12) by {
            reveal(key_index);
        }
        assert forall|k: Seq<char>| k != k1 implies #[trigger] same_setting(y, x, k) by {
            lemma_key_index(k);
            if key_index(k) != 12 {
                lemma_frame_12(x, y, k);
            }
        }
        assert(battery_b_setting(k1, v, m, z) matches Some(Ok(y2)) && same_setting(y, y2, k1)) by {
            reveal(field_eq);
        }
    } else if k1 == "battery.background_process_limit_low"@ {
        assert(key_index(k1) == 13) by {
            reveal(key_index);
        }
        assert forall|k: Seq<char>| k != k1 implies #[trigger] same_setting(y, x, k) by {
            lemma_key_index(k);
            if key_index(k) != 13 {
                lemma_frame_13(x, y, k);
            }
        }
        assert(battery_b_setting(k1, v, m, z) matches Some(Ok(y2)) && same_setting(y, y2, k1)) by {
            reveal(field_eq);
        }
    } else if k1 == "battery.background_process_limit_default"@ {
        assert(key_index(k1) == 14) by {
            reveal(key_index);
        }
        assert forall|k: Seq<char>| k != k1 implies #[trigger] same_setting(y, x, k) by {
            lemma_key_index(k);
            if key_index(k) != 14 {
                lemma_frame_14(x, y, k);
            }
        }
        assert(battery_b_setting(k1, v, m, z) matches Some(Ok(y2)) && same_setting(y, y2, k1)) by {
            reveal(field_eq);
        }
    }
    }
}

#[verifier::rlimit(100)]
#[verifier::spinoff_prover]
proof fn lemma_thermal_frame(k1: Seq<char>, v: Seq<char>, n: nat, m: nat, x: UtensilConfigView, z: UtensilConfigView)
    requires
        battery_a_setting(k1, v, n, x) is None,
        battery_a_setting(k1, v, m, z) is None,
        battery_b_setting(k1, v, n, x) is None,
        battery_b_setting(k1, v, m, z) is None,
    ensures
        match thermal_setting(k1, v, n, x) {
            Some(Ok(y)) => {
                &&& y.paths.home == x.paths.home
                &&& forall|k: Seq<char>| k != k1 ==> #[trigger] same_setting(y, x, k)
                &&& thermal_setting(k1, v, m, z) matches Some(Ok(y2)) && same_setting(y, y2, k1)
            },
            _ => true,
        },
{
    if let Some(Ok(y)) = thermal_setting(k1, v, n, x) {
        if k1 == "thermal.enabled"@ {
        assert(key_index(k1) == 15) by {
            reveal(key_index);
        }
        assert forall|k: Seq<char>| k != k1 implies #[trigger] same_setting(y, x, k) by {
            lemma_key_index(k);
            if key_index(k) != 15 {
                lemma_frame_15(x, y, k);
            }
        }
        assert(thermal_setting(k1, v, m, z) matches Some(Ok(y2)) && same_setting(y, y2, k1)) by {
            reveal(field_eq);
        }
    } else if k1 == "thermal.charging_status"@ {
        assert(key_index(k1) == 16) by {
            reveal(key_index);
        }
        assert forall|k: Seq<char>| k != k1 implies #[trigger] same_setting(y, x, k) by {
            lemma_key_index(k);
            if key_index(k) != 16 {
                lemma_frame_16(x, y, k);
            }
        }
        assert(thermal_setting(k1, v, m, z) matches Some(Ok(y2)) && same_setting(y, y2, k1)) by {
            reveal(field_eq);
        }
    } else if k1 == "thermal.charging_done_status"@ {
        assert(key_index(k1) == 17) by {
            reveal(key_index);
        }
        assert forall|k: Seq<char>| k != k1 implies #[trigger] same_setting(y, x, k) by {
            lemma_key_index(k);
            if key_index(k) != 17 {
                lemma_frame_17(x, y, k);
            }
        }
        assert(thermal_setting(k1, v, m, z) matches Some(Ok(y2)) && same_setting(y, y2, k1)) by {
            reveal(field_eq);
        }
    } else if k1 == "thermal.discharging_normal"@ {
        assert(key_index(k1) == 18) by {
            reveal(key_index);
        }
        assert forall|k: Seq<char>| k != k1 implies #[trigger] same_setting(y, x, k) by {
            lemma_key_index(k);
            if key_index(k) != 18 {
                lemma_frame_18(x, y, k);
            }
        }
        assert(thermal_setting(k1, v, m, z) matches Some(Ok(y2)) && same_setting(y, y2, k1)) by {
            reveal(field_eq);
        }
    } else if k1 == "thermal.discharging_low"@ {
        assert(key_index(k1) == 19) by {
            reveal(key_index);
        }
        assert forall|k: Seq<char>| k != k1 implies #[trigger] same_setting(y, x, k) by {
            lemma_key_index(k);
            if key_index(k) != 19 {
                lemma_frame_19(x, y, k);
            }
        }
        assert(thermal_setting(k1, v, m, z) matches Some(Ok(y2)) && same_setting(y, y2, k1)) by {
            reveal(field_eq);
        }
    } else if k1 == "thermal.discharging_critical"@ {
        assert(key_index(k1) == 20) by {
            reveal(key_index);
        }
        assert forall|k: Seq<char>| k != k1 implies #[trigger] same_setting(y, x, k) by {
            lemma_key_index(k);
            if key_index(k) != 20 {
                lemma_frame_20(x, y, k);
            }
        }
        assert(thermal_setting(k1, v, m, z) matches Some(Ok(y2)) && same_setting(y, y2, k1)) by {
            reveal(field_eq);
        }
    } else if k1 == "thermal.critical_level"@ {
        assert(key_index(k1) == 21) by {
            reveal(key_index);
        }
        assert forall|k: Seq<char>| k != k1 implies #[trigger] same_setting(y, x, k) by {
            lemma_key_index(k);
            if key_index(k) != 21 {
                lemma_frame_21(x, y, k);
            }
        }
        assert(thermal_setting(k1, v, m, z) matches Some(Ok(y2)) && same_setting(y, y2, k1)) by {
            reveal(field_eq);
        }
    }
    }
}

#[verifier::rlimit(100)]
#[verifier::spinoff_prover]
proof fn lemma_feature_a_frame(k1: Seq<char>, v: Seq<char>, n: nat, m: nat, x: UtensilConfigView, z: UtensilConfigView)
    requires
        battery_a_setting(k1, v, n, x) is None,
        battery_a_setting(k1, v, m, z) is None,
        battery_b_setting(k1, v, n, x) is None,
        battery_b_setting(k1, v, m, z) is None,
        thermal_setting(k1, v, n, x) is None,
        thermal_setting(k1, v, m, z) is None,
    ensures
        match feature_a_setting(k1, v, n, x) {
            Some(Ok(y)) => {
                &&& y.paths.home == x.paths.home
                &&& forall|k: Seq<char>| k != k1 ==> #[trigger] same_setting(y, x, k)
                &&& feature_a_setting(k1, v, m, z) matches Some(Ok(y2)) && same_setting(y, y2, k1)
            },
            _ => true,
        },
{
    if let Some(Ok(y)) = feature_a_setting(k1, v, n, x) {
        if k1 == "sensors.enabled"@ {
        assert(key_index(k1) == 22) by {
            reveal(key_index);
        }
        assert forall|k: Seq<char>| k != k1 implies #[trigger] same_setting(y, x, k) by {
            lemma_key_index(k);
            if key_index(k) != 22 {
                lemma_frame_22(x, y, k);
            }
        }
        assert(feature_a_setting(k1, v, m, z) matches Some(Ok(y2)) && same_setting(y, y2, k1)) by {
            reveal(field_eq);
        }
    } else if k1 == "airplane.enabled"@ {
        assert(key_index(k1) == 23) by {
            reveal(key_index);
        }
        assert forall|k: Seq<char>| k != k1 implies #[trigger] same_setting(y, x, k) by {
            lemma_key_index(k);
            if key_index(k) != 23 {
                lemma_frame_23(x, y, k);
            }
        }
        assert(feature_a_setting(k1, v, m, z) matches Some(Ok(y2)) && same_setting(y, y2, k1)) by {
            reveal(field_eq);
        }
    } else if k1 == "doze.enabled"@ {
        assert(key_index(k1) == 24) by {
            reveal(key_index);
        }
        assert forall|k: Seq<char>| k != k1 implies #[trigger] same_setting(y, x, k) by {
            lemma_key_index(k);
            if key_index(k) != 24 {
                lemma_frame_24(x, y, k);
            }
        }
        assert(feature_a_setting(k1, v, m, z) matches Some(Ok(y2)) && same_setting(y, y2, k1)) by {
            reveal(field_eq);
        }
    } else if k1 == "compaction.enabled"@ {
        assert(key_index(k1) == 25) by {
            reveal(key_index);
        }
        assert forall|k: Seq<char>| k != k1 implies #[trigger] same_setting(y, x, k) by {
            lemma_key_index(k);
            if key_index(k) != 25 {
                lemma_frame_25(x, y, k);
            }
        }
        assert(feature_a_setting(k1, v, m, z) matches Some(Ok(y2)) && same_setting(y, y2, k1)) by {
            reveal(field_eq);
        }
    } else if k1 == "compaction.hardlock_ticks"@ {
        assert(key_index(k1) == 26) by {
            reveal(key_index);
        }
        assert forall|k: Seq<char>| k != k1 implies #[trigger] same_setting(y, x, k) by {
            lemma_key_index(k);
            if key_index(k) != 26 {
                lemma_frame_26(x, y, k);
            }
        }
        assert(feature_a_setting(k1, v, m, z) matches Some(Ok(y2)) && same_setting(y, y2, k1)) by {
            reveal(field_eq);
        }
    } else if k1 == "watchdog.enabled"@ {
        assert(key_index(k1) == 27) by {
            reveal(key_index);
        }
        assert forall|k: Seq<char>| k != k1 implies #[trigger] same_setting(y, x, k) by {
            lemma_key_index(k);
            if key_index(k) != 27 {
                lemma_frame_27(x, y, k);
            }
        }
        assert(feature_a_setting(k1, v, m, z) matches Some(Ok(y2)) && same_setting(y, y2, k1)) by {
            reveal(field_eq);
        }
    } else if k1 == "watchdog.jobscheduler"@ {
        assert(key_index(k1) == 28) by {
            reveal(key_index);
        }
        assert forall|k: Seq<char>| k != k1 implies #[trigger] same_setting(y, x, k) by {
            lemma_key_index(k);
            if key_index(k) != 28 {
                lemma_frame_28(x, y, k);
            }
        }
        assert(feature_a_setting(k1, v, m, z) matches Some(Ok(y2)) && same_setting(y, y2, k1)) by {
            reveal(field_eq);
        }
    }
    }
}

#[verifier::rlimit(100)]
#[verifier::spinoff_prover]
proof fn lemma_feature_b_frame(k1: Seq<char>, v: Seq<char>, n: nat, m: nat, x: UtensilConfigView, z: UtensilConfigView)
    requires
        battery_a_setting(k1, v, n, x) is None,
        battery_a_setting(k1, v, m, z) is None,
        battery_b_setting(k1, v, n, x) is None,
        battery_b_setting(k1, v, m, z) is None,
        thermal_setting(k1, v, n, x) is None,
        thermal_setting(k1, v, m, z) is None,
        feature_a_setting(k1, v, n, x) is None,
        feature_a_setting(k1, v, m, z) is None,
    ensures
        match feature_b_setting(k1, v, n, x) {
            Some(Ok(y)) => {
                &&& y.paths.home == x.paths.home
                &&& forall|k: Seq<char>| k != k1 ==> #[trigger] same_setting(y, x, k)
                &&& feature_b_setting(k1, v, m, z) matches Some(Ok(y2)) && same_setting(y, y2, k1)
            },
            _ => true,
        },
{
    if let Some(Ok(y)) = feature_b_setting(k1, v, n, x) {
        if k1 == "watchdog.timeout_secs"@ {
        assert(key_index(k1) == 29) by {
            reveal(key_index);
        }
        assert forall|k: Seq<char>| k != k1 implies #[trigger] same_setting(y, x, k) by {
            lemma_key_index(k);
            if key_index(k) != 29 {
                lemma_frame_29(x, y, k);
            }
        }
        assert(feature_b_setting(k1, v, m, z) matches Some(Ok(y2)) && same_setting(y, y2, k1)) by {
            reveal(field_eq);
        }
    } else if k1 == "watchdog.idle_threshold_secs"@ {
        assert(key_index(k1) == 30) by {
            reveal(key_index);
        }
        assert forall|k: Seq<char>| k != k1 implies #[trigger] same_setting(y, x, k) by {
            lemma_key_index(k);
            if key_index(k) != 30 {
                lemma_frame_30(x, y, k);
            }
        }
        assert(feature_b_setting(k1, v, m, z) matches Some(Ok(y2)) && same_setting(y, y2, k1)) by {
            reveal(field_eq);
        }
    } else if k1 == "drain.enabled"@ {
        assert(key_index(k1) == 31) by {
            reveal(key_index);
        }
        assert forall|k: Seq<char>| k != k1 implies #[trigger] same_setting(y, x, k) by {
            lemma_key_index(k);
            if key_index(k) != 31 {
                lemma_frame_31(x, y, k);
            }
        }
        assert(feature_b_setting(k1, v, m, z) matches Some(Ok(y2)) && same_setting(y, y2, k1)) by {
            reveal(field_eq);
        }
    } else if k1 == "notification.enabled"@ {
        assert(key_index(k1) == 32) by {
            reveal(key_index);
        }
        assert forall|k: Seq<char>| k != k1 implies #[trigger] same_setting(y, x, k) by {
            lemma_key_index(k);
            if key_index(k) != 32 {
                lemma_frame_32(x, y, k);
            }
        }
        assert(feature_b_setting(k1, v, m, z) matches Some(Ok(y2)) && same_setting(y, y2, k1)) by {
            reveal(field_eq);
        }
    } else if k1 == "logging.enabled"@ {
        assert(key_index(k1) == 33) by {
            reveal(key_index);
        }
        assert forall|k: Seq<char>| k != k1 implies #[trigger] same_setting(y, x, k) by {
            lemma_key_index(k);
            if key_index(k) != 33 {
                lemma_frame_33(x, y, k);
            }
        }
        assert(feature_b_setting(k1, v, m, z) matches Some(Ok(y2)) && same_setting(y, y2, k1)) by {
            reveal(field_eq);
        }
    } else if k1 == "dry_run"@ {
        assert(key_index(k1) == 34) by {
            reveal(key_index);
        }
        assert forall|k: Seq<char>| k != k1 implies #[trigger] same_setting(y, x, k) by {
            lemma_key_index(k);
            if key_index(k) != 34 {
                lemma_frame_34(x, y, k);
            }
        }
        assert(feature_b_setting(k1, v, m, z) matches Some(Ok(y2)) && same_setting(y, y2, k1)) by {
            reveal(field_eq);
        }
    }
    }
}

#[verifier::rlimit(100)]
#[verifier::spinoff_prover]
proof fn lemma_path_frame(k1: Seq<char>, v: Seq<char>, n: nat, m: nat, x: UtensilConfigView, z: UtensilConfigView)
    requires
        battery_a_setting(k1, v, n, x) is None,
        battery_a_setting(k1, v, m, z) is None,
        battery_b_setting(k1, v, n, x) is None,
        battery_b_setting(k1, v, m, z) is None,
        thermal_setting(k1, v, n, x) is None,
        thermal_setting(k1, v, m, z) is None,
        feature_a_setting(k1, v, n, x) is None,
        feature_a_setting(k1, v, m, z) is None,
        feature_b_setting(k1, v, n, x) is None,
        feature_b_setting(k1, v, m, z) is None,
    ensures
        match path_setting(k1, v, n, x) {
            Some(Ok(y)) => {
                &&& y.paths.home == x.paths.home
                &&& forall|k: Seq<char>| k != k1 ==> #[trigger] same_setting(y, x, k)
                &&& path_setting(k1, v, m, z) matches Some(Ok(y2)) && same_setting(y, y2, k1)
            },
            _ => true,
        },
{
    if let Some(Ok(y)) = path_setting(k1, v, n, x) {
        if k1 == "path.learning_file"@ {
        assert(key_index(k1) == 35) by {
            reveal(key_index);
        }
        assert forall|k: Seq<char>| k != k1 implies #[trigger] same_setting(y, x, k) by {
            lemma_key_index(k);
            if key_index(k) != 35 {
                lemma_frame_35(x, y, k);
            }
        }
        assert(path_setting(k1, v, m, z) matches Some(Ok(y2)) && same_setting(y, y2, k1)) by {
            reveal(field_eq);
        }
    } else if k1 == "path.threshold_file"@ {
        assert(key_index(k1) == 36) by {
            reveal(key_index);
        }
        assert forall|k: Seq<char>| k != k1 implies #[trigger] same_setting(y, x, k) by {
            lemma_key_index(k);
            if key_index(k) != 36 {
                lemma_frame_36(x, y, k);
            }
        }
        assert(path_setting(k1, v, m, z) matches Some(Ok(y2)) && same_setting(y, y2, k1)) by {
            reveal(field_eq);
        }
    } else if k1 == "path.whitelist_file"@ {
        assert(key_index(k1) == 37) by {
            reveal(key_index);
        }
        assert forall|k: Seq<char>| k != k1 implies #[trigger] same_setting(y, x, k) by {
            lemma_key_index(k);
            if key_index(k) != 37 {
                lemma_frame_37(x, y, k);
            }
        }
        assert(path_setting(k1, v, m, z) matches Some(Ok(y2)) && same_setting(y, y2, k1)) by {
            reveal(field_eq);
        }
    } else if k1 == "path.drain_log_file"@ {
        assert(key_index(k1) == 38) by {
            reveal(key_index);
        }
        assert forall|k: Seq<char>| k != k1 implies #[trigger] same_setting(y, x, k) by {
            lemma_key_index(k);
            if key_index(k) != 38 {
                lemma_frame_38(x, y, k);
            }
        }
        assert(path_setting(k1, v, m, z) matches Some(Ok(y2)) && same_setting(y, y2, k1)) by {
            reveal(field_eq);
        }
    } else if k1 == "path.packages_xml"@ {
        assert(key_index(k1) == 39) by {
            reveal(key_index);
        }
        assert forall|k: Seq<char>| k != k1 implies #[trigger] same_setting(y, x, k) by {
            lemma_key_index(k);
            if key_index(k) != 39 {
                lemma_frame_39(x, y, k);
            }
        }
        assert(path_setting(k1, v, m, z) matches Some(Ok(y2)) && same_setting(y, y2, k1)) by {
            reveal(field_eq);
        }
    }
    }
}

/// A setting line changes only the field its key names, keeps the home
/// directory, and sets that field alike whatever it is applied to.
proof fn lemma_setting_frame(k1: Seq<char>, v: Seq<char>, n: nat, m: nat, x: UtensilConfigView, z: UtensilConfigView)
    requires
        apply_setting(k1, v, n, x) is Ok,
    ensures
        apply_setting(k1, v, n, x)->Ok_0.paths.home == x.paths.home,
        forall|k: Seq<char>| k != k1 ==> #[trigger] same_setting(apply_setting(k1, v, n, x)->Ok_0, x, k),
        apply_setting(k1, v, m, z) is Ok,
        same_setting(apply_setting(k1, v, n, x)->Ok_0, apply_setting(k1, v, m, z)->Ok_0, k1),
{
    crate::config::lemma_battery_a_overwrite(k1, v, v, n, m, x, z);
    crate::config::lemma_battery_b_overwrite(k1, v, v, n, m, x, z);
    crate::config::lemma_thermal_overwrite(k1, v, v, n, m, x, z);
    crate::config::lemma_feature_a_overwrite(k1, v, v, n, m, x, z);
    crate::config::lemma_feature_b_overwrite(k1, v, v, n, m, x, z);
    crate::config::lemma_path_overwrite(k1, v, v, n, m, x, z);
    if true {
        lemma_battery_a_frame(k1, v, n, m, x, z);
    }
    if battery_a_setting(k1, v, n, x) is None {
        lemma_battery_b_frame(k1, v, n, m, x, z);
    }
    if battery_a_setting(k1, v, n, x) is None && battery_b_setting(k1, v, n, x) is None {
        lemma_thermal_frame(k1, v, n, m, x, z);
    }
    if battery_a_setting(k1, v, n, x) is None && battery_b_setting(k1, v, n, x) is None && thermal_setting(k1, v, n, x) is None {
        lemma_feature_a_frame(k1, v, n, m, x, z);
    }
    if battery_a_setting(k1, v, n, x) is None && battery_b_setting(k1, v, n, x) is None && thermal_setting(k1, v, n, x) is None && feature_a_setting(k1, v, n, x) is None {
        lemma_feature_b_frame(k1, v, n, m, x, z);
    }
    if battery_a_setting(k1, v, n, x) is None && battery_b_setting(k1, v, n, x) is None && thermal_setting(k1, v, n, x) is None && feature_a_setting(k1, v, n, x) is None && feature_b_setting(k1, v, n, x) is None {
        lemma_path_frame(k1, v, n, m, x, z);
    }
}

/// Line `i` of `ls` sets a key that no later line sets.
pub open spec fn last_setting_line(ls: Seq<Seq<char>>, i: int) -> bool {
    &&& line_key(ls[i]) is Some
    &&& forall|j: int| i < j < ls.len() ==> line_key(ls[j]) != line_key(ls[i])
}

#[verifier::rlimit(100)]
#[verifier::spinoff_prover]
proof fn lemma_lines_frame(text: Seq<char>, n: nat, x: UtensilConfigView, c: UtensilConfigView)
    requires
        apply_lines(text, n, x) == Ok::<UtensilConfigView, ConfigErrorView>(c),
    ensures
        c.paths.home == x.paths.home,
        forall|k: Seq<char>| !sets_key(text, k) ==> #[trigger] same_setting(c, x, k),
        forall|i: int| #![trigger split_lines(text)[i]]
            0 <= i < split_lines(text).len() && last_setting_line(split_lines(text), i) ==> {
                let k = line_key(split_lines(text)[i])->0;
                let v = line_value(split_lines(text)[i]);
                apply_setting(k, v, (n + i) as nat, x) is Ok && same_setting(c, apply_setting(k, v, (n + i) as nat, x)->Ok_0, k)
            },
    decreases text.len(),
{
    let nl = index_of(text, '\n');
    lemma_index_of_bounds(text, '\n');
    let ls = split_lines(text);
    let l0 = text.subrange(0, nl as int);
    assert(ls[0] == l0);
    lemma_line_shape(l0, n, x);
    let x1 = apply_line(l0, n, x)->Ok_0;
    assert(apply_line(l0, n, x) is Ok);
    match line_key(l0) {
        Some(k1) => {
            lemma_setting_frame(k1, line_value(l0), n, n, x, x);
        },
        None => {},
    }
    if nl < text.len() {
        let rest = text.subrange(nl as int + 1, text.len() as int);
        let rs = split_lines(rest);
        assert(ls == seq![l0] + rs);
        assert forall|i: int| 0 <= i < rs.len() implies rs[i] == ls[i + 1] by {}
        lemma_lines_frame(rest, n + 1, x1, c);
        assert forall|k: Seq<char>| !sets_key(text, k) implies #[trigger] same_setting(c, x, k) by {
            assert forall|i: int| 0 <= i < rs.len() implies line_key(rs[i]) != Some(k) by {
                assert(rs[i] == ls[i + 1]);
                if line_key(rs[i]) == Some(k) {
                    assert(line_key(ls[i + 1]) == Some(k));
                }
            }
            assert(!sets_key(rest, k));
            assert(line_key(ls[0]) != Some(k));
            assert(same_setting(c, x1, k));
            match line_key(l0) {
                Some(k1) => {
                    assert(same_setting(x1, x, k));
                },
                None => {
                    lemma_same_setting_refl(x, k);
                },
            }
            lemma_same_setting_trans(c, x1, x, k);
        }
        assert forall|i: int| 0 <= i < ls.len() && last_setting_line(ls, i) implies {
            let k = line_key(ls[i])->0;
            let v = line_value(ls[i]);
            apply_setting(k, v, (n + i) as nat, x) is Ok && same_setting(c, apply_setting(k, v, (n + i) as nat, x)->Ok_0, k)
        } by {
            let k = line_key(ls[i])->0;
            let v = line_value(ls[i]);
            if i == 0 {
                assert forall|j: int| 0 <= j < rs.len() implies line_key(rs[j]) != Some(k) by {
                    assert(rs[j] == ls[j + 1]);
                }
                assert(!sets_key(rest, k));
                assert(same_setting(c, x1, k));
                assert(x1 == apply_setting(k, v, n, x)->Ok_0);
            } else {
                assert(rs[i - 1] == ls[i]);
                assert forall|j: int| i - 1 < j < rs.len() implies line_key(rs[j]) != Some(k) by {
                    assert(rs[j] == ls[j + 1]);
                }
                assert(line_key(rs[i - 1]) == Some(k));
                assert(last_setting_line(rs, i - 1));
                let y1 = apply_setting(k, v, (n + 1 + (i - 1)) as nat, x1)->Ok_0;
                assert(same_setting(c, y1, k));
                lemma_setting_frame(k, v, (n + i) as nat, (n + i) as nat, x1, x);
                lemma_same_setting_trans(c, y1, apply_setting(k, v, (n + i) as nat, x)->Ok_0, k);
            }
        }
    } else {
        assert(ls == seq![text]);
        assert(l0 =~= text);
        assert(c == x1);
        assert forall|k: Seq<char>| !sets_key(text, k) implies #[trigger] same_setting(c, x, k) by {
            assert(line_key(ls[0]) != Some(k));
            match line_key(l0) {
                Some(k1) => {},
                None => {
                    lemma_same_setting_refl(x, k);
                },
            }
        }
        assert forall|i: int| 0 <= i < ls.len() && last_setting_line(ls, i) implies {
            let k = line_key(ls[i])->0;
            let v = line_value(ls[i]);
            apply_setting(k, v, (n + i) as nat, x) is Ok && same_setting(c, apply_setting(k, v, (n + i) as nat, x)->Ok_0, k)
        } by {
            let k = line_key(ls[i])->0;
            lemma_same_setting_refl(c, k);
        }
    }
}

/// What reading a text over a base keeps: the home directory; every setting
/// whose key no line of the text sets, as the base has it; and for a key
/// that lines set, the value its last such line gives (that line, applied
/// to the base alone, sets the same field to the same value).
pub proof fn lemma_parse_keeps_unset_settings(text: Seq<char>, base: UtensilConfigView)
    requires
        parse_config_spec(text, base) is Ok,
    ensures
        ({
            let c = parse_config_spec(text, base)->Ok_0;
            let ls = split_lines(text);
            &&& c.paths.home == base.paths.home
            &&& forall|k: Seq<char>| !sets_key(text, k) ==> #[trigger] same_setting(c, base, k)
            &&& forall|i: int| #![trigger ls[i]]
                0 <= i < ls.len() && last_setting_line(ls, i) ==> {
                    let k = line_key(ls[i])->0;
                    let v = line_value(ls[i]);
                    apply_setting(k, v, (i + 1) as nat, base) is Ok && same_setting(c, apply_setting(k, v, (i + 1) as nat, base)->Ok_0, k)
                }
        }),
{
    let c = parse_config_spec(text, base)->Ok_0;
    lemma_lines_frame(text, 1, base, c);
}

} // verus!
