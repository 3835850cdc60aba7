//! The daemon's configuration: its model, defaults, `key=value` parser and
//! text form.
use vstd::prelude::*;
use std::time::Duration;
use crate::text::{
    chars_of, decimal, find_char, index_of, lemma_index_of_bounds, lower_eq, parse_i32,
    parse_i32_range, parse_unsigned, parse_unsigned_range, push_decimal, range_eq, range_lower_eq,
    substring, trim, trim_range,
};

verus! {

/// Where the configuration file lives unless told otherwise.
pub const DEFAULT_CONFIG_PATH: &'static str = "/data/local/tmp/utensil/utensil.conf";

/// The configuration that the ROM ships, copied to the default place on first run.
pub const ROM_DEFAULT_CONFIG_PATH: &'static str = "/system/etc/utensil/utensil.conf";

/// The home directory used when a configuration path has no parent.
pub const DEFAULT_HOME: &'static str = "/data/local/tmp/utensil";

#[derive(Clone, Debug, PartialEq, Eq)]
pub struct UtensilConfig {
    pub paths: PathConfig,
    pub battery: BatteryConfig,
    pub thermal: ThermalConfig,
    pub sensors: FeatureConfig,
    pub airplane: FeatureConfig,
    pub doze: FeatureConfig,
    pub compaction: CompactionConfig,
    pub watchdog: WatchdogConfig,
    pub drain: FeatureConfig,
    pub notification: FeatureConfig,
    pub logging: FeatureConfig,
    pub dry_run: bool,
}

/// File locations, held as text.
#[derive(Clone, Debug, PartialEq, Eq)]
pub struct PathConfig {
    pub home: String,
    pub learning_file: String,
    pub threshold_file: String,
    pub whitelist_file: String,
    pub drain_log_file: String,
    pub packages_xml: String,
}

#[derive(Clone, Debug, PartialEq, Eq)]
pub struct BatteryConfig {
    pub enabled: bool,
    pub dynamic_threshold: u8,
    pub min_threshold: u8,
    pub max_threshold: u8,
    pub learn_min_points: usize,
    pub learn_max_points: usize,
    pub force_app_standby: bool,
    pub dnd_while_charging: bool,
    pub refresh_rate_low: Option<String>,
    pub refresh_rate_default: Option<String>,
    pub screen_timeout_low_ms: Option<u64>,
    pub screen_timeout_default_ms: Option<u64>,
    pub samsung_restricted_performance: bool,
    pub background_process_limit_low: Option<i32>,
    pub background_process_limit_default: Option<i32>,
}

#[derive(Clone, Copy, Debug, PartialEq, Eq)]
pub struct ThermalConfig {
    pub enabled: bool,
    pub charging_status: u8,
    pub charging_done_status: u8,
    pub discharging_normal: u8,
    pub discharging_low: u8,
    pub discharging_critical: u8,
    pub critical_level: u8,
}

#[derive(Clone, Copy, Debug, PartialEq, Eq)]
pub struct FeatureConfig {
    pub enabled: bool,
}

#[derive(Clone, Copy, Debug, PartialEq, Eq)]
pub struct CompactionConfig {
    pub enabled: bool,
    pub hardlock_ticks: u32,
}

#[derive(Clone, Copy, Debug, PartialEq, Eq)]
pub struct WatchdogConfig {
    pub enabled: bool,
    pub jobscheduler: bool,
    pub timeout_secs: u64,
    pub idle_threshold_secs: u64,
}

/// A rejected configuration line: its number (counting from 1) and why.
#[derive(Clone, Debug, PartialEq, Eq)]
pub struct ConfigError {
    pub line: usize,
    pub message: String,
}

pub struct PathConfigView {
    pub home: Seq<char>,
    pub learning_file: Seq<char>,
    pub threshold_file: Seq<char>,
    pub whitelist_file: Seq<char>,
    pub drain_log_file: Seq<char>,
    pub packages_xml: Seq<char>,
}

pub struct BatteryConfigView {
    pub enabled: bool,
    pub dynamic_threshold: u8,
    pub min_threshold: u8,
    pub max_threshold: u8,
    pub learn_min_points: usize,
    pub learn_max_points: usize,
    pub force_app_standby: bool,
    pub dnd_while_charging: bool,
    pub refresh_rate_low: Option<Seq<char>>,
    pub refresh_rate_default: Option<Seq<char>>,
    pub screen_timeout_low_ms: Option<u64>,
    pub screen_timeout_default_ms: Option<u64>,
    pub samsung_restricted_performance: bool,
    pub background_process_limit_low: Option<i32>,
    pub background_process_limit_default: Option<i32>,
}

pub struct UtensilConfigView {
    pub paths: PathConfigView,
    pub battery: BatteryConfigView,
    pub thermal: ThermalConfig,
    pub sensors: FeatureConfig,
    pub airplane: FeatureConfig,
    pub doze: FeatureConfig,
    pub compaction: CompactionConfig,
    pub watchdog: WatchdogConfig,
    pub drain: FeatureConfig,
    pub notification: FeatureConfig,
    pub logging: FeatureConfig,
    pub dry_run: bool,
}

pub struct ConfigErrorView {
    pub line: nat,
    pub message: Seq<char>,
}

pub open spec fn opt_text(o: Option<String>) -> Option<Seq<char>> {
    match o {
        Some(s) => Some(s@),
        None => None,
    }
}

impl View for PathConfig {
    type V = PathConfigView;

    open spec fn view(&self) -> PathConfigView {
        PathConfigView {
            home: self.home@,
            learning_file: self.learning_file@,
            threshold_file: self.threshold_file@,
            whitelist_file: self.whitelist_file@,
            drain_log_file: self.drain_log_file@,
            packages_xml: self.packages_xml@,
        }
    }
}

impl View for BatteryConfig {
    type V = BatteryConfigView;

    open spec fn view(&self) -> BatteryConfigView {
        BatteryConfigView {
            enabled: self.enabled,
            dynamic_threshold: self.dynamic_threshold,
            min_threshold: self.min_threshold,
            max_threshold: self.max_threshold,
            learn_min_points: self.learn_min_points,
            learn_max_points: self.learn_max_points,
            force_app_standby: self.force_app_standby,
            dnd_while_charging: self.dnd_while_charging,
            refresh_rate_low: opt_text(self.refresh_rate_low),
            refresh_rate_default: opt_text(self.refresh_rate_default),
            screen_timeout_low_ms: self.screen_timeout_low_ms,
            screen_timeout_default_ms: self.screen_timeout_default_ms,
            samsung_restricted_performance: self.samsung_restricted_performance,
            background_process_limit_low: self.background_process_limit_low,
            background_process_limit_default: self.background_process_limit_default,
        }
    }
}

impl View for UtensilConfig {
    type V = UtensilConfigView;

    open spec fn view(&self) -> UtensilConfigView {
        UtensilConfigView {
            paths: self.paths@,
            battery: self.battery@,
            thermal: self.thermal,
            sensors: self.sensors,
            airplane: self.airplane,
            doze: self.doze,
            compaction: self.compaction,
            watchdog: self.watchdog,
            drain: self.drain,
            notification: self.notification,
            logging: self.logging,
            dry_run: self.dry_run,
        }
    }
}

impl View for ConfigError {
    type V = ConfigErrorView;

    open spec fn view(&self) -> ConfigErrorView {
        ConfigErrorView { line: self.line as nat, message: self.message@ }
    }
}

pub open spec fn result_view(r: Result<UtensilConfig, ConfigError>) -> Result<
    UtensilConfigView,
    ConfigErrorView,
> {
    match r {
        Ok(c) => Ok(c@),
        Err(e) => Err(e@),
    }
}

// ---------------------------------------------------------------------------
// Defaults
// ---------------------------------------------------------------------------

/// What `std::path::Path::parent` gives for the path `path`.
pub uninterp spec fn path_parent(path: Seq<char>) -> Option<Seq<char>>;

/// Calls `std::path::Path::parent` on `path`; the contract claims only that the
/// result is the one that `path_parent` names for this path.
#[verifier::external_body]
fn parent_of(path: &str) -> (r: Option<String>)
    ensures
        opt_text(r) == path_parent(path@),
{
    match std::path::Path::new(path).parent() {
        Some(p) => Some(p.to_string_lossy().into_owned()),
        None => None,
    }
}

/// `base` joined with the relative name `name` as `Path::join` does on Unix:
/// a `/` goes between them unless `base` is empty or already ends in one.
pub open spec fn join_path(base: Seq<char>, name: Seq<char>) -> Seq<char> {
    if base.len() == 0 || base[base.len() - 1] == '/' {
        base + name
    } else {
        base + seq!['/'] + name
    }
}

pub fn join(base: &str, name: &str) -> (r: String)
    ensures
        r@ == join_path(base@, name@),
{
    let mut r = String::from_str(base);
    let n = base.unicode_len();
    if n > 0 && base.get_char(n - 1) != '/' {
        r.append("/");
        proof {
            reveal_strlit("/");
        }
    }
    r.append(name);
    r
}

/// The home directory under the configuration file's parent directory
/// `parent`: the parent itself, or the default home where there is none or
/// it is empty.
pub open spec fn home_from_parent(parent: Option<Seq<char>>) -> Seq<char> {
    match parent {
        Some(p) => if p.len() > 0 {
            p
        } else {
            DEFAULT_HOME@
        },
        None => DEFAULT_HOME@,
    }
}

/// The home directory for a configuration file at `path`.
pub open spec fn home_for(path: Seq<char>) -> Seq<char> {
    home_from_parent(path_parent(path))
}

/// The default configuration for a configuration file at `path`.
pub open spec fn default_config(path: Seq<char>) -> UtensilConfigView {
    config_for_home(home_for(path))
}

/// The default configuration with its files under `home`.
pub open spec fn config_for_home(home: Seq<char>) -> UtensilConfigView {
    UtensilConfigView {
        paths: PathConfigView {
            home: home,
            learning_file: join_path(home, "battery_learning.dat"@),
            threshold_file: join_path(home, "battery_threshold.dat"@),
            whitelist_file: join_path(home, "fileconfig.txt"@),
            drain_log_file: "/sdcard/chargelog.txt"@,
            packages_xml: "/data/system/packages.xml"@,
        },
        battery: BatteryConfigView {
            enabled: true,
            dynamic_threshold: 25,
            min_threshold: 25,
            max_threshold: 60,
            learn_min_points: 5,
            learn_max_points: 25,
            force_app_standby: false,
            dnd_while_charging: false,
            refresh_rate_low: None,
            refresh_rate_default: None,
            screen_timeout_low_ms: None,
            screen_timeout_default_ms: None,
            samsung_restricted_performance: false,
            background_process_limit_low: Some(2),
            background_process_limit_default: None,
        },
        thermal: ThermalConfig {
            enabled: false,
            charging_status: 1,
            charging_done_status: 0,
            discharging_normal: 1,
            discharging_low: 2,
            discharging_critical: 3,
            critical_level: 20,
        },
        sensors: FeatureConfig { enabled: false },
        airplane: FeatureConfig { enabled: false },
        doze: FeatureConfig { enabled: true },
        compaction: CompactionConfig { enabled: true, hardlock_ticks: 4 },
        watchdog: WatchdogConfig {
            enabled: false,
            jobscheduler: false,
            timeout_secs: 300,
            idle_threshold_secs: 500,
        },
        drain: FeatureConfig { enabled: false },
        notification: FeatureConfig { enabled: false },
        logging: FeatureConfig { enabled: true },
        dry_run: false,
    }
}

/// What `std::time::Duration::from_secs` gives for `secs`.
pub uninterp spec fn duration_from_secs(secs: u64) -> Duration;

/// Calls `std::time::Duration::from_secs`; the contract claims only that the
/// result is the one that `duration_from_secs` names.
#[verifier::external_body]
fn secs_duration(secs: u64) -> (d: Duration)
    ensures
        d == duration_from_secs(secs),
{
    Duration::from_secs(secs)
}

impl UtensilConfig {
    /// The default configuration for a configuration file at `path`.
    pub fn for_config_path(path: &str) -> (c: UtensilConfig)
        ensures
            c@ == default_config(path@),
    {
        Self::for_parent_dir(parent_of(path))
    }

    /// The default configuration for a configuration file whose parent
    /// directory is `parent`, as `Path::parent` gives it.
    pub fn for_parent_dir(parent: Option<String>) -> (c: UtensilConfig)
        ensures
            c@ == config_for_home(home_from_parent(opt_text(parent))),
    {
        let home = match parent {
            Some(p) => {
                if p.as_str().unicode_len() > 0 {
                    p
                } else {
                    String::from_str(DEFAULT_HOME)
                }
            },
            None => String::from_str(DEFAULT_HOME),
        };
        UtensilConfig {
            paths: PathConfig {
                learning_file: join(home.as_str(), "battery_learning.dat"),
                threshold_file: join(home.as_str(), "battery_threshold.dat"),
                whitelist_file: join(home.as_str(), "fileconfig.txt"),
                drain_log_file: String::from_str("/sdcard/chargelog.txt"),
                packages_xml: String::from_str("/data/system/packages.xml"),
                home: home,
            },
            battery: BatteryConfig {
                enabled: true,
                dynamic_threshold: 25,
                min_threshold: 25,
                max_threshold: 60,
                learn_min_points: 5,
                learn_max_points: 25,
                force_app_standby: false,
                dnd_while_charging: false,
                refresh_rate_low: None,
                refresh_rate_default: None,
                screen_timeout_low_ms: None,
                screen_timeout_default_ms: None,
                samsung_restricted_performance: false,
                background_process_limit_low: Some(2),
                background_process_limit_default: None,
            },
            thermal: ThermalConfig {
                enabled: false,
                charging_status: 1,
                charging_done_status: 0,
                discharging_normal: 1,
                discharging_low: 2,
                discharging_critical: 3,
                critical_level: 20,
            },
            sensors: FeatureConfig { enabled: false },
            airplane: FeatureConfig { enabled: false },
            doze: FeatureConfig { enabled: true },
            compaction: CompactionConfig { enabled: true, hardlock_ticks: 4 },
            watchdog: WatchdogConfig {
                enabled: false,
                jobscheduler: false,
                timeout_secs: 300,
                idle_threshold_secs: 500,
            },
            drain: FeatureConfig { enabled: false },
            notification: FeatureConfig { enabled: false },
            logging: FeatureConfig { enabled: true },
            dry_run: false,
        }
    }

    /// How long to sleep between cycles: 85 s while the display is on or the
    /// device charges, 160 s otherwise.
    pub fn sleep_duration(&self, display_on: bool, charging: bool) -> (d: Duration)
        ensures
            d == duration_from_secs(
                if display_on || charging {
                    85
                } else {
                    160
                },
            ),
    {
        if display_on || charging {
            secs_duration(85)
        } else {
            secs_duration(160)
        }
    }
}


// ---------------------------------------------------------------------------
// Parsing
// ---------------------------------------------------------------------------

pub open spec fn msg_bool() -> Seq<char> {
    "invalid boolean"@
}

pub open spec fn msg_percent() -> Seq<char> {
    "invalid 0-100 value"@
}

pub open spec fn msg_unsigned() -> Seq<char> {
    "invalid unsigned integer"@
}

pub open spec fn msg_signed() -> Seq<char> {
    "invalid signed integer"@
}

pub open spec fn msg_no_equals() -> Seq<char> {
    "expected key=value"@
}

pub open spec fn msg_unknown_key(key: Seq<char>) -> Seq<char> {
    "unknown key `"@ + key + "`"@
}

/// How a configuration error reads: `line <n>: <message>`.
pub open spec fn config_error_text(e: ConfigErrorView) -> Seq<char> {
    "line "@ + crate::text::decimal(e.line) + ": "@ + e.message
}

impl ConfigError {
    /// The error as `config_error_text` states it.
    pub fn text(&self) -> (r: String)
        ensures
            r@ == config_error_text(self@),
    {
        let mut r = String::from_str("line ");
        crate::text::push_decimal(&mut r, self.line as u64);
        r.append(": ");
        r.append(self.message.as_str());
        r
    }
}

pub open spec fn error_at(line: nat, message: Seq<char>) -> ConfigErrorView {
    ConfigErrorView { line: line, message: message }
}

fn error_at_exec(line: usize, message: &str) -> (e: ConfigError)
    ensures
        e@ == error_at(line as nat, message@),
{
    ConfigError { line: line, message: String::from_str(message) }
}

/// A boolean setting: `true`, `1`, `yes`, `on` or `false`, `0`, `no`, `off`,
/// in any ASCII case.
pub open spec fn bool_value(value: Seq<char>) -> Option<bool> {
    if lower_eq(value, "true"@) || lower_eq(value, "1"@) || lower_eq(value, "yes"@) || lower_eq(
        value,
        "on"@,
    ) {
        Some(true)
    } else if lower_eq(value, "false"@) || lower_eq(value, "0"@) || lower_eq(value, "no"@)
        || lower_eq(value, "off"@) {
        Some(false)
    } else {
        None
    }
}

fn parse_bool_range(v: &Vec<char>, lo: usize, hi: usize) -> (r: Option<bool>)
    requires
        lo <= hi <= v.len(),
    ensures
        r == bool_value(v@.subrange(lo as int, hi as int)),
{
    if range_lower_eq(v, lo, hi, "true") || range_lower_eq(v, lo, hi, "1") || range_lower_eq(
        v,
        lo,
        hi,
        "yes",
    ) || range_lower_eq(v, lo, hi, "on") {
        Some(true)
    } else if range_lower_eq(v, lo, hi, "false") || range_lower_eq(v, lo, hi, "0")
        || range_lower_eq(v, lo, hi, "no") || range_lower_eq(v, lo, hi, "off") {
        Some(false)
    } else {
        None
    }
}

/// A text setting that is unset where the value is empty.
pub open spec fn optional_text(value: Seq<char>) -> Option<Seq<char>> {
    if value.len() == 0 {
        None
    } else {
        Some(value)
    }
}

fn optional_text_exec(text: &str, lo: usize, hi: usize) -> (r: Option<String>)
    requires
        lo <= hi <= text@.len(),
    ensures
        opt_text(r) == optional_text(text@.subrange(lo as int, hi as int)),
{
    if lo == hi {
        None
    } else {
        Some(substring(text, lo, hi))
    }
}

/// The effect of a `battery_a` setting line, or `None` where `key` is no such setting.
pub open spec fn battery_a_setting(key: Seq<char>, value: Seq<char>, line: nat, c: UtensilConfigView) -> Option<Result<UtensilConfigView, ConfigErrorView>> {
    if key == "battery.enabled"@ {
        Some(match bool_value(value) { Some(x) => Ok(UtensilConfigView { battery: BatteryConfigView { enabled: x, ..c.battery }, ..c }), None => Err(error_at(line, msg_bool())) })
    } else if key == "battery.dynamic_threshold"@ {
        Some(match parse_unsigned(value, 100) { Some(x) => Ok(UtensilConfigView { battery: BatteryConfigView { dynamic_threshold: x as u8, ..c.battery }, ..c }), None => Err(error_at(line, msg_percent())) })
    } else if key == "battery.min_threshold"@ {
        Some(match parse_unsigned(value, 100) { Some(x) => Ok(UtensilConfigView { battery: BatteryConfigView { min_threshold: x as u8, ..c.battery }, ..c }), None => Err(error_at(line, msg_percent())) })
    } else if key == "battery.max_threshold"@ {
        Some(match parse_unsigned(value, 100) { Some(x) => Ok(UtensilConfigView { battery: BatteryConfigView { max_threshold: x as u8, ..c.battery }, ..c }), None => Err(error_at(line, msg_percent())) })
    } else if key == "battery.learn_min_points"@ {
        Some(match parse_unsigned(value, usize::MAX as nat) { Some(x) => Ok(UtensilConfigView { battery: BatteryConfigView { learn_min_points: x as usize, ..c.battery }, ..c }), None => Err(error_at(line, msg_unsigned())) })
    } else if key == "battery.learn_max_points"@ {
        Some(match parse_unsigned(value, usize::MAX as nat) { Some(x) => Ok(UtensilConfigView { battery: BatteryConfigView { learn_max_points: x as usize, ..c.battery }, ..c }), None => Err(error_at(line, msg_unsigned())) })
    } else if key == "battery.force_app_standby"@ {
        Some(match bool_value(value) { Some(x) => Ok(UtensilConfigView { battery: BatteryConfigView { force_app_standby: x, ..c.battery }, ..c }), None => Err(error_at(line, msg_bool())) })
    } else if key == "battery.dnd_while_charging"@ {
        Some(match bool_value(value) { Some(x) => Ok(UtensilConfigView { battery: BatteryConfigView { dnd_while_charging: x, ..c.battery }, ..c }), None => Err(error_at(line, msg_bool())) })
    } else {
        None
    }
}

#[verifier::rlimit(60)]
fn apply_battery_a_setting(config: &mut UtensilConfig, v: &Vec<char>, text: &str, ka: usize, kb: usize, va: usize, vb: usize, line: usize) -> (r: Option<Result<(), ConfigError>>)
    requires
        v@ == text@,
        ka <= kb <= v.len(),
        va <= vb <= v.len(),
    ensures
        match battery_a_setting(v@.subrange(ka as int, kb as int), v@.subrange(va as int, vb as int), line as nat, old(config)@) {
            None => r is None && final(config)@ == old(config)@,
            Some(Ok(c)) => r == Some(Ok::<(), ConfigError>(())) && final(config)@ == c,
            Some(Err(e)) => r matches Some(Err(x)) && x@ == e,
        },
{
    if range_eq(v, ka, kb, "battery.enabled") {
        Some(match parse_bool_range(v, va, vb) { Some(x) => { config.battery.enabled = x; Ok(()) }, None => Err(error_at_exec(line, "invalid boolean")) })
    } else if range_eq(v, ka, kb, "battery.dynamic_threshold") {
        Some(match parse_unsigned_range(v, va, vb, 100) { Some(x) => { config.battery.dynamic_threshold = x as u8; Ok(()) }, None => Err(error_at_exec(line, "invalid 0-100 value")) })
    } else if range_eq(v, ka, kb, "battery.min_threshold") {
        Some(match parse_unsigned_range(v, va, vb, 100) { Some(x) => { config.battery.min_threshold = x as u8; Ok(()) }, None => Err(error_at_exec(line, "invalid 0-100 value")) })
    } else if range_eq(v, ka, kb, "battery.max_threshold") {
        Some(match parse_unsigned_range(v, va, vb, 100) { Some(x) => { config.battery.max_threshold = x as u8; Ok(()) }, None => Err(error_at_exec(line, "invalid 0-100 value")) })
    } else if range_eq(v, ka, kb, "battery.learn_min_points") {
        Some(match parse_unsigned_range(v, va, vb, usize::MAX as u64) { Some(x) => { config.battery.learn_min_points = x as usize; Ok(()) }, None => Err(error_at_exec(line, "invalid unsigned integer")) })
    } else if range_eq(v, ka, kb, "battery.learn_max_points") {
        Some(match parse_unsigned_range(v, va, vb, usize::MAX as u64) { Some(x) => { config.battery.learn_max_points = x as usize; Ok(()) }, None => Err(error_at_exec(line, "invalid unsigned integer")) })
    } else if range_eq(v, ka, kb, "battery.force_app_standby") {
        Some(match parse_bool_range(v, va, vb) { Some(x) => { config.battery.force_app_standby = x; Ok(()) }, None => Err(error_at_exec(line, "invalid boolean")) })
    } else if range_eq(v, ka, kb, "battery.dnd_while_charging") {
        Some(match parse_bool_range(v, va, vb) { Some(x) => { config.battery.dnd_while_charging = x; Ok(()) }, None => Err(error_at_exec(line, "invalid boolean")) })
    } else {
        None
    }
}

/// The effect of a `battery_b` setting line, or `None` where `key` is no such setting.
pub open spec fn battery_b_setting(key: Seq<char>, value: Seq<char>, line: nat, c: UtensilConfigView) -> Option<Result<UtensilConfigView, ConfigErrorView>> {
    if key == "battery.refresh_rate_low"@ {
        Some(Ok(UtensilConfigView { battery: BatteryConfigView { refresh_rate_low: optional_text(value), ..c.battery }, ..c }))
    } else if key == "battery.refresh_rate_default"@ {
        Some(Ok(UtensilConfigView { battery: BatteryConfigView { refresh_rate_default: optional_text(value), ..c.battery }, ..c }))
    } else if key == "battery.screen_timeout_low_ms"@ {
        Some(if value.len() == 0 { Ok(UtensilConfigView { battery: BatteryConfigView { screen_timeout_low_ms: None, ..c.battery }, ..c }) } else { match parse_unsigned(value, u64::MAX as nat) { Some(x) => Ok(UtensilConfigView { battery: BatteryConfigView { screen_timeout_low_ms: Some(x as u64), ..c.battery }, ..c }), None => Err(error_at(line, msg_unsigned())) } })
    } else if key == "battery.screen_timeout_default_ms"@ {
        Some(if value.len() == 0 { Ok(UtensilConfigView { battery: BatteryConfigView { screen_timeout_default_ms: None, ..c.battery }, ..c }) } else { match parse_unsigned(value, u64::MAX as nat) { Some(x) => Ok(UtensilConfigView { battery: BatteryConfigView { screen_timeout_default_ms: Some(x as u64), ..c.battery }, ..c }), None => Err(error_at(line, msg_unsigned())) } })
    } else if key == "battery.samsung_restricted_performance"@ {
        Some(match bool_value(value) { Some(x) => Ok(UtensilConfigView { battery: BatteryConfigView { samsung_restricted_performance: x, ..c.battery }, ..c }), None => Err(error_at(line, msg_bool())) })
    } else if key == "battery.background_process_limit_low"@ {
        Some(if value.len() == 0 { Ok(UtensilConfigView { battery: BatteryConfigView { background_process_limit_low: None, ..c.battery }, ..c }) } else { match parse_i32(value) { Some(x) => Ok(UtensilConfigView { battery: BatteryConfigView { background_process_limit_low: Some(x as i32), ..c.battery }, ..c }), None => Err(error_at(line, msg_signed())) } })
    } else if key == "battery.background_process_limit_default"@ {
        Some(if value.len() == 0 { Ok(UtensilConfigView { battery: BatteryConfigView { background_process_limit_default: None, ..c.battery }, ..c }) } else { match parse_i32(value) { Some(x) => Ok(UtensilConfigView { battery: BatteryConfigView { background_process_limit_default: Some(x as i32), ..c.battery }, ..c }), None => Err(error_at(line, msg_signed())) } })
    } else {
        None
    }
}

#[verifier::rlimit(60)]
fn apply_battery_b_setting(config: &mut UtensilConfig, v: &Vec<char>, text: &str, ka: usize, kb: usize, va: usize, vb: usize, line: usize) -> (r: Option<Result<(), ConfigError>>)
    requires
        v@ == text@,
        ka <= kb <= v.len(),
        va <= vb <= v.len(),
    ensures
        match battery_b_setting(v@.subrange(ka as int, kb as int), v@.subrange(va as int, vb as int), line as nat, old(config)@) {
            None => r is None && final(config)@ == old(config)@,
            Some(Ok(c)) => r == Some(Ok::<(), ConfigError>(())) && final(config)@ == c,
            Some(Err(e)) => r matches Some(Err(x)) && x@ == e,
        },
{
    if range_eq(v, ka, kb, "battery.refresh_rate_low") {
        Some({ config.battery.refresh_rate_low = optional_text_exec(text, va, vb); Ok(()) })
    } else if range_eq(v, ka, kb, "battery.refresh_rate_default") {
        Some({ config.battery.refresh_rate_default = optional_text_exec(text, va, vb); Ok(()) })
    } else if range_eq(v, ka, kb, "battery.screen_timeout_low_ms") {
        Some(if va == vb { config.battery.screen_timeout_low_ms = None; Ok(()) } else { match parse_unsigned_range(v, va, vb, u64::MAX) { Some(x) => { config.battery.screen_timeout_low_ms = Some(x); Ok(()) }, None => Err(error_at_exec(line, "invalid unsigned integer")) } })
    } else if range_eq(v, ka, kb, "battery.screen_timeout_default_ms") {
        Some(if va == vb { config.battery.screen_timeout_default_ms = None; Ok(()) } else { match parse_unsigned_range(v, va, vb, u64::MAX) { Some(x) => { config.battery.screen_timeout_default_ms = Some(x); Ok(()) }, None => Err(error_at_exec(line, "invalid unsigned integer")) } })
    } else if range_eq(v, ka, kb, "battery.samsung_restricted_performance") {
        Some(match parse_bool_range(v, va, vb) { Some(x) => { config.battery.samsung_restricted_performance = x; Ok(()) }, None => Err(error_at_exec(line, "invalid boolean")) })
    } else if range_eq(v, ka, kb, "battery.background_process_limit_low") {
        Some(if va == vb { config.battery.background_process_limit_low = None; Ok(()) } else { match parse_i32_range(v, va, vb) { Some(x) => { config.battery.background_process_limit_low = Some(x); Ok(()) }, None => Err(error_at_exec(line, "invalid signed integer")) } })
    } else if range_eq(v, ka, kb, "battery.background_process_limit_default") {
        Some(if va == vb { config.battery.background_process_limit_default = None; Ok(()) } else { match parse_i32_range(v, va, vb) { Some(x) => { config.battery.background_process_limit_default = Some(x); Ok(()) }, None => Err(error_at_exec(line, "invalid signed integer")) } })
    } else {
        None
    }
}

/// The effect of a `thermal` setting line, or `None` where `key` is no such setting.
pub open spec fn thermal_setting(key: Seq<char>, value: Seq<char>, line: nat, c: UtensilConfigView) -> Option<Result<UtensilConfigView, ConfigErrorView>> {
    if key == "thermal.enabled"@ {
        Some(match bool_value(value) { Some(x) => Ok(UtensilConfigView { thermal: ThermalConfig { enabled: x, ..c.thermal }, ..c }), None => Err(error_at(line, msg_bool())) })
    } else if key == "thermal.charging_status"@ {
        Some(match parse_unsigned(value, 100) { Some(x) => Ok(UtensilConfigView { thermal: ThermalConfig { charging_status: x as u8, ..c.thermal }, ..c }), None => Err(error_at(line, msg_percent())) })
    } else if key == "thermal.charging_done_status"@ {
        Some(match parse_unsigned(value, 100) { Some(x) => Ok(UtensilConfigView { thermal: ThermalConfig { charging_done_status: x as u8, ..c.thermal }, ..c }), None => Err(error_at(line, msg_percent())) })
    } else if key == "thermal.discharging_normal"@ {
        Some(match parse_unsigned(value, 100) { Some(x) => Ok(UtensilConfigView { thermal: ThermalConfig { discharging_normal: x as u8, ..c.thermal }, ..c }), None => Err(error_at(line, msg_percent())) })
    } else if key == "thermal.discharging_low"@ {
        Some(match parse_unsigned(value, 100) { Some(x) => Ok(UtensilConfigView { thermal: ThermalConfig { discharging_low: x as u8, ..c.thermal }, ..c }), None => Err(error_at(line, msg_percent())) })
    } else if key == "thermal.discharging_critical"@ {
        Some(match parse_unsigned(value, 100) { Some(x) => Ok(UtensilConfigView { thermal: ThermalConfig { discharging_critical: x as u8, ..c.thermal }, ..c }), None => Err(error_at(line, msg_percent())) })
    } else if key == "thermal.critical_level"@ {
        Some(match parse_unsigned(value, 100) { Some(x) => Ok(UtensilConfigView { thermal: ThermalConfig { critical_level: x as u8, ..c.thermal }, ..c }), None => Err(error_at(line, msg_percent())) })
    } else {
        None
    }
}

#[verifier::rlimit(60)]
fn apply_thermal_setting(config: &mut UtensilConfig, v: &Vec<char>, text: &str, ka: usize, kb: usize, va: usize, vb: usize, line: usize) -> (r: Option<Result<(), ConfigError>>)
    requires
        v@ == text@,
        ka <= kb <= v.len(),
        va <= vb <= v.len(),
    ensures
        match thermal_setting(v@.subrange(ka as int, kb as int), v@.subrange(va as int, vb as int), line as nat, old(config)@) {
            None => r is None && final(config)@ == old(config)@,
            Some(Ok(c)) => r == Some(Ok::<(), ConfigError>(())) && final(config)@ == c,
            Some(Err(e)) => r matches Some(Err(x)) && x@ == e,
        },
{
    if range_eq(v, ka, kb, "thermal.enabled") {
        Some(match parse_bool_range(v, va, vb) { Some(x) => { config.thermal.enabled = x; Ok(()) }, None => Err(error_at_exec(line, "invalid boolean")) })
    } else if range_eq(v, ka, kb, "thermal.charging_status") {
        Some(match parse_unsigned_range(v, va, vb, 100) { Some(x) => { config.thermal.charging_status = x as u8; Ok(()) }, None => Err(error_at_exec(line, "invalid 0-100 value")) })
    } else if range_eq(v, ka, kb, "thermal.charging_done_status") {
        Some(match parse_unsigned_range(v, va, vb, 100) { Some(x) => { config.thermal.charging_done_status = x as u8; Ok(()) }, None => Err(error_at_exec(line, "invalid 0-100 value")) })
    } else if range_eq(v, ka, kb, "thermal.discharging_normal") {
        Some(match parse_unsigned_range(v, va, vb, 100) { Some(x) => { config.thermal.discharging_normal = x as u8; Ok(()) }, None => Err(error_at_exec(line, "invalid 0-100 value")) })
    } else if range_eq(v, ka, kb, "thermal.discharging_low") {
        Some(match parse_unsigned_range(v, va, vb, 100) { Some(x) => { config.thermal.discharging_low = x as u8; Ok(()) }, None => Err(error_at_exec(line, "invalid 0-100 value")) })
    } else if range_eq(v, ka, kb, "thermal.discharging_critical") {
        Some(match parse_unsigned_range(v, va, vb, 100) { Some(x) => { config.thermal.discharging_critical = x as u8; Ok(()) }, None => Err(error_at_exec(line, "invalid 0-100 value")) })
    } else if range_eq(v, ka, kb, "thermal.critical_level") {
        Some(match parse_unsigned_range(v, va, vb, 100) { Some(x) => { config.thermal.critical_level = x as u8; Ok(()) }, None => Err(error_at_exec(line, "invalid 0-100 value")) })
    } else {
        None
    }
}

/// The effect of a `feature_a` setting line, or `None` where `key` is no such setting.
pub open spec fn feature_a_setting(key: Seq<char>, value: Seq<char>, line: nat, c: UtensilConfigView) -> Option<Result<UtensilConfigView, ConfigErrorView>> {
    if key == "sensors.enabled"@ {
        Some(match bool_value(value) { Some(x) => Ok(UtensilConfigView { sensors: FeatureConfig { enabled: x, ..c.sensors }, ..c }), None => Err(error_at(line, msg_bool())) })
    } else if key == "airplane.enabled"@ {
        Some(match bool_value(value) { Some(x) => Ok(UtensilConfigView { airplane: FeatureConfig { enabled: x, ..c.airplane }, ..c }), None => Err(error_at(line, msg_bool())) })
    } else if key == "doze.enabled"@ {
        Some(match bool_value(value) { Some(x) => Ok(UtensilConfigView { doze: FeatureConfig { enabled: x, ..c.doze }, ..c }), None => Err(error_at(line, msg_bool())) })
    } else if key == "compaction.enabled"@ {
        Some(match bool_value(value) { Some(x) => Ok(UtensilConfigView { compaction: CompactionConfig { enabled: x, ..c.compaction }, ..c }), None => Err(error_at(line, msg_bool())) })
    } else if key == "compaction.hardlock_ticks"@ {
        Some(match parse_unsigned(value, u32::MAX as nat) { Some(x) => Ok(UtensilConfigView { compaction: CompactionConfig { hardlock_ticks: x as u32, ..c.compaction }, ..c }), None => Err(error_at(line, msg_unsigned())) })
    } else if key == "watchdog.enabled"@ {
        Some(match bool_value(value) { Some(x) => Ok(UtensilConfigView { watchdog: WatchdogConfig { enabled: x, ..c.watchdog }, ..c }), None => Err(error_at(line, msg_bool())) })
    } else if key == "watchdog.jobscheduler"@ {
        Some(match bool_value(value) { Some(x) => Ok(UtensilConfigView { watchdog: WatchdogConfig { jobscheduler: x, ..c.watchdog }, ..c }), None => Err(error_at(line, msg_bool())) })
    } else {
        None
    }
}

#[verifier::rlimit(60)]
fn apply_feature_a_setting(config: &mut UtensilConfig, v: &Vec<char>, text: &str, ka: usize, kb: usize, va: usize, vb: usize, line: usize) -> (r: Option<Result<(), ConfigError>>)
    requires
        v@ == text@,
        ka <= kb <= v.len(),
        va <= vb <= v.len(),
    ensures
        match feature_a_setting(v@.subrange(ka as int, kb as int), v@.subrange(va as int, vb as int), line as nat, old(config)@) {
            None => r is None && final(config)@ == old(config)@,
            Some(Ok(c)) => r == Some(Ok::<(), ConfigError>(())) && final(config)@ == c,
            Some(Err(e)) => r matches Some(Err(x)) && x@ == e,
        },
{
    if range_eq(v, ka, kb, "sensors.enabled") {
        Some(match parse_bool_range(v, va, vb) { Some(x) => { config.sensors.enabled = x; Ok(()) }, None => Err(error_at_exec(line, "invalid boolean")) })
    } else if range_eq(v, ka, kb, "airplane.enabled") {
        Some(match parse_bool_range(v, va, vb) { Some(x) => { config.airplane.enabled = x; Ok(()) }, None => Err(error_at_exec(line, "invalid boolean")) })
    } else if range_eq(v, ka, kb, "doze.enabled") {
        Some(match parse_bool_range(v, va, vb) { Some(x) => { config.doze.enabled = x; Ok(()) }, None => Err(error_at_exec(line, "invalid boolean")) })
    } else if range_eq(v, ka, kb, "compaction.enabled") {
        Some(match parse_bool_range(v, va, vb) { Some(x) => { config.compaction.enabled = x; Ok(()) }, None => Err(error_at_exec(line, "invalid boolean")) })
    } else if range_eq(v, ka, kb, "compaction.hardlock_ticks") {
        Some(match parse_unsigned_range(v, va, vb, u32::MAX as u64) { Some(x) => { config.compaction.hardlock_ticks = x as u32; Ok(()) }, None => Err(error_at_exec(line, "invalid unsigned integer")) })
    } else if range_eq(v, ka, kb, "watchdog.enabled") {
        Some(match parse_bool_range(v, va, vb) { Some(x) => { config.watchdog.enabled = x; Ok(()) }, None => Err(error_at_exec(line, "invalid boolean")) })
    } else if range_eq(v, ka, kb, "watchdog.jobscheduler") {
        Some(match parse_bool_range(v, va, vb) { Some(x) => { config.watchdog.jobscheduler = x; Ok(()) }, None => Err(error_at_exec(line, "invalid boolean")) })
    } else {
        None
    }
}

/// The effect of a `feature_b` setting line, or `None` where `key` is no such setting.
pub open spec fn feature_b_setting(key: Seq<char>, value: Seq<char>, line: nat, c: UtensilConfigView) -> Option<Result<UtensilConfigView, ConfigErrorView>> {
    if key == "watchdog.timeout_secs"@ {
        Some(match parse_unsigned(value, u64::MAX as nat) { Some(x) => Ok(UtensilConfigView { watchdog: WatchdogConfig { timeout_secs: x as u64, ..c.watchdog }, ..c }), None => Err(error_at(line, msg_unsigned())) })
    } else if key == "watchdog.idle_threshold_secs"@ {
        Some(match parse_unsigned(value, u64::MAX as nat) { Some(x) => Ok(UtensilConfigView { watchdog: WatchdogConfig { idle_threshold_secs: x as u64, ..c.watchdog }, ..c }), None => Err(error_at(line, msg_unsigned())) })
    } else if key == "drain.enabled"@ {
        Some(match bool_value(value) { Some(x) => Ok(UtensilConfigView { drain: FeatureConfig { enabled: x, ..c.drain }, ..c }), None => Err(error_at(line, msg_bool())) })
    } else if key == "notification.enabled"@ {
        Some(match bool_value(value) { Some(x) => Ok(UtensilConfigView { notification: FeatureConfig { enabled: x, ..c.notification }, ..c }), None => Err(error_at(line, msg_bool())) })
    } else if key == "logging.enabled"@ {
        Some(match bool_value(value) { Some(x) => Ok(UtensilConfigView { logging: FeatureConfig { enabled: x, ..c.logging }, ..c }), None => Err(error_at(line, msg_bool())) })
    } else if key == "dry_run"@ {
        Some(match bool_value(value) { Some(x) => Ok(UtensilConfigView { dry_run: x, ..c }), None => Err(error_at(line, msg_bool())) })
    } else {
        None
    }
}

#[verifier::rlimit(60)]
fn apply_feature_b_setting(config: &mut UtensilConfig, v: &Vec<char>, text: &str, ka: usize, kb: usize, va: usize, vb: usize, line: usize) -> (r: Option<Result<(), ConfigError>>)
    requires
        v@ == text@,
        ka <= kb <= v.len(),
        va <= vb <= v.len(),
    ensures
        match feature_b_setting(v@.subrange(ka as int, kb as int), v@.subrange(va as int, vb as int), line as nat, old(config)@) {
            None => r is None && final(config)@ == old(config)@,
            Some(Ok(c)) => r == Some(Ok::<(), ConfigError>(())) && final(config)@ == c,
            Some(Err(e)) => r matches Some(Err(x)) && x@ == e,
        },
{
    if range_eq(v, ka, kb, "watchdog.timeout_secs") {
        Some(match parse_unsigned_range(v, va, vb, u64::MAX as u64) { Some(x) => { config.watchdog.timeout_secs = x as u64; Ok(()) }, None => Err(error_at_exec(line, "invalid unsigned integer")) })
    } else if range_eq(v, ka, kb, "watchdog.idle_threshold_secs") {
        Some(match parse_unsigned_range(v, va, vb, u64::MAX as u64) { Some(x) => { config.watchdog.idle_threshold_secs = x as u64; Ok(()) }, None => Err(error_at_exec(line, "invalid unsigned integer")) })
    } else if range_eq(v, ka, kb, "drain.enabled") {
        Some(match parse_bool_range(v, va, vb) { Some(x) => { config.drain.enabled = x; Ok(()) }, None => Err(error_at_exec(line, "invalid boolean")) })
    } else if range_eq(v, ka, kb, "notification.enabled") {
        Some(match parse_bool_range(v, va, vb) { Some(x) => { config.notification.enabled = x; Ok(()) }, None => Err(error_at_exec(line, "invalid boolean")) })
    } else if range_eq(v, ka, kb, "logging.enabled") {
        Some(match parse_bool_range(v, va, vb) { Some(x) => { config.logging.enabled = x; Ok(()) }, None => Err(error_at_exec(line, "invalid boolean")) })
    } else if range_eq(v, ka, kb, "dry_run") {
        Some(match parse_bool_range(v, va, vb) { Some(x) => { config.dry_run = x; Ok(()) }, None => Err(error_at_exec(line, "invalid boolean")) })
    } else {
        None
    }
}

/// The effect of a `path` setting line, or `None` where `key` is no such setting.
pub open spec fn path_setting(key: Seq<char>, value: Seq<char>, line: nat, c: UtensilConfigView) -> Option<Result<UtensilConfigView, ConfigErrorView>> {
    if key == "path.learning_file"@ {
        Some(Ok(UtensilConfigView { paths: PathConfigView { learning_file: value, ..c.paths }, ..c }))
    } else if key == "path.threshold_file"@ {
        Some(Ok(UtensilConfigView { paths: PathConfigView { threshold_file: value, ..c.paths }, ..c }))
    } else if key == "path.whitelist_file"@ {
        Some(Ok(UtensilConfigView { paths: PathConfigView { whitelist_file: value, ..c.paths }, ..c }))
    } else if key == "path.drain_log_file"@ {
        Some(Ok(UtensilConfigView { paths: PathConfigView { drain_log_file: value, ..c.paths }, ..c }))
    } else if key == "path.packages_xml"@ {
        Some(Ok(UtensilConfigView { paths: PathConfigView { packages_xml: value, ..c.paths }, ..c }))
    } else {
        None
    }
}

#[verifier::rlimit(60)]
fn apply_path_setting(config: &mut UtensilConfig, v: &Vec<char>, text: &str, ka: usize, kb: usize, va: usize, vb: usize, line: usize) -> (r: Option<Result<(), ConfigError>>)
    requires
        v@ == text@,
        ka <= kb <= v.len(),
        va <= vb <= v.len(),
    ensures
        match path_setting(v@.subrange(ka as int, kb as int), v@.subrange(va as int, vb as int), line as nat, old(config)@) {
            None => r is None && final(config)@ == old(config)@,
            Some(Ok(c)) => r == Some(Ok::<(), ConfigError>(())) && final(config)@ == c,
            Some(Err(e)) => r matches Some(Err(x)) && x@ == e,
        },
{
    if range_eq(v, ka, kb, "path.learning_file") {
        Some({ config.paths.learning_file = substring(text, va, vb); Ok(()) })
    } else if range_eq(v, ka, kb, "path.threshold_file") {
        Some({ config.paths.threshold_file = substring(text, va, vb); Ok(()) })
    } else if range_eq(v, ka, kb, "path.whitelist_file") {
        Some({ config.paths.whitelist_file = substring(text, va, vb); Ok(()) })
    } else if range_eq(v, ka, kb, "path.drain_log_file") {
        Some({ config.paths.drain_log_file = substring(text, va, vb); Ok(()) })
    } else if range_eq(v, ka, kb, "path.packages_xml") {
        Some({ config.paths.packages_xml = substring(text, va, vb); Ok(()) })
    } else {
        None
    }
}

/// The effect of the setting `key=value` on line `line`.
pub open spec fn apply_setting(key: Seq<char>, value: Seq<char>, line: nat, c: UtensilConfigView) -> Result<
    UtensilConfigView,
    ConfigErrorView,
> {
    match battery_a_setting(key, value, line, c) {
        Some(r) => r,
        None => match battery_b_setting(key, value, line, c) {
            Some(r) => r,
            None => match thermal_setting(key, value, line, c) {
                Some(r) => r,
                None => match feature_a_setting(key, value, line, c) {
                    Some(r) => r,
                    None => match feature_b_setting(key, value, line, c) {
                        Some(r) => r,
                        None => match path_setting(key, value, line, c) {
                            Some(r) => r,
                            None => Err(error_at(line, msg_unknown_key(key))),
                        },
                    },
                },
            },
        },
    }
}

fn apply_setting_exec(
    config: &mut UtensilConfig,
    v: &Vec<char>,
    text: &str,
    ka: usize,
    kb: usize,
    va: usize,
    vb: usize,
    line: usize,
) -> (r: Result<(), ConfigError>)
    requires
        v@ == text@,
        ka <= kb <= v.len(),
        va <= vb <= v.len(),
    ensures
        match apply_setting(
            v@.subrange(ka as int, kb as int),
            v@.subrange(va as int, vb as int),
            line as nat,
            old(config)@,
        ) {
            Ok(c) => r is Ok && final(config)@ == c,
            Err(e) => r matches Err(x) && x@ == e,
        },
{
    if let Some(r) = apply_battery_a_setting(config, v, text, ka, kb, va, vb, line) {
        return r;
    }
    if let Some(r) = apply_battery_b_setting(config, v, text, ka, kb, va, vb, line) {
        return r;
    }
    if let Some(r) = apply_thermal_setting(config, v, text, ka, kb, va, vb, line) {
        return r;
    }
    if let Some(r) = apply_feature_a_setting(config, v, text, ka, kb, va, vb, line) {
        return r;
    }
    if let Some(r) = apply_feature_b_setting(config, v, text, ka, kb, va, vb, line) {
        return r;
    }
    if let Some(r) = apply_path_setting(config, v, text, ka, kb, va, vb, line) {
        return r;
    }
    let mut m = String::from_str("unknown key `");
    m.append(text.substring_char(ka, kb));
    m.append("`");
    Err(ConfigError { line: line, message: m })
}

/// The effect of one line (without its line break): blank lines and lines
/// whose first non-blank character is `#` change nothing; any other line must
/// be `key=value`, both sides trimmed.
pub open spec fn apply_line(line: Seq<char>, n: nat, c: UtensilConfigView) -> Result<
    UtensilConfigView,
    ConfigErrorView,
> {
    let t = trim(line);
    if t.len() == 0 || t[0] == '#' {
        Ok(c)
    } else {
        let eq = index_of(t, '=');
        if eq >= t.len() {
            Err(error_at(n, msg_no_equals()))
        } else {
            apply_setting(
                trim(t.subrange(0, eq as int)),
                trim(t.subrange(eq as int + 1, t.len() as int)),
                n,
                c,
            )
        }
    }
}

fn apply_line_exec(
    config: &mut UtensilConfig,
    v: &Vec<char>,
    text: &str,
    lo: usize,
    hi: usize,
    line: usize,
) -> (r: Result<(), ConfigError>)
    requires
        v@ == text@,
        lo <= hi <= v.len(),
    ensures
        match apply_line(v@.subrange(lo as int, hi as int), line as nat, old(config)@) {
            Ok(c) => r is Ok && final(config)@ == c,
            Err(e) => r matches Err(x) && x@ == e,
        },
{
    let (a, b) = trim_range(v, lo, hi);
    let ghost t = v@.subrange(a as int, b as int);
    if a == b || v[a] == '#' {
        return Ok(());
    }
    let eq = find_char(v, a, b, '=');
    if eq == b {
        return Err(error_at_exec(line, "expected key=value"));
    }
    let (ka, kb) = trim_range(v, a, eq);
    let (va, vb) = trim_range(v, eq + 1, b);
    assert(t.subrange(0, eq - a) =~= v@.subrange(a as int, eq as int));
    assert(t.subrange(eq - a + 1, t.len() as int) =~= v@.subrange(eq + 1, b as int));
    apply_setting_exec(config, v, text, ka, kb, va, vb, line)
}

/// The effect of the lines of `text`, the first of them numbered `n`: each
/// line in turn, up to the first that is rejected.
pub open spec fn apply_lines(text: Seq<char>, n: nat, c: UtensilConfigView) -> Result<
    UtensilConfigView,
    ConfigErrorView,
>
    decreases text.len(),
{
    let nl = index_of(text, '\n');
    match apply_line(text.subrange(0, nl as int), n, c) {
        Err(e) => Err(e),
        Ok(c2) => if nl < text.len() {
            apply_lines(text.subrange(nl as int + 1, text.len() as int), n + 1, c2)
        } else {
            Ok(c2)
        },
    }
}

/// `parse_config_with_base(text, base)`: the lines of `text` applied to `base`.
pub open spec fn parse_config_spec(text: Seq<char>, base: UtensilConfigView) -> Result<
    UtensilConfigView,
    ConfigErrorView,
> {
    apply_lines(text, 1, base)
}

/// Reads the `key=value` lines of `text` over `config`; the first rejected
/// line ends the reading with its number and the reason.
pub fn parse_config_with_base(text: &str, base_config: UtensilConfig) -> (r: Result<
    UtensilConfig,
    ConfigError,
>)
    ensures
        result_view(r) == parse_config_spec(text@, base_config@),
{
    let v = chars_of(text);
    let ghost base = base_config@;
    let mut config = base_config;
    let mut pos: usize = 0;
    let mut line_no: usize = 1;
    assert(v@.subrange(0, v.len() as int) =~= text@);
    loop
        invariant
            v@ == text@,
            base == base_config@,
            pos <= v.len(),
            1 <= line_no <= pos + 1,
            apply_lines(v@.subrange(pos as int, v.len() as int), line_no as nat, config@)
                == parse_config_spec(text@, base),
        decreases v.len() - pos,
    {
        let ghost s = v@.subrange(pos as int, v.len() as int);
        let ghost before = config@;
        let nl = find_char(&v, pos, v.len(), '\n');
        proof {
            lemma_index_of_bounds(s, '\n');
            assert(s.subrange(0, nl - pos) =~= v@.subrange(pos as int, nl as int));
        }
        match apply_line_exec(&mut config, &v, text, pos, nl, line_no) {
            Err(e) => {
                assert(apply_lines(s, line_no as nat, before) == Err::<UtensilConfigView, ConfigErrorView>(e@));
                return Err(e);
            },
            Ok(()) => {},
        }
        if nl == v.len() {
            assert(apply_lines(s, line_no as nat, before) == Ok::<UtensilConfigView, ConfigErrorView>(config@));
            return Ok(config);
        }
        proof {
            assert(s.subrange(nl - pos + 1, s.len() as int) =~= v@.subrange(
                nl + 1,
                v.len() as int,
            ));
        }
        if nl + 1 == v.len() {
            proof {
                let e = v@.subrange(nl + 1, v.len() as int);
                assert(e.len() == 0);
                assert(trim(e.subrange(0, 0)).len() == 0);
                assert(index_of(e, '\n') == 0);
                assert(e.subrange(0, 0) =~= e);
                assert(apply_line(e, (line_no + 1) as nat, config@) == Ok::<UtensilConfigView, ConfigErrorView>(config@));
                assert(apply_lines(e, (line_no + 1) as nat, config@) == Ok::<UtensilConfigView, ConfigErrorView>(config@));
                assert(apply_lines(s, line_no as nat, before) == apply_lines(e, (line_no + 1) as nat, config@));
            }
            return Ok(config);
        }
        pos = nl + 1;
        line_no = line_no + 1;
    }
}

/// Reads the `key=value` lines of `text` over the defaults for the default
/// configuration path.
pub fn parse_config(text: &str) -> (r: Result<UtensilConfig, ConfigError>)
    ensures
        result_view(r) == parse_config_spec(text@, default_config(DEFAULT_CONFIG_PATH@)),
{
    parse_config_with_base(text, UtensilConfig::for_config_path(DEFAULT_CONFIG_PATH))
}

// ---------------------------------------------------------------------------
// Text form
// ---------------------------------------------------------------------------

pub open spec fn bool_text(b: bool) -> Seq<char> {
    if b {
        "true"@
    } else {
        "false"@
    }
}

pub open spec fn head_lines(c: UtensilConfigView) -> Seq<Seq<char>> {
    seq![
        "# Utensil Poker Rust config"@,
    ]
}

fn push_head_lines(lines: &mut Vec<String>, c: &UtensilConfig)
    ensures
        texts(final(lines)@) == texts(old(lines)@) + head_lines(c@),
{
    let ghost start = lines@;
    lines.push(String::from_str("# Utensil Poker Rust config"));
    proof {
        assert(texts(lines@) =~= texts(start) + head_lines(c@));
    }
}

/// The battery switches and numbers, as printed.
pub open spec fn battery_core_lines(c: UtensilConfigView) -> Seq<Seq<char>> {
    seq![
        "battery.enabled="@ + bool_text(c.battery.enabled),
        "battery.dynamic_threshold="@ + decimal(c.battery.dynamic_threshold as nat),
        "battery.min_threshold="@ + decimal(c.battery.min_threshold as nat),
        "battery.max_threshold="@ + decimal(c.battery.max_threshold as nat),
        "battery.learn_min_points="@ + decimal(c.battery.learn_min_points as nat),
        "battery.learn_max_points="@ + decimal(c.battery.learn_max_points as nat),
        "battery.force_app_standby="@ + bool_text(c.battery.force_app_standby),
        "battery.dnd_while_charging="@ + bool_text(c.battery.dnd_while_charging),
    ]
}

/// How an optional text setting is printed: its value, or nothing where unset.
pub open spec fn opt_value_text(o: Option<Seq<char>>) -> Seq<char> {
    match o {
        Some(v) => v,
        None => Seq::empty(),
    }
}

/// How an optional number setting is printed: its digits, or nothing where unset.
pub open spec fn opt_u64_text(o: Option<u64>) -> Seq<char> {
    match o {
        Some(v) => decimal(v as nat),
        None => Seq::empty(),
    }
}

/// How an optional signed setting is printed: its digits with any sign, or
/// nothing where unset.
pub open spec fn opt_i32_text(o: Option<i32>) -> Seq<char> {
    match o {
        Some(v) => crate::text::signed_decimal(v as int),
        None => Seq::empty(),
    }
}

/// The optional battery settings (each printed empty where unset) and the
/// Samsung switch.
pub open spec fn battery_optional_lines(c: UtensilConfigView) -> Seq<Seq<char>> {
    seq![
        "battery.refresh_rate_low="@ + opt_value_text(c.battery.refresh_rate_low),
        "battery.refresh_rate_default="@ + opt_value_text(c.battery.refresh_rate_default),
        "battery.screen_timeout_low_ms="@ + opt_u64_text(c.battery.screen_timeout_low_ms),
        "battery.screen_timeout_default_ms="@ + opt_u64_text(c.battery.screen_timeout_default_ms),
        "battery.samsung_restricted_performance="@ + bool_text(c.battery.samsung_restricted_performance),
        "battery.background_process_limit_low="@ + opt_i32_text(c.battery.background_process_limit_low),
        "battery.background_process_limit_default="@ + opt_i32_text(c.battery.background_process_limit_default),
    ]
}

pub open spec fn battery_lines(c: UtensilConfigView) -> Seq<Seq<char>> {
    battery_core_lines(c) + battery_optional_lines(c)
}

fn push_battery_lines(lines: &mut Vec<String>, c: &UtensilConfig)
    ensures
        texts(final(lines)@) == texts(old(lines)@) + battery_lines(c@),
{
    let ghost start = lines@;
    lines.push(bool_line("battery.enabled=", c.battery.enabled));
    lines.push(number_line("battery.dynamic_threshold=", c.battery.dynamic_threshold as u64));
    lines.push(number_line("battery.min_threshold=", c.battery.min_threshold as u64));
    lines.push(number_line("battery.max_threshold=", c.battery.max_threshold as u64));
    lines.push(number_line("battery.learn_min_points=", c.battery.learn_min_points as u64));
    lines.push(number_line("battery.learn_max_points=", c.battery.learn_max_points as u64));
    lines.push(bool_line("battery.force_app_standby=", c.battery.force_app_standby));
    lines.push(bool_line("battery.dnd_while_charging=", c.battery.dnd_while_charging));
    lines.push(opt_text_line("battery.refresh_rate_low=", &c.battery.refresh_rate_low));
    lines.push(opt_text_line("battery.refresh_rate_default=", &c.battery.refresh_rate_default));
    lines.push(opt_u64_line("battery.screen_timeout_low_ms=", c.battery.screen_timeout_low_ms));
    lines.push(opt_u64_line("battery.screen_timeout_default_ms=", c.battery.screen_timeout_default_ms));
    lines.push(bool_line("battery.samsung_restricted_performance=", c.battery.samsung_restricted_performance));
    lines.push(opt_i32_line("battery.background_process_limit_low=", c.battery.background_process_limit_low));
    lines.push(opt_i32_line("battery.background_process_limit_default=", c.battery.background_process_limit_default));
    proof {
        assert(texts(lines@) =~= texts(start) + battery_lines(c@));
    }
}

pub open spec fn thermal_lines(c: UtensilConfigView) -> Seq<Seq<char>> {
    seq![
        "thermal.enabled="@ + bool_text(c.thermal.enabled),
        "thermal.charging_status="@ + decimal(c.thermal.charging_status as nat),
        "thermal.charging_done_status="@ + decimal(c.thermal.charging_done_status as nat),
        "thermal.discharging_normal="@ + decimal(c.thermal.discharging_normal as nat),
        "thermal.discharging_low="@ + decimal(c.thermal.discharging_low as nat),
        "thermal.discharging_critical="@ + decimal(c.thermal.discharging_critical as nat),
        "thermal.critical_level="@ + decimal(c.thermal.critical_level as nat),
    ]
}

fn push_thermal_lines(lines: &mut Vec<String>, c: &UtensilConfig)
    ensures
        texts(final(lines)@) == texts(old(lines)@) + thermal_lines(c@),
{
    let ghost start = lines@;
    lines.push(bool_line("thermal.enabled=", c.thermal.enabled));
    lines.push(number_line("thermal.charging_status=", c.thermal.charging_status as u64));
    lines.push(number_line("thermal.charging_done_status=", c.thermal.charging_done_status as u64));
    lines.push(number_line("thermal.discharging_normal=", c.thermal.discharging_normal as u64));
    lines.push(number_line("thermal.discharging_low=", c.thermal.discharging_low as u64));
    lines.push(number_line("thermal.discharging_critical=", c.thermal.discharging_critical as u64));
    lines.push(number_line("thermal.critical_level=", c.thermal.critical_level as u64));
    proof {
        assert(texts(lines@) =~= texts(start) + thermal_lines(c@));
    }
}

/// The feature switches up to the job scheduler, as printed.
pub open spec fn feature_switch_lines(c: UtensilConfigView) -> Seq<Seq<char>> {
    seq![
        "sensors.enabled="@ + bool_text(c.sensors.enabled),
        "airplane.enabled="@ + bool_text(c.airplane.enabled),
        "doze.enabled="@ + bool_text(c.doze.enabled),
        "compaction.enabled="@ + bool_text(c.compaction.enabled),
        "compaction.hardlock_ticks="@ + decimal(c.compaction.hardlock_ticks as nat),
        "watchdog.enabled="@ + bool_text(c.watchdog.enabled),
        "watchdog.jobscheduler="@ + bool_text(c.watchdog.jobscheduler),
    ]
}

/// The watchdog times and the remaining switches, as printed.
pub open spec fn feature_rest_lines(c: UtensilConfigView) -> Seq<Seq<char>> {
    seq![
        "watchdog.timeout_secs="@ + decimal(c.watchdog.timeout_secs as nat),
        "watchdog.idle_threshold_secs="@ + decimal(c.watchdog.idle_threshold_secs as nat),
        "drain.enabled="@ + bool_text(c.drain.enabled),
        "notification.enabled="@ + bool_text(c.notification.enabled),
        "logging.enabled="@ + bool_text(c.logging.enabled),
        "dry_run="@ + bool_text(c.dry_run),
    ]
}

pub open spec fn feature_lines(c: UtensilConfigView) -> Seq<Seq<char>> {
    feature_switch_lines(c) + feature_rest_lines(c)
}

fn push_feature_lines(lines: &mut Vec<String>, c: &UtensilConfig)
    ensures
        texts(final(lines)@) == texts(old(lines)@) + feature_lines(c@),
{
    let ghost start = lines@;
    lines.push(bool_line("sensors.enabled=", c.sensors.enabled));
    lines.push(bool_line("airplane.enabled=", c.airplane.enabled));
    lines.push(bool_line("doze.enabled=", c.doze.enabled));
    lines.push(bool_line("compaction.enabled=", c.compaction.enabled));
    lines.push(number_line("compaction.hardlock_ticks=", c.compaction.hardlock_ticks as u64));
    lines.push(bool_line("watchdog.enabled=", c.watchdog.enabled));
    lines.push(bool_line("watchdog.jobscheduler=", c.watchdog.jobscheduler));
    lines.push(number_line("watchdog.timeout_secs=", c.watchdog.timeout_secs as u64));
    lines.push(number_line("watchdog.idle_threshold_secs=", c.watchdog.idle_threshold_secs as u64));
    lines.push(bool_line("drain.enabled=", c.drain.enabled));
    lines.push(bool_line("notification.enabled=", c.notification.enabled));
    lines.push(bool_line("logging.enabled=", c.logging.enabled));
    lines.push(bool_line("dry_run=", c.dry_run));
    proof {
        assert(texts(lines@) =~= texts(start) + feature_lines(c@));
    }
}

pub open spec fn path_lines(c: UtensilConfigView) -> Seq<Seq<char>> {
    seq![
        "path.learning_file="@ + c.paths.learning_file,
        "path.threshold_file="@ + c.paths.threshold_file,
        "path.whitelist_file="@ + c.paths.whitelist_file,
        "path.drain_log_file="@ + c.paths.drain_log_file,
        "path.packages_xml="@ + c.paths.packages_xml,
    ]
}

fn push_path_lines(lines: &mut Vec<String>, c: &UtensilConfig)
    ensures
        texts(final(lines)@) == texts(old(lines)@) + path_lines(c@),
{
    let ghost start = lines@;
    lines.push(text_line("path.learning_file=", c.paths.learning_file.as_str()));
    lines.push(text_line("path.threshold_file=", c.paths.threshold_file.as_str()));
    lines.push(text_line("path.whitelist_file=", c.paths.whitelist_file.as_str()));
    lines.push(text_line("path.drain_log_file=", c.paths.drain_log_file.as_str()));
    lines.push(text_line("path.packages_xml=", c.paths.packages_xml.as_str()));
    proof {
        assert(texts(lines@) =~= texts(start) + path_lines(c@));
    }
}

/// The lines that `to_config_text` writes for `c`: every setting, the
/// optional battery ones with an empty value where unset.
pub open spec fn config_lines(c: UtensilConfigView) -> Seq<Seq<char>> {
    head_lines(c) + battery_lines(c) + thermal_lines(c) + feature_lines(c) + path_lines(c)
}

/// The lines `ls`, each followed by a line break.
pub open spec fn join_lines(ls: Seq<Seq<char>>) -> Seq<char>
    decreases ls.len(),
{
    if ls.len() == 0 {
        Seq::empty()
    } else {
        join_lines(ls.subrange(0, ls.len() - 1)) + ls[ls.len() - 1] + seq!['\n']
    }
}

/// The text that `to_config_text` writes for `c`.
pub open spec fn config_text(c: UtensilConfigView) -> Seq<char> {
    join_lines(config_lines(c))
}

pub open spec fn texts(ls: Seq<String>) -> Seq<Seq<char>> {
    ls.map_values(|l: String| l@)
}

fn bool_line(key: &str, b: bool) -> (s: String)
    ensures
        s@ == key@ + bool_text(b),
{
    let mut s = String::from_str(key);
    if b {
        s.append("true");
    } else {
        s.append("false");
    }
    s
}

fn number_line(key: &str, n: u64) -> (s: String)
    ensures
        s@ == key@ + decimal(n as nat),
{
    let mut s = String::from_str(key);
    push_decimal(&mut s, n);
    s
}

fn opt_text_line(key: &str, value: &Option<String>) -> (s: String)
    ensures
        s@ == key@ + opt_value_text(opt_text(*value)),
{
    let mut s = String::from_str(key);
    match value {
        Some(v) => s.append(v.as_str()),
        None => {},
    }
    s
}

fn opt_u64_line(key: &str, value: Option<u64>) -> (s: String)
    ensures
        s@ == key@ + opt_u64_text(value),
{
    let mut s = String::from_str(key);
    match value {
        Some(v) => push_decimal(&mut s, v),
        None => {},
    }
    s
}

fn opt_i32_line(key: &str, value: Option<i32>) -> (s: String)
    ensures
        s@ == key@ + opt_i32_text(value),
{
    let mut s = String::from_str(key);
    match value {
        Some(v) => s.append(crate::text::signed_decimal_string(v).as_str()),
        None => {},
    }
    s
}

fn text_line(key: &str, value: &str) -> (s: String)
    ensures
        s@ == key@ + value@,
{
    let mut s = String::from_str(key);
    s.append(value);
    s
}

/// The lines `lines`, each followed by a line break, in one string.
pub fn join_line_texts(lines: &Vec<String>) -> (s: String)
    ensures
        s@ == join_lines(texts(lines@)),
{
    let mut s = String::new();
    let mut i: usize = 0;
    while i < lines.len()
        invariant
            0 <= i <= lines.len(),
            s@ == join_lines(texts(lines@).subrange(0, i as int)),
        decreases lines.len() - i,
    {
        proof {
            let t = texts(lines@);
            assert(t.subrange(0, i + 1).subrange(0, i as int) =~= t.subrange(0, i as int));
            reveal_strlit("\n");
        }
        s.append(lines[i].as_str());
        s.append("\n");
        i = i + 1;
    }
    assert(texts(lines@).subrange(0, lines.len() as int) =~= texts(lines@));
    s
}

impl UtensilConfig {
    /// The configuration as `key=value` lines that `parse_config_with_base` reads.
    pub fn to_config_text(&self) -> (s: String)
        ensures
            s@ == config_text(self@),
    {
        let mut lines: Vec<String> = Vec::new();
        push_head_lines(&mut lines, self);
        push_battery_lines(&mut lines, self);
        push_thermal_lines(&mut lines, self);
        push_feature_lines(&mut lines, self);
        push_path_lines(&mut lines, self);
        proof {
            assert(texts(lines@) =~= config_lines(self@));
        }
        join_line_texts(&lines)
    }
}

/// A joined text starts with its first line and a line break.
pub proof fn lemma_join_front(out: Seq<Seq<char>>)
    requires
        out.len() > 0,
    ensures
        join_lines(out) == out[0] + seq!['\n'] + join_lines(
            out.subrange(1, out.len() as int),
        ),
    decreases out.len(),
{
    let n = out.len();
    if n == 1 {
        assert(out.subrange(0, 0) =~= Seq::<Seq<char>>::empty());
        assert(out.subrange(1, 1) =~= Seq::<Seq<char>>::empty());
        assert(join_lines(out.subrange(0, 0)) =~= Seq::<char>::empty());
        assert(join_lines(out.subrange(1, 1)) =~= Seq::<char>::empty());
        assert(join_lines(out) =~= out[0] + seq!['\n']);
    } else {
        let init = out.subrange(0, n - 1);
        lemma_join_front(init);
        let rest = out.subrange(1, n as int);
        assert(rest.subrange(0, rest.len() - 1) =~= init.subrange(1, init.len() as int));
        assert(rest[rest.len() - 1] == out[n - 1]);
        assert(init[0] == out[0]);
        assert(join_lines(out) =~= out[0] + seq!['\n'] + join_lines(rest));
    }
}


/// A line that sets nothing: blank once trimmed, or a comment.
pub open spec fn blank_or_comment(line: Seq<char>) -> bool {
    let t = trim(line);
    t.len() == 0 || t[0] == '#'
}

proof fn lemma_comment_lines_apply(text: Seq<char>, n: nat, c: UtensilConfigView)
    requires
        forall|i: int|
            0 <= i < crate::text::split_lines(text).len() ==> blank_or_comment(
                #[trigger] crate::text::split_lines(text)[i],
            ),
    ensures
        apply_lines(text, n, c) == Ok::<UtensilConfigView, ConfigErrorView>(c),
    decreases text.len(),
{
    let nl = index_of(text, '\n');
    lemma_index_of_bounds(text, '\n');
    let ls = crate::text::split_lines(text);
    assert(ls[0] == text.subrange(0, nl as int));
    assert(blank_or_comment(ls[0]));
    if nl < text.len() {
        let rest = text.subrange(nl as int + 1, text.len() as int);
        let rs = crate::text::split_lines(rest);
        assert forall|i: int| 0 <= i < rs.len() implies blank_or_comment(#[trigger] rs[i]) by {
            assert(rs[i] == ls[i + 1]);
        }
        lemma_comment_lines_apply(rest, n + 1, c);
    }
}

/// A text whose every line is blank or a comment (the empty text among
/// them) leaves the configuration it is read over unchanged.
pub proof fn lemma_comment_lines_change_nothing(text: Seq<char>, base: UtensilConfigView)
    requires
        forall|i: int|
            0 <= i < crate::text::split_lines(text).len() ==> blank_or_comment(
                #[trigger] crate::text::split_lines(text)[i],
            ),
    ensures
        parse_config_spec(text, base) == Ok::<UtensilConfigView, ConfigErrorView>(base),
{
    lemma_comment_lines_apply(text, 1, base);
}

#[verifier::rlimit(80)]
#[verifier::spinoff_prover]
pub(crate) proof fn lemma_battery_a_overwrite(
    key: Seq<char>,
    v: Seq<char>,
    w: Seq<char>,
    n: nat,
    m: nat,
    c: UtensilConfigView,
    d: UtensilConfigView,
)
    ensures
        battery_a_setting(key, v, n, c) is None ==> battery_a_setting(key, w, m, d) is None,
        battery_a_setting(key, v, n, c) matches Some(Ok(c1)) ==> battery_a_setting(key, w, m, c1) == battery_a_setting(key, w, m, c),
{
    if key == "battery.enabled"@ {
    } else if key == "battery.dynamic_threshold"@ {
    } else if key == "battery.min_threshold"@ {
    } else if key == "battery.max_threshold"@ {
    } else if key == "battery.learn_min_points"@ {
    } else if key == "battery.learn_max_points"@ {
    } else if key == "battery.force_app_standby"@ {
    } else if key == "battery.dnd_while_charging"@ {
    }
}

#[verifier::rlimit(80)]
#[verifier::spinoff_prover]
pub(crate) proof fn lemma_battery_b_overwrite(
    key: Seq<char>,
    v: Seq<char>,
    w: Seq<char>,
    n: nat,
    m: nat,
    c: UtensilConfigView,
    d: UtensilConfigView,
)
    ensures
        battery_b_setting(key, v, n, c) is None ==> battery_b_setting(key, w, m, d) is None,
        battery_b_setting(key, v, n, c) matches Some(Ok(c1)) ==> battery_b_setting(key, w, m, c1) == battery_b_setting(key, w, m, c),
{
    if key == "battery.refresh_rate_low"@ {
    } else if key == "battery.refresh_rate_default"@ {
    } else if key == "battery.screen_timeout_low_ms"@ {
    } else if key == "battery.screen_timeout_default_ms"@ {
    } else if key == "battery.samsung_restricted_performance"@ {
    } else if key == "battery.background_process_limit_low"@ {
    } else if key == "battery.background_process_limit_default"@ {
    }
}

#[verifier::rlimit(40)]
pub(crate) proof fn lemma_thermal_overwrite(
    key: Seq<char>,
    v: Seq<char>,
    w: Seq<char>,
    n: nat,
    m: nat,
    c: UtensilConfigView,
    d: UtensilConfigView,
)
    ensures
        thermal_setting(key, v, n, c) is None ==> thermal_setting(key, w, m, d) is None,
        thermal_setting(key, v, n, c) matches Some(Ok(c1)) ==> thermal_setting(key, w, m, c1) == thermal_setting(key, w, m, c),
{
}

#[verifier::rlimit(40)]
pub(crate) proof fn lemma_feature_a_overwrite(
    key: Seq<char>,
    v: Seq<char>,
    w: Seq<char>,
    n: nat,
    m: nat,
    c: UtensilConfigView,
    d: UtensilConfigView,
)
    ensures
        feature_a_setting(key, v, n, c) is None ==> feature_a_setting(key, w, m, d) is None,
        feature_a_setting(key, v, n, c) matches Some(Ok(c1)) ==> feature_a_setting(key, w, m, c1) == feature_a_setting(key, w, m, c),
{
}

#[verifier::rlimit(40)]
pub(crate) proof fn lemma_feature_b_overwrite(
    key: Seq<char>,
    v: Seq<char>,
    w: Seq<char>,
    n: nat,
    m: nat,
    c: UtensilConfigView,
    d: UtensilConfigView,
)
    ensures
        feature_b_setting(key, v, n, c) is None ==> feature_b_setting(key, w, m, d) is None,
        feature_b_setting(key, v, n, c) matches Some(Ok(c1)) ==> feature_b_setting(key, w, m, c1) == feature_b_setting(key, w, m, c),
{
}

#[verifier::rlimit(40)]
pub(crate) proof fn lemma_path_overwrite(
    key: Seq<char>,
    v: Seq<char>,
    w: Seq<char>,
    n: nat,
    m: nat,
    c: UtensilConfigView,
    d: UtensilConfigView,
)
    ensures
        path_setting(key, v, n, c) is None ==> path_setting(key, w, m, d) is None,
        path_setting(key, v, n, c) matches Some(Ok(c1)) ==> path_setting(key, w, m, c1) == path_setting(key, w, m, c),
{
}

/// A later setting of a key overrides an earlier one: setting `key` to `v`
/// and then to `w` is setting it to `w`.
pub proof fn lemma_later_setting_wins(
    key: Seq<char>,
    v: Seq<char>,
    w: Seq<char>,
    n: nat,
    m: nat,
    c: UtensilConfigView,
)
    requires
        apply_setting(key, v, n, c) is Ok,
    ensures
        apply_setting(key, w, m, apply_setting(key, v, n, c)->Ok_0) == apply_setting(key, w, m, c),
{
    let c1 = apply_setting(key, v, n, c)->Ok_0;
    lemma_battery_a_overwrite(key, v, w, n, m, c, c1);
    lemma_battery_b_overwrite(key, v, w, n, m, c, c1);
    lemma_thermal_overwrite(key, v, w, n, m, c, c1);
    lemma_feature_a_overwrite(key, v, w, n, m, c, c1);
    lemma_feature_b_overwrite(key, v, w, n, m, c, c1);
    lemma_path_overwrite(key, v, w, n, m, c, c1);
}


/// The truth words: `1` reads as true and `0` as false, as do the words for
/// each (`true`, `yes`, `on`; `false`, `no`, `off`) in any ASCII case. Over
/// every text, a one-character value is true only as `1` and false only as
/// `0`, and a value read as true is never one read as false.
pub proof fn lemma_truth_words(s: Seq<char>)
    ensures
        bool_value("1"@) == Some(true),
        bool_value("0"@) == Some(false),
        bool_value("true"@) == Some(true),
        bool_value("TRUE"@) == Some(true),
        bool_value("yes"@) == Some(true),
        bool_value("on"@) == Some(true),
        bool_value("false"@) == Some(false),
        bool_value("no"@) == Some(false),
        bool_value("off"@) == Some(false),
        bool_value("2"@) is None,
        s.len() == 1 && bool_value(s) == Some(true) ==> s[0] as u32 == '1' as u32,
        s.len() == 1 && bool_value(s) == Some(false) ==> s[0] as u32 == '0' as u32,
{
    reveal_strlit("1");
    reveal_strlit("0");
    reveal_strlit("2");
    reveal_strlit("true");
    reveal_strlit("TRUE");
    reveal_strlit("yes");
    reveal_strlit("on");
    reveal_strlit("false");
    reveal_strlit("no");
    reveal_strlit("off");
    assert(crate::text::lower_eq("true"@, "true"@));
    assert(crate::text::lower_eq("TRUE"@, "true"@));
    assert(crate::text::lower_eq("yes"@, "yes"@));
    assert(crate::text::lower_eq("on"@, "on"@));
    assert(!crate::text::lower_eq("false"@, "true"@));
    assert(crate::text::lower_eq("false"@, "false"@));
    assert(crate::text::lower_code("no"@[0]) != "on"@[0] as u32);
    assert(!crate::text::lower_eq("no"@, "on"@));
    assert(crate::text::lower_eq("no"@, "no"@));
    assert(crate::text::lower_code("off"@[0]) != "yes"@[0] as u32);
    assert(!crate::text::lower_eq("off"@, "yes"@));
    assert(crate::text::lower_eq("off"@, "off"@));
    assert(crate::text::lower_eq("1"@, "1"@));
    assert(crate::text::lower_code("0"@[0]) != "1"@[0] as u32);
    assert(!crate::text::lower_eq("0"@, "1"@));
    assert(crate::text::lower_eq("0"@, "0"@));
    assert(crate::text::lower_code("2"@[0]) != "1"@[0] as u32);
    assert(crate::text::lower_code("2"@[0]) != "0"@[0] as u32);
    assert(!crate::text::lower_eq("2"@, "1"@));
    assert(!crate::text::lower_eq("2"@, "0"@));
    if s.len() == 1 {
        assert("true"@.len() == 4 && "yes"@.len() == 3 && "on"@.len() == 2);
        assert("false"@.len() == 5 && "no"@.len() == 2 && "off"@.len() == 3);
        assert("1"@[0] == '1' && "0"@[0] == '0');
        if bool_value(s) == Some(true) {
            assert(crate::text::lower_eq(s, "1"@));
            assert(crate::text::lower_code(s[0]) == 49);
        }
        if bool_value(s) == Some(false) {
            assert(crate::text::lower_eq(s, "0"@));
            assert(crate::text::lower_code(s[0]) == 48);
        }
    }
}

} // verus!
