//! The daemon's decisions. Each cycle the driver probes the device, asks the
//! runtime what to do, and carries out the commands it hands back; the runtime
//! keeps what it needs to remember between cycles so that no setting is
//! written twice.
use vstd::prelude::*;
use crate::config::{UtensilConfig, UtensilConfigView};
use crate::text::{decimal, push_decimal};

verus! {

/// What a cycle learns about the device.
#[derive(Clone, Copy, Debug, Eq, PartialEq)]
pub struct DeviceState {
    pub display_on: bool,
    pub charging: bool,
    pub level: u8,
    pub android_major: u32,
}

/// A command line to run: the program, its arguments, and whether a failure
/// ends the cycle (`must_succeed`) or is only logged.
#[derive(Clone, Debug, PartialEq, Eq)]
pub struct Command {
    pub program: String,
    pub args: Vec<String>,
    pub must_succeed: bool,
}

pub struct CommandView {
    pub program: Seq<char>,
    pub args: Seq<Seq<char>>,
    pub must_succeed: bool,
}

pub open spec fn texts(ls: Seq<String>) -> Seq<Seq<char>> {
    ls.map_values(|l: String| l@)
}

impl View for Command {
    type V = CommandView;

    open spec fn view(&self) -> CommandView {
        CommandView { program: self.program@, args: texts(self.args@), must_succeed: self.must_succeed }
    }
}

pub open spec fn commands_view(cs: Seq<Command>) -> Seq<CommandView> {
    cs.map_values(|c: Command| c@)
}

/// A command whose failure ends the cycle.
pub open spec fn run(program: Seq<char>, args: Seq<Seq<char>>) -> CommandView {
    CommandView { program: program, args: args, must_succeed: true }
}

/// A command whose failure is only logged.
pub open spec fn run_ignoring(program: Seq<char>, args: Seq<Seq<char>>) -> CommandView {
    CommandView { program: program, args: args, must_succeed: false }
}

pub fn owned(s: &str) -> (r: String)
    ensures
        r@ == s@,
{
    String::from_str(s)
}

fn command(program: &str, args: Vec<String>, must_succeed: bool) -> (c: Command)
    ensures
        c@ == (CommandView { program: program@, args: texts(args@), must_succeed: must_succeed }),
{
    Command { program: owned(program), args: args, must_succeed: must_succeed }
}

/// What the runtime remembers of the settings it last wrote.
#[derive(Clone, Copy, Debug, Default)]
pub struct PreviousState {
    pub charging: Option<bool>,
    pub display_on: Option<bool>,
    pub level: Option<u8>,
    pub battery_low: Option<bool>,
    pub thermal: Option<u8>,
    pub sensors_off: Option<bool>,
    pub airplane_on: Option<bool>,
    pub forced_idle: Option<u8>,
    pub deep_idle_once: bool,
}

/// Drain tracking; times are nanoseconds on the driver's monotonic clock.
#[derive(Clone, Copy, Debug, Default)]
pub struct DrainState {
    pub reference_level: Option<u8>,
    pub reference_time: Option<u64>,
    pub last_tick: Option<u64>,
    pub last_display_on: bool,
    pub screen_on: u64,
    pub screen_off: u64,
    pub drain_24h_start_level: u8,
    pub drain_24h_start_time: Option<u64>,
    pub drain_24h: u8,
}

/// Screen-off cycles counted towards memory compaction.
#[derive(Clone, Copy, Debug, Default)]
pub struct CompactionState {
    pub screen_off_ticks: u32,
    pub compacted: bool,
}

/// Watchdog memory: when the screen went off, whether pending jobs were
/// cancelled, and when each background package was first seen running.
/// The first-seen times are a list of (package, time) pairs rather than a
/// map keyed by package name, for Verus proves nothing of std's maps keyed
/// by strings; `watchdog_sweep` keeps at most one pair per package
/// (`names_once`) where the running packages are listed once each.
#[derive(Clone, Debug, Default)]
pub struct WatchdogState {
    pub screen_off_since: Option<u64>,
    pub job_done: bool,
    pub first_seen: Vec<(String, u64)>,
}

pub struct WatchdogView {
    pub screen_off_since: Option<u64>,
    pub job_done: bool,
    pub first_seen: Seq<(Seq<char>, u64)>,
}

pub open spec fn seen_view(s: Seq<(String, u64)>) -> Seq<(Seq<char>, u64)> {
    s.map_values(|e: (String, u64)| (e.0@, e.1))
}

impl View for WatchdogState {
    type V = WatchdogView;

    open spec fn view(&self) -> WatchdogView {
        WatchdogView {
            screen_off_since: self.screen_off_since,
            job_done: self.job_done,
            first_seen: seen_view(self.first_seen@),
        }
    }
}

/// Everything the runtime remembers between cycles.
pub struct RuntimeView {
    pub config: UtensilConfigView,
    pub previous: PreviousState,
    pub drain: DrainState,
    pub compaction: CompactionState,
    pub watchdog: WatchdogView,
    pub backoff: u32,
    pub backoff_on: u32,
    pub pkg_cache: Seq<Seq<char>>,
    pub pkg_cache_mtime: Option<i128>,
}

pub struct Runtime<R> {
    config: UtensilConfig,
    runner: R,
    previous: PreviousState,
    drain: DrainState,
    compaction: CompactionState,
    watchdog: WatchdogState,
    /// Doubling counter for screen-off cycles, capped at 320.
    backoff: u32,
    /// Linear counter for screen-on or charging cycles, capped at 6.
    backoff_on: u32,
    /// Enabled third-party packages, cached.
    pkg_cache: Vec<String>,
    /// The modification time of the package registry when the cache was
    /// filled, in nanoseconds from the Unix epoch.
    pkg_cache_mtime: Option<i128>,
}

/// The longest screen-off wait, in seconds.
pub const MAX_BACKOFF_SEC: u32 = 320;

/// The most steps of the screen-on wait.
pub const MAX_BACKOFF_ON_CAP: u32 = 6;

impl<R> View for Runtime<R> {
    type V = RuntimeView;

    closed spec fn view(&self) -> RuntimeView {
        RuntimeView {
            config: self.config@,
            previous: self.previous,
            drain: self.drain,
            compaction: self.compaction,
            watchdog: self.watchdog@,
            backoff: self.backoff,
            backoff_on: self.backoff_on,
            pkg_cache: texts(self.pkg_cache@),
            pkg_cache_mtime: self.pkg_cache_mtime,
        }
    }
}

pub open spec fn initial_previous() -> PreviousState {
    PreviousState {
        charging: None,
        display_on: None,
        level: None,
        battery_low: None,
        thermal: None,
        sensors_off: None,
        airplane_on: None,
        forced_idle: None,
        deep_idle_once: false,
    }
}

pub open spec fn initial_drain() -> DrainState {
    DrainState {
        reference_level: None,
        reference_time: None,
        last_tick: None,
        last_display_on: false,
        screen_on: 0,
        screen_off: 0,
        drain_24h_start_level: 0,
        drain_24h_start_time: None,
        drain_24h: 0,
    }
}

pub open spec fn initial_compaction() -> CompactionState {
    CompactionState { screen_off_ticks: 0, compacted: false }
}

pub open spec fn initial_watchdog() -> WatchdogView {
    WatchdogView { screen_off_since: None, job_done: false, first_seen: Seq::empty() }
}

fn fresh_previous() -> (p: PreviousState)
    ensures
        p == initial_previous(),
{
    PreviousState {
        charging: None,
        display_on: None,
        level: None,
        battery_low: None,
        thermal: None,
        sensors_off: None,
        airplane_on: None,
        forced_idle: None,
        deep_idle_once: false,
    }
}

fn fresh_drain() -> (d: DrainState)
    ensures
        d == initial_drain(),
{
    DrainState {
        reference_level: None,
        reference_time: None,
        last_tick: None,
        last_display_on: false,
        screen_on: 0,
        screen_off: 0,
        drain_24h_start_level: 0,
        drain_24h_start_time: None,
        drain_24h: 0,
    }
}

fn fresh_watchdog() -> (w: WatchdogState)
    ensures
        w@ == initial_watchdog(),
{
    let w = WatchdogState { screen_off_since: None, job_done: false, first_seen: Vec::new() };
    assert(w@.first_seen =~= Seq::<(Seq<char>, u64)>::empty());
    w
}

/// The wait before the next cycle, in seconds, and the new counters. While the
/// display is on or the device charges the wait grows linearly, 5 s a step,
/// to at most 110 s, and the screen-off counter starts again; while it is off
/// the wait doubles from 60 s up to 320 s.
pub open spec fn next_wait(active: bool, backoff: u32, backoff_on: u32) -> (u64, u32, u32) {
    if active {
        let on = if backoff_on + 1 < 6 {
            (backoff_on + 1) as u32
        } else {
            6u32
        };
        ((80 + on * 5) as u64, 1u32, on)
    } else {
        let d = if 60 * backoff < 320 {
            60 * backoff
        } else {
            320
        };
        let b = if backoff * 2 < 320 {
            backoff * 2
        } else {
            320
        };
        (d as u64, b as u32, 0u32)
    }
}

/// A command's view, where there is one.
pub open spec fn opt_command(c: Option<Command>) -> Option<CommandView> {
    match c {
        Some(c) => Some(c@),
        None => None,
    }
}

/// The charge-state step: how the charge state moved, and the runtime
/// that records it.
pub open spec fn charging_transition(r: RuntimeView, state: DeviceState) -> (ChargingChange, RuntimeView) {
    (
        charging_change(r.previous.charging, state.charging),
        RuntimeView { previous: PreviousState { charging: Some(state.charging), ..r.previous }, ..r },
    )
}

/// The low-battery step: the side it switches to, if it switches.
pub open spec fn battery_transition(r: RuntimeView, state: DeviceState, threshold: u8) -> (
    Option<bool>,
    RuntimeView,
) {
    let low = state.level <= threshold;
    if !r.config.battery.enabled || r.previous.battery_low == Some(low) {
        (None, r)
    } else {
        (Some(low), RuntimeView { previous: PreviousState { battery_low: Some(low), ..r.previous }, ..r })
    }
}

/// The thermal step: the status override to send, if the status changed.
pub open spec fn thermal_transition(r: RuntimeView, state: DeviceState, threshold: u8) -> (
    Option<CommandView>,
    RuntimeView,
) {
    let next = thermal_status(r.config, state, threshold);
    if !r.config.thermal.enabled || r.previous.thermal == Some(next) {
        (None, r)
    } else {
        (
            Some(thermal_command(next)),
            RuntimeView { previous: PreviousState { thermal: Some(next), ..r.previous }, ..r },
        )
    }
}

/// The sensor step: the restriction to send, if it changed.
pub open spec fn sensors_transition(r: RuntimeView, state: DeviceState, threshold: u8) -> (
    Option<CommandView>,
    RuntimeView,
) {
    let off = state.level <= threshold;
    if !r.config.sensors.enabled || r.previous.sensors_off == Some(off) {
        (None, r)
    } else {
        (
            Some(sensors_command(off)),
            RuntimeView { previous: PreviousState { sensors_off: Some(off), ..r.previous }, ..r },
        )
    }
}

/// The airplane step: airplane mode goes on while charging at low battery
/// with the screen off, and off when the screen comes on or the level
/// passes the maximum threshold.
pub open spec fn airplane_transition(r: RuntimeView, state: DeviceState, threshold: u8) -> (
    AirplaneStep,
    RuntimeView,
) {
    let p = r.previous;
    let enable = !state.display_on && state.charging && state.level <= threshold;
    let disable = state.display_on || state.level > r.config.battery.max_threshold;
    if !r.config.airplane.enabled {
        (AirplaneStep::Keep, r)
    } else if enable && p.airplane_on != Some(true) {
        (AirplaneStep::Enable, RuntimeView { previous: PreviousState { airplane_on: Some(true), ..p }, ..r })
    } else if disable && p.airplane_on != Some(false) {
        (AirplaneStep::Disable, RuntimeView { previous: PreviousState { airplane_on: Some(false), ..p }, ..r })
    } else {
        (AirplaneStep::Keep, r)
    }
}

/// The compaction step: whether to compact now.
pub open spec fn compaction_transition(r: RuntimeView, state: DeviceState) -> (bool, RuntimeView) {
    let k = r.compaction;
    let ticks = if k.screen_off_ticks < u32::MAX {
        (k.screen_off_ticks + 1) as u32
    } else {
        k.screen_off_ticks
    };
    let due = ticks >= r.config.compaction.hardlock_ticks;
    if !r.config.compaction.enabled || state.android_major < 12 {
        (false, r)
    } else if state.display_on {
        (false, RuntimeView { compaction: initial_compaction(), ..r })
    } else if k.compacted {
        (false, r)
    } else {
        (due, RuntimeView { compaction: CompactionState { screen_off_ticks: ticks, compacted: due }, ..r })
    }
}

impl<R> Runtime<R> {
    /// A runtime that remembers nothing yet.
    pub fn new(config: UtensilConfig, runner: R) -> (rt: Self)
        ensures
            rt@.config == config@,
            rt@.previous == initial_previous(),
            rt@.drain == initial_drain(),
            rt@.compaction == initial_compaction(),
            rt@.watchdog == initial_watchdog(),
            rt@.backoff == 1,
            rt@.backoff_on == 1,
            rt@.pkg_cache == Seq::<Seq<char>>::empty(),
            rt@.pkg_cache_mtime is None,
    {
        let rt = Runtime {
            config: config,
            runner: runner,
            previous: fresh_previous(),
            drain: fresh_drain(),
            compaction: CompactionState { screen_off_ticks: 0, compacted: false },
            watchdog: fresh_watchdog(),
            backoff: 1,
            backoff_on: 1,
            pkg_cache: Vec::new(),
            pkg_cache_mtime: None,
        };
        assert(rt@.pkg_cache =~= Seq::<Seq<char>>::empty());
        rt
    }

    pub fn config(&self) -> (c: &UtensilConfig)
        ensures
            c@ == self@.config,
    {
        &self.config
    }

    /// The runner that the runtime holds.
    pub closed spec fn held_runner(&self) -> R {
        self.runner
    }

    /// The runner, to run commands with; the runtime's state stays as it is,
    /// and what is done through the reference is done to the held runner.
    pub fn runner(&mut self) -> (r: &mut R)
        ensures
            *r == old(self).held_runner(),
            final(self).held_runner() == *final(r),
            final(self)@ == old(self)@,
    {
        &mut self.runner
    }

    /// The wait before the next cycle, in seconds, as `next_wait` states it.
    pub fn next_wait_secs(&mut self, state: DeviceState) -> (secs: u64)
        ensures
            ({
                let w = next_wait(
                    state.display_on || state.charging,
                    old(self)@.backoff,
                    old(self)@.backoff_on,
                );
                &&& secs == w.0
                &&& final(self)@.backoff == w.1
                &&& final(self)@.backoff_on == w.2
                &&& final(self)@ == (RuntimeView {
                    backoff: w.1,
                    backoff_on: w.2,
                    ..old(self)@
                })
            }),
    {
        if state.display_on || state.charging {
            self.backoff = 1;
            let on = if self.backoff_on < MAX_BACKOFF_ON_CAP - 1 {
                self.backoff_on + 1
            } else {
                MAX_BACKOFF_ON_CAP
            };
            self.backoff_on = on;
            (80 + on * 5) as u64
        } else {
            self.backoff_on = 0;
            let d = if self.backoff < 6 {
                60 * self.backoff
            } else {
                MAX_BACKOFF_SEC
            };
            self.backoff = if self.backoff < MAX_BACKOFF_SEC / 2 {
                self.backoff * 2
            } else {
                MAX_BACKOFF_SEC
            };
            d as u64
        }
    }
}

pub open spec fn pairs_view(s: Seq<(String, String)>) -> Seq<(Seq<char>, Seq<char>)> {
    s.map_values(|e: (String, String)| (e.0@, e.1@))
}

/// The system properties that publish `state`, and what the runtime then
/// remembers: the screen state and the level only when they changed, the
/// charge state whenever it differs from the one last acted on (which the
/// charging step records).
pub open spec fn published(prev: PreviousState, state: DeviceState) -> (
    Seq<(Seq<char>, Seq<char>)>,
    PreviousState,
) {
    let w1: Seq<(Seq<char>, Seq<char>)> = if prev.display_on != Some(state.display_on) {
        seq![
            (
                "debug.dcx.screenstate"@,
                if state.display_on {
                    "true"@
                } else {
                    "false"@
                },
            ),
        ]
    } else {
        Seq::empty()
    };
    let w2: Seq<(Seq<char>, Seq<char>)> = if prev.level != Some(state.level) {
        seq![("debug.dcx.batterylevel"@, decimal(state.level as nat))]
    } else {
        Seq::empty()
    };
    let w3: Seq<(Seq<char>, Seq<char>)> = if prev.charging != Some(state.charging) {
        seq![
            (
                "debug.dcx.chargestate"@,
                if state.charging {
                    "yes"@
                } else {
                    "no"@
                },
            ),
        ]
    } else {
        Seq::empty()
    };
    (
        w1 + w2 + w3,
        PreviousState { display_on: Some(state.display_on), level: Some(state.level), ..prev },
    )
}

/// How the charge state moved since it was last acted on.
#[derive(Clone, Copy, Debug, PartialEq, Eq)]
pub enum ChargingChange {
    Unchanged,
    PluggedIn,
    Unplugged,
}

pub open spec fn charging_change(prev: Option<bool>, charging: bool) -> ChargingChange {
    if prev == Some(charging) {
        ChargingChange::Unchanged
    } else if charging {
        ChargingChange::PluggedIn
    } else {
        ChargingChange::Unplugged
    }
}

/// The thermal status to report: while charging, the charging status (the
/// charging-done status above the maximum threshold); while discharging, the
/// critical status at or below the critical level, the low status at or
/// below the threshold, the normal status otherwise.
pub open spec fn thermal_status(c: UtensilConfigView, state: DeviceState, threshold: u8) -> u8 {
    if state.charging {
        if state.level > c.battery.max_threshold {
            c.thermal.charging_done_status
        } else {
            c.thermal.charging_status
        }
    } else if state.level <= c.thermal.critical_level {
        c.thermal.discharging_critical
    } else if state.level <= threshold {
        c.thermal.discharging_low
    } else {
        c.thermal.discharging_normal
    }
}

pub open spec fn thermal_command(status: u8) -> CommandView {
    run("cmd"@, seq!["thermalservice"@, "override-status"@, decimal(status as nat)])
}

pub open spec fn sensors_command(off: bool) -> CommandView {
    if off {
        run("dumpsys"@, seq!["sensorservice"@, "restrict"@, "com.android.shell"@])
    } else {
        run("dumpsys"@, seq!["sensorservice"@, "enable"@])
    }
}

pub open spec fn dnd_command(on: bool) -> CommandView {
    run(
        "cmd"@,
        seq![
            "notification"@,
            "set_dnd"@,
            if on {
                "alarms"@
            } else {
                "off"@
            },
        ],
    )
}

pub open spec fn flag_text(b: bool) -> Seq<char> {
    if b {
        "1"@
    } else {
        "0"@
    }
}

pub open spec fn put_global(key: Seq<char>, value: Seq<char>) -> CommandView {
    run("cmd"@, seq!["settings"@, "put"@, "global"@, key, value])
}

pub open spec fn put_system(key: Seq<char>, value: Seq<char>) -> CommandView {
    run("cmd"@, seq!["settings"@, "put"@, "system"@, key, value])
}

pub open spec fn opt_cmd(b: bool, c: CommandView) -> Seq<CommandView> {
    if b {
        seq![c]
    } else {
        Seq::empty()
    }
}

/// The commands that switch the low-battery settings on (`low`) or off, given
/// the refresh rate and screen timeout to apply (if any). The process limit,
/// which needs the Android version, is returned apart.
pub open spec fn battery_commands(
    c: UtensilConfigView,
    low: bool,
    refresh_rate: Option<Seq<char>>,
    screen_timeout_ms: Option<u64>,
) -> (Seq<CommandView>, Option<i32>) {
    let v = flag_text(low);
    let base = seq![
        run("cmd"@, seq!["power"@, "set-mode"@, v]),
        put_global("forced_app_standby_for_small_battery_enabled"@, v),
        put_global("low_power_sticky"@, "0"@),
    ];
    let standby = opt_cmd(c.battery.force_app_standby, put_global("forced_app_standby_enabled"@, v));
    let rate = match refresh_rate {
        Some(r) => seq![put_system("peak_refresh_rate"@, r)],
        None => Seq::empty(),
    };
    let timeout = match screen_timeout_ms {
        Some(t) => seq![put_system("screen_off_timeout"@, decimal(t as nat))],
        None => Seq::empty(),
    };
    let samsung = opt_cmd(
        c.battery.samsung_restricted_performance,
        put_global(
            "restricted_device_performance"@,
            if low {
                "1,1"@
            } else {
                "0,0"@
            },
        ),
    );
    (
        base + standby + rate + timeout + samsung,
        if low {
            c.battery.background_process_limit_low
        } else {
            c.battery.background_process_limit_default
        },
    )
}

fn put_global_exec(key: &str, value: String) -> (c: Command)
    ensures
        c@ == put_global(key@, value@),
{
    let c = command("cmd", vec![owned("settings"), owned("put"), owned("global"), owned(key), value], true);
    assert(c@.args =~= seq!["settings"@, "put"@, "global"@, key@, value@]);
    c
}

fn put_system_exec(key: &str, value: String) -> (c: Command)
    ensures
        c@ == put_system(key@, value@),
{
    let c = command("cmd", vec![owned("settings"), owned("put"), owned("system"), owned(key), value], true);
    assert(c@.args =~= seq!["settings"@, "put"@, "system"@, key@, value@]);
    c
}

fn flag_string(b: bool) -> (s: String)
    ensures
        s@ == flag_text(b),
{
    if b {
        owned("1")
    } else {
        owned("0")
    }
}

fn decimal_text(n: u64) -> (s: String)
    ensures
        s@ == decimal(n as nat),
{
    let mut s = String::new();
    push_decimal(&mut s, n);
    assert(s@ =~= decimal(n as nat));
    s
}

impl<R> Runtime<R> {
    /// The properties to set for `state`, as `published` states them.
    pub fn publish_state(&mut self, state: DeviceState) -> (writes: Vec<(String, String)>)
        ensures
            pairs_view(writes@) == published(old(self)@.previous, state).0,
            final(self)@ == (RuntimeView {
                previous: published(old(self)@.previous, state).1,
                ..old(self)@
            }),
    {
        let ghost w = published(self@.previous, state);
        let mut writes: Vec<(String, String)> = Vec::new();
        if self.previous.display_on != Some(state.display_on) {
            writes.push(
                (
                    owned("debug.dcx.screenstate"),
                    if state.display_on {
                        owned("true")
                    } else {
                        owned("false")
                    },
                ),
            );
            self.previous.display_on = Some(state.display_on);
        }
        if self.previous.level != Some(state.level) {
            writes.push((owned("debug.dcx.batterylevel"), decimal_text(state.level as u64)));
            self.previous.level = Some(state.level);
        }
        if self.previous.charging != Some(state.charging) {
            writes.push(
                (
                    owned("debug.dcx.chargestate"),
                    if state.charging {
                        owned("yes")
                    } else {
                        owned("no")
                    },
                ),
            );
        }
        assert(pairs_view(writes@) =~= w.0);
        writes
    }

    /// Records the charge state and says how it moved.
    pub fn charging_step(&mut self, state: DeviceState) -> (change: ChargingChange)
        ensures
            (change, final(self)@) == charging_transition(old(self)@, state),
            change == charging_change(old(self)@.previous.charging, state.charging),
            final(self)@ == (RuntimeView {
                previous: PreviousState {
                    charging: Some(state.charging),
                    ..old(self)@.previous
                },
                ..old(self)@
            }),
    {
        let change = if self.previous.charging == Some(state.charging) {
            ChargingChange::Unchanged
        } else if state.charging {
            ChargingChange::PluggedIn
        } else {
            ChargingChange::Unplugged
        };
        self.previous.charging = Some(state.charging);
        change
    }

    /// The Do Not Disturb command for a change of charge state, where the
    /// configuration asks for it.
    pub fn dnd_for(&self, plugged_in: bool) -> (c: Option<Command>)
        ensures
            match c {
                Some(c) => self@.config.battery.dnd_while_charging && c@ == dnd_command(plugged_in),
                None => !self@.config.battery.dnd_while_charging,
            },
    {
        if self.config.battery.dnd_while_charging {
            let c = command(
                "cmd",
                vec![owned("notification"), owned("set_dnd"), if plugged_in {
                    owned("alarms")
                } else {
                    owned("off")
                }],
                true,
            );
            assert(c@.args =~= dnd_command(plugged_in).args);
            Some(c)
        } else {
            None
        }
    }

    /// Whether the low-battery settings must be written: `Some(low)` when the
    /// battery policy is on and the level crossed the threshold (`low`: the
    /// level is at or below it) since they were last written.
    pub fn battery_step(&mut self, state: DeviceState, threshold: u8) -> (r: Option<bool>)
        ensures
            (r, final(self)@) == battery_transition(old(self)@, state, threshold),
            ({
                let low = state.level <= threshold;
                if !old(self)@.config.battery.enabled || old(self)@.previous.battery_low == Some(
                    low,
                ) {
                    r is None && final(self)@ == old(self)@
                } else {
                    r == Some(low) && final(self)@ == (RuntimeView {
                        previous: PreviousState { battery_low: Some(low), ..old(self)@.previous },
                        ..old(self)@
                    })
                }
            }),
    {
        if !self.config.battery.enabled {
            return None;
        }
        let low = state.level <= threshold;
        if self.previous.battery_low == Some(low) {
            return None;
        }
        self.previous.battery_low = Some(low);
        Some(low)
    }

    /// The commands of the low-battery settings, as `battery_commands` states them.
    pub fn battery_commands(
        &self,
        low: bool,
        refresh_rate: Option<String>,
        screen_timeout_ms: Option<u64>,
    ) -> (r: (Vec<Command>, Option<i32>))
        ensures
            commands_view(r.0@) == battery_commands(
                self@.config,
                low,
                crate::config::opt_text(refresh_rate),
                screen_timeout_ms,
            ).0,
            r.1 == battery_commands(
                self@.config,
                low,
                crate::config::opt_text(refresh_rate),
                screen_timeout_ms,
            ).1,
    {
        let ghost spec = battery_commands(
            self@.config,
            low,
            crate::config::opt_text(refresh_rate),
            screen_timeout_ms,
        );
        let mut cs: Vec<Command> = Vec::new();
        let c0 = command("cmd", vec![owned("power"), owned("set-mode"), flag_string(low)], true);
        assert(c0@.args =~= seq!["power"@, "set-mode"@, flag_text(low)]);
        cs.push(c0);
        cs.push(put_global_exec("forced_app_standby_for_small_battery_enabled", flag_string(low)));
        cs.push(put_global_exec("low_power_sticky", owned("0")));
        if self.config.battery.force_app_standby {
            cs.push(put_global_exec("forced_app_standby_enabled", flag_string(low)));
        }
        match refresh_rate {
            Some(r) => {
                cs.push(put_system_exec("peak_refresh_rate", r));
            },
            None => {},
        }
        match screen_timeout_ms {
            Some(t) => {
                cs.push(put_system_exec("screen_off_timeout", decimal_text(t)));
            },
            None => {},
        }
        if self.config.battery.samsung_restricted_performance {
            cs.push(
                put_global_exec(
                    "restricted_device_performance",
                    if low {
                        owned("1,1")
                    } else {
                        owned("0,0")
                    },
                ),
            );
        }
        assert(commands_view(cs@) =~= spec.0);
        let limit = if low {
            self.config.battery.background_process_limit_low
        } else {
            self.config.battery.background_process_limit_default
        };
        (cs, limit)
    }

    /// The thermal status command, where the status differs from the one last
    /// written and thermal control is on.
    pub fn thermal_step(&mut self, state: DeviceState, threshold: u8) -> (c: Option<Command>)
        ensures
            (opt_command(c), final(self)@) == thermal_transition(old(self)@, state, threshold),
            ({
                let next = thermal_status(old(self)@.config, state, threshold);
                if !old(self)@.config.thermal.enabled || old(self)@.previous.thermal == Some(next) {
                    c is None && final(self)@ == old(self)@
                } else {
                    &&& c matches Some(c) && c@ == thermal_command(next)
                    &&& final(self)@ == (RuntimeView {
                        previous: PreviousState { thermal: Some(next), ..old(self)@.previous },
                        ..old(self)@
                    })
                }
            }),
    {
        if !self.config.thermal.enabled {
            return None;
        }
        let next = if state.charging {
            if state.level > self.config.battery.max_threshold {
                self.config.thermal.charging_done_status
            } else {
                self.config.thermal.charging_status
            }
        } else if state.level <= self.config.thermal.critical_level {
            self.config.thermal.discharging_critical
        } else if state.level <= threshold {
            self.config.thermal.discharging_low
        } else {
            self.config.thermal.discharging_normal
        };
        if self.previous.thermal == Some(next) {
            return None;
        }
        self.previous.thermal = Some(next);
        let c = command(
            "cmd",
            vec![owned("thermalservice"), owned("override-status"), decimal_text(next as u64)],
            true,
        );
        assert(c@.args =~= thermal_command(next).args);
        Some(c)
    }

    /// The sensor-service command, where sensor control is on and the level
    /// crossed the threshold since it was last written.
    pub fn sensors_step(&mut self, state: DeviceState, threshold: u8) -> (c: Option<Command>)
        ensures
            (opt_command(c), final(self)@) == sensors_transition(old(self)@, state, threshold),
            ({
                let off = state.level <= threshold;
                if !old(self)@.config.sensors.enabled || old(self)@.previous.sensors_off == Some(
                    off,
                ) {
                    c is None && final(self)@ == old(self)@
                } else {
                    &&& c matches Some(c) && c@ == sensors_command(off)
                    &&& final(self)@ == (RuntimeView {
                        previous: PreviousState { sensors_off: Some(off), ..old(self)@.previous },
                        ..old(self)@
                    })
                }
            }),
    {
        if !self.config.sensors.enabled {
            return None;
        }
        let off = state.level <= threshold;
        if self.previous.sensors_off == Some(off) {
            return None;
        }
        self.previous.sensors_off = Some(off);
        let c = if off {
            command(
                "dumpsys",
                vec![owned("sensorservice"), owned("restrict"), owned("com.android.shell")],
                true,
            )
        } else {
            command("dumpsys", vec![owned("sensorservice"), owned("enable")], true)
        };
        assert(c@.args =~= sensors_command(off).args);
        Some(c)
    }
}

/// The second half of a fast-idle cycle, given the light idle state
/// `light`: the commands sent and the runtime after.
pub open spec fn light_transition(r: RuntimeView, light: Seq<char>) -> (Seq<CommandView>, RuntimeView) {
    let p = r.previous;
    if light != "INACTIVE"@ {
        if p.forced_idle != Some(1u8) {
            (
                seq![batterystats_command("1"@, false)],
                RuntimeView { previous: PreviousState { forced_idle: Some(1u8), ..p }, ..r },
            )
        } else {
            (Seq::empty(), r)
        }
    } else {
        (
            seq![batterystats_command("2"@, true)],
            RuntimeView { previous: PreviousState { forced_idle: Some(2u8), deep_idle_once: true, ..p }, ..r },
        )
    }
}

/// One whole fast-idle cycle for `state`, where the light idle state reads
/// `light` (it is asked only where needed): the commands sent and the
/// runtime after.
pub open spec fn fast_idle_cycle(r: RuntimeView, state: DeviceState, light: Seq<char>) -> (
    Seq<CommandView>,
    RuntimeView,
) {
    let p = r.previous;
    if !r.config.doze.enabled || state.android_major <= 11 {
        (Seq::empty(), r)
    } else if state.display_on || state.charging {
        (
            if p.forced_idle is Some {
                seq![batterystats_command("0"@, false)]
            } else {
                Seq::<CommandView>::empty()
            },
            RuntimeView { previous: PreviousState { forced_idle: None, deep_idle_once: false, ..p }, ..r },
        )
    } else if p.deep_idle_once {
        (Seq::empty(), r)
    } else {
        light_transition(r, light)
    }
}

/// The commands of an optional command.
pub open spec fn opt_commands(c: Option<Command>) -> Seq<CommandView> {
    match c {
        Some(c) => seq![c@],
        None => Seq::empty(),
    }
}

/// What the fast-idle step needs next.
#[derive(Debug)]
pub enum IdleStep {
    /// Nothing to do this cycle.
    Nothing,
    /// Run these commands.
    Run(Vec<Command>),
    /// Query the light idle state and hand it to `fast_idle_light`.
    AskLightState,
}

pub open spec fn batterystats_command(mode: Seq<char>, must_succeed: bool) -> CommandView {
    CommandView {
        program: "service"@,
        args: seq!["call"@, "batterystats"@, "75"@, "i32"@, mode],
        must_succeed: must_succeed,
    }
}

fn batterystats_exec(mode: &str, must_succeed: bool) -> (c: Command)
    ensures
        c@ == batterystats_command(mode@, must_succeed),
{
    let c = command(
        "service",
        vec![owned("call"), owned("batterystats"), owned("75"), owned("i32"), owned(mode)],
        must_succeed,
    );
    assert(c@.args =~= batterystats_command(mode@, must_succeed).args);
    c
}

/// How the airplane-mode step moves.
#[derive(Clone, Copy, Debug, PartialEq, Eq)]
pub enum AirplaneStep {
    Keep,
    Enable,
    Disable,
}

pub open spec fn airplane_command(enable: bool) -> CommandView {
    run(
        "cmd"@,
        seq![
            "connectivity"@,
            "airplane-mode"@,
            if enable {
                "enable"@
            } else {
                "disable"@
            },
        ],
    )
}

/// The command whose output tells whether Wi-Fi is on.
pub open spec fn wifi_query() -> CommandView {
    run("cmd"@, seq!["settings"@, "get"@, "global"@, "wifi_on"@])
}

pub open spec fn wifi_enable_command() -> CommandView {
    run("svc"@, seq!["wifi"@, "enable"@])
}

/// The compaction commands for the running `packages`: light and full
/// compaction of each (only full from Android 14 on), then of the system.
pub open spec fn compaction_commands(packages: Seq<Seq<char>>, android_major: u32) -> Seq<
    CommandView,
> {
    package_compactions(packages, android_major) + seq![
        run_ignoring("cmd"@, seq!["activity"@, "compact"@, "system"@]),
    ]
}

pub open spec fn package_compactions(packages: Seq<Seq<char>>, android_major: u32) -> Seq<
    CommandView,
>
    decreases packages.len(),
{
    if packages.len() == 0 {
        Seq::empty()
    } else {
        let p = packages[packages.len() - 1];
        let full = seq![run_ignoring("cmd"@, seq!["activity"@, "compact"@, "full"@, p])];
        package_compactions(packages.subrange(0, packages.len() - 1), android_major) + if android_major
            < 14 {
            seq![run_ignoring("cmd"@, seq!["activity"@, "compact"@, "some"@, p])] + full
        } else {
            full
        }
    }
}

pub fn compaction_commands_for(packages: &Vec<String>, android_major: u32) -> (cs: Vec<Command>)
    ensures
        commands_view(cs@) == compaction_commands(texts(packages@), android_major),
{
    let mut cs: Vec<Command> = Vec::new();
    let mut i: usize = 0;
    while i < packages.len()
        invariant
            0 <= i <= packages.len(),
            commands_view(cs@) == package_compactions(
                texts(packages@).subrange(0, i as int),
                android_major,
            ),
        decreases packages.len() - i,
    {
        let ghost before = cs@;
        let p = &packages[i];
        if android_major < 14 {
            let c = command(
                "cmd",
                vec![owned("activity"), owned("compact"), owned("some"), p.clone()],
                false,
            );
            assert(c@.args =~= seq!["activity"@, "compact"@, "some"@, p@]);
            cs.push(c);
        }
        let c = command("cmd", vec![owned("activity"), owned("compact"), owned("full"), p.clone()], false);
        assert(c@.args =~= seq!["activity"@, "compact"@, "full"@, p@]);
        cs.push(c);
        proof {
            let t = texts(packages@).subrange(0, i + 1);
            assert(t.subrange(0, i as int) =~= texts(packages@).subrange(0, i as int));
            assert(t[i as int] == p@);
            assert(commands_view(cs@) =~= package_compactions(t, android_major));
        }
        i = i + 1;
    }
    let c = command("cmd", vec![owned("activity"), owned("compact"), owned("system")], false);
    assert(c@.args =~= seq!["activity"@, "compact"@, "system"@]);
    cs.push(c);
    assert(texts(packages@).subrange(0, packages.len() as int) =~= texts(packages@));
    assert(commands_view(cs@) =~= compaction_commands(texts(packages@), android_major));
    cs
}

/// The first time recorded for `name`, if any.
pub open spec fn seen_at(seen: Seq<(Seq<char>, u64)>, name: Seq<char>) -> Option<u64>
    decreases seen.len(),
{
    if seen.len() == 0 {
        None
    } else if seen[0].0 == name {
        Some(seen[0].1)
    } else {
        seen_at(seen.subrange(1, seen.len() as int), name)
    }
}

/// `now - then` in nanoseconds, or 0 where `then` is later.
pub open spec fn since(now: u64, then: u64) -> u64 {
    if now >= then {
        (now - then) as u64
    } else {
        0
    }
}

/// Whether `nanos` nanoseconds reach `secs` seconds.
pub open spec fn reaches(nanos: u64, secs: u64) -> bool {
    nanos >= secs * 1_000_000_000
}

/// The watchdog's sweep over the running background `packages`: a package
/// that is not protected and has run for the timeout is stopped; the others
/// that are not protected keep the time they were first seen (now, for a new
/// one).
pub open spec fn sweep(
    packages: Seq<Seq<char>>,
    protected: Seq<Seq<char>>,
    seen: Seq<(Seq<char>, u64)>,
    now: u64,
    timeout_secs: u64,
) -> (Seq<Seq<char>>, Seq<(Seq<char>, u64)>)
    decreases packages.len(),
{
    if packages.len() == 0 {
        (Seq::empty(), Seq::empty())
    } else {
        let rest = sweep(
            packages.subrange(0, packages.len() - 1),
            protected,
            seen,
            now,
            timeout_secs,
        );
        let p = packages[packages.len() - 1];
        if protected.contains(p) {
            rest
        } else {
            let first = match seen_at(seen, p) {
                Some(t) => t,
                None => now,
            };
            if reaches(since(now, first), timeout_secs) {
                (rest.0.push(p), rest.1)
            } else {
                (rest.0, rest.1.push((p, first)))
            }
        }
    }
}

/// Where the watchdog stands this cycle.
#[derive(Clone, Copy, Debug, PartialEq, Eq)]
pub enum WatchdogStep {
    /// Off, or the display is on: nothing to watch.
    Idle,
    /// Watching; `cancel_jobs` says that pending jobs are due for cancelling.
    Active { cancel_jobs: bool },
}

/// The job cancel commands for the enabled `packages` that are not protected.
pub open spec fn job_cancels(packages: Seq<Seq<char>>, protected: Seq<Seq<char>>) -> Seq<
    CommandView,
>
    decreases packages.len(),
{
    if packages.len() == 0 {
        Seq::empty()
    } else {
        let p = packages[packages.len() - 1];
        job_cancels(packages.subrange(0, packages.len() - 1), protected) + if protected.contains(
            p,
        ) {
            Seq::empty()
        } else {
            seq![run("cmd"@, seq!["jobscheduler"@, "cancel"@, p])]
        }
    }
}

/// Whether `name` is one of `list`.
pub fn contains_text(list: &Vec<String>, name: &String) -> (b: bool)
    ensures
        b == texts(list@).contains(name@),
{
    let mut i: usize = 0;
    while i < list.len()
        invariant
            0 <= i <= list.len(),
            forall|j: int| 0 <= j < i ==> list@[j]@ != name@,
        decreases list.len() - i,
    {
        if crate::text::strings_equal(&list[i], name) {
            assert(texts(list@)[i as int] == name@);
            return true;
        }
        i = i + 1;
    }
    proof {
        if texts(list@).contains(name@) {
            let k = choose|k: int| 0 <= k < texts(list@).len() && texts(list@)[k] == name@;
            assert(list@[k]@ == name@);
        }
    }
    false
}

/// The job cancel commands, as `job_cancels` states them.
pub fn job_cancel_commands(packages: &Vec<String>, protected: &Vec<String>) -> (cs: Vec<Command>)
    ensures
        commands_view(cs@) == job_cancels(texts(packages@), texts(protected@)),
{
    let mut cs: Vec<Command> = Vec::new();
    let mut i: usize = 0;
    while i < packages.len()
        invariant
            0 <= i <= packages.len(),
            commands_view(cs@) == job_cancels(
                texts(packages@).subrange(0, i as int),
                texts(protected@),
            ),
        decreases packages.len() - i,
    {
        let p = &packages[i];
        if !contains_text(protected, p) {
            let c = command("cmd", vec![owned("jobscheduler"), owned("cancel"), p.clone()], true);
            assert(c@.args =~= seq!["jobscheduler"@, "cancel"@, p@]);
            cs.push(c);
        }
        proof {
            let t = texts(packages@).subrange(0, i + 1);
            assert(t.subrange(0, i as int) =~= texts(packages@).subrange(0, i as int));
            assert(t[i as int] == p@);
            assert(commands_view(cs@) =~= job_cancels(t, texts(protected@)));
        }
        i = i + 1;
    }
    assert(texts(packages@).subrange(0, packages.len() as int) =~= texts(packages@));
    cs
}

pub open spec fn force_stop_command(package: Seq<char>) -> CommandView {
    run("cmd"@, seq!["activity"@, "force-stop"@, package])
}

pub fn force_stop(package: &String) -> (c: Command)
    ensures
        c@ == force_stop_command(package@),
{
    let c = command("cmd", vec![owned("activity"), owned("force-stop"), package.clone()], true);
    assert(c@.args =~= seq!["activity"@, "force-stop"@, package@]);
    c
}

/// The log line for a stopped package.
pub open spec fn force_stop_message(package: Seq<char>) -> Seq<char> {
    "force stopped "@ + package
}

pub fn force_stop_log(package: &String) -> (m: String)
    ensures
        m@ == force_stop_message(package@),
{
    let mut m = owned("force stopped ");
    m.append(package.as_str());
    m
}

/// The log line when the charger is plugged in.
pub open spec fn plugged_in_message(threshold: u8) -> Seq<char> {
    "plugged in; threshold="@ + decimal(threshold as nat)
}

pub fn plugged_in_log(threshold: u8) -> (m: String)
    ensures
        m@ == plugged_in_message(threshold),
{
    let mut m = owned("plugged in; threshold=");
    push_decimal(&mut m, threshold as u64);
    m
}

pub open spec fn notification_command(message: Seq<char>) -> CommandView {
    run("cmd"@, seq!["notification"@, "post"@, "Utensil"@, message])
}

/// How the process-limit call is numbered on this Android release.
#[derive(Clone, Copy, Debug, PartialEq, Eq)]
pub enum LimitMapping {
    /// This transaction number.
    Mapped(u32),
    /// Android 15 and 16: it depends on the build id.
    ByBuild,
    /// Not supported on this release.
    Unsupported,
}

pub open spec fn limit_mapping(android: u32) -> LimitMapping {
    if android == 9 {
        LimitMapping::Mapped(47)
    } else if android == 10 {
        LimitMapping::Mapped(40)
    } else if android == 11 {
        LimitMapping::Mapped(43)
    } else if android == 12 || android == 13 {
        LimitMapping::Mapped(44)
    } else if android == 14 {
        LimitMapping::Mapped(51)
    } else if android == 15 || android == 16 {
        LimitMapping::ByBuild
    } else {
        LimitMapping::Unsupported
    }
}

/// The process-limit transaction for the Android release `android`.
pub fn limit_mapping_for(android: u32) -> (m: LimitMapping)
    ensures
        m == limit_mapping(android),
{
    match android {
        9 => LimitMapping::Mapped(47),
        10 => LimitMapping::Mapped(40),
        11 => LimitMapping::Mapped(43),
        12 | 13 => LimitMapping::Mapped(44),
        14 => LimitMapping::Mapped(51),
        15 | 16 => LimitMapping::ByBuild,
        _ => LimitMapping::Unsupported,
    }
}

pub open spec fn limit_by_build(build_id: Seq<char>) -> u32 {
    if build_id.len() >= 4 && build_id.subrange(0, 4) == "BP4A"@ {
        58
    } else if build_id.len() >= 4 && build_id.subrange(0, 4) == "BP3A"@ {
        55
    } else {
        52
    }
}

/// The process-limit transaction on Android 15 and 16, by build id.
pub fn limit_mapping_by_build(build_id: &str) -> (m: u32)
    ensures
        m == limit_by_build(build_id@),
{
    let v = crate::text::chars_of(build_id);
    proof {
        reveal_strlit("BP4A");
        reveal_strlit("BP3A");
    }
    if crate::text::range_starts_with(&v, 0, v.len(), "BP4A") {

        58
    } else if crate::text::range_starts_with(&v, 0, v.len(), "BP3A") {

        55
    } else {
        52
    }
}

pub open spec fn limit_command(mapping: u32, limit: i32) -> CommandView {
    run(
        "service"@,
        seq!["call"@, "activity"@, decimal(mapping as nat), "i32"@, crate::text::signed_decimal(limit as int)],
    )
}

/// The command that sets the background process limit.
pub fn limit_processes_command(mapping: u32, limit: i32) -> (c: Command)
    ensures
        c@ == limit_command(mapping, limit),
{
    let c = command(
        "service",
        vec![owned("call"), owned("activity"), decimal_text(mapping as u64), owned("i32"), crate::text::signed_decimal_string(limit)],
        true,
    );
    assert(c@.args =~= limit_command(mapping, limit).args);
    c
}

impl<R> Runtime<R> {
    /// The notification command that posts a log line, where notifications
    /// are on.
    pub fn notification_for(&self, message: &str) -> (c: Option<Command>)
        ensures
            match c {
                Some(c) => self@.config.notification.enabled && c@ == notification_command(message@),
                None => !self@.config.notification.enabled,
            },
    {
        if self.config.notification.enabled {
            let c = command("cmd", vec![owned("notification"), owned("post"), owned("Utensil"), owned(message)], true);
            assert(c@.args =~= notification_command(message@).args);
            Some(c)
        } else {
            None
        }
    }

    /// The first half of fast idle (Android 12 and later, doze on). While
    /// the display is on or the device charges, a forced idle state is
    /// released; while off, nothing is done once deep idle was forced, and
    /// otherwise the light idle state is needed.
    pub fn fast_idle_step(&mut self, state: DeviceState) -> (step: IdleStep)
        ensures
            ({
                let p = old(self)@.previous;
                if !old(self)@.config.doze.enabled || state.android_major <= 11 {
                    step is Nothing && final(self)@ == old(self)@
                } else if state.display_on || state.charging {
                    &&& step matches IdleStep::Run(cs) && commands_view(cs@) == if p.forced_idle is Some {
                        seq![batterystats_command("0"@, false)]
                    } else {
                        Seq::<CommandView>::empty()
                    }
                    &&& final(self)@ == (RuntimeView {
                        previous: PreviousState { forced_idle: None, deep_idle_once: false, ..p },
                        ..old(self)@
                    })
                } else if p.deep_idle_once {
                    step is Nothing && final(self)@ == old(self)@
                } else {
                    step is AskLightState && final(self)@ == old(self)@
                }
            }),
            match step {
                IdleStep::Nothing => forall|l: Seq<char>|
                    #[trigger] fast_idle_cycle(old(self)@, state, l) == (Seq::<CommandView>::empty(), final(self)@),
                IdleStep::Run(cs) => forall|l: Seq<char>|
                    #[trigger] fast_idle_cycle(old(self)@, state, l) == (commands_view(cs@), final(self)@),
                IdleStep::AskLightState => final(self)@ == old(self)@ && forall|l: Seq<char>|
                    #[trigger] fast_idle_cycle(old(self)@, state, l) == light_transition(old(self)@, l),
            },
    {
        if !self.config.doze.enabled || state.android_major <= 11 {
            return IdleStep::Nothing;
        }
        if state.display_on || state.charging {
            let mut cs: Vec<Command> = Vec::new();
            if self.previous.forced_idle.is_some() {
                cs.push(batterystats_exec("0", false));
                self.previous.forced_idle = None;
            }
            self.previous.deep_idle_once = false;
            proof {
                if old(self)@.previous.forced_idle is Some {
                    assert(commands_view(cs@) =~= seq![batterystats_command("0"@, false)]);
                } else {
                    assert(commands_view(cs@) =~= Seq::<CommandView>::empty());
                }
            }
            return IdleStep::Run(cs);
        }
        if self.previous.deep_idle_once {
            return IdleStep::Nothing;
        }
        IdleStep::AskLightState
    }

    /// The second half of fast idle, given the light idle state: while the
    /// device is not yet inactive, light idle is forced (once); once it is
    /// `INACTIVE`, deep idle is forced and remembered.
    pub fn fast_idle_light(&mut self, light: &str) -> (c: Option<Command>)
        ensures
            ({
                let p = old(self)@.previous;
                if light@ != "INACTIVE"@ {
                    if p.forced_idle != Some(1u8) {
                        &&& c matches Some(c) && c@ == batterystats_command("1"@, false)
                        &&& final(self)@ == (RuntimeView {
                            previous: PreviousState { forced_idle: Some(1u8), ..p },
                            ..old(self)@
                        })
                    } else {
                        c is None && final(self)@ == old(self)@
                    }
                } else {
                    &&& c matches Some(c) && c@ == batterystats_command("2"@, true)
                    &&& final(self)@ == (RuntimeView {
                        previous: PreviousState { forced_idle: Some(2u8), deep_idle_once: true, ..p },
                        ..old(self)@
                    })
                }
            }),
            (opt_commands(c), final(self)@) == light_transition(old(self)@, light@),
    {
        let v = crate::text::chars_of(light);
        if !crate::text::range_eq(&v, 0, v.len(), "INACTIVE") {
            assert(v@.subrange(0, v.len() as int) =~= light@);
            if self.previous.forced_idle != Some(1u8) {
                self.previous.forced_idle = Some(1u8);
                return Some(batterystats_exec("1", false));
            }
            return None;
        }
        assert(v@.subrange(0, v.len() as int) =~= light@);
        self.previous.forced_idle = Some(2u8);
        self.previous.deep_idle_once = true;
        Some(batterystats_exec("2", true))
    }

    /// Airplane mode while charging at low battery with the display off; off
    /// again once the display is on or the level passes the maximum threshold.
    pub fn airplane_step(&mut self, state: DeviceState, threshold: u8) -> (step: AirplaneStep)
        ensures
            (step, final(self)@) == airplane_transition(old(self)@, state, threshold),
            ({
                let p = old(self)@.previous;
                let enable = !state.display_on && state.charging && state.level <= threshold;
                let disable = state.display_on || state.level > old(self)@.config.battery.max_threshold;
                if !old(self)@.config.airplane.enabled {
                    step == AirplaneStep::Keep && final(self)@ == old(self)@
                } else if enable && p.airplane_on != Some(true) {
                    step == AirplaneStep::Enable && final(self)@ == (RuntimeView {
                        previous: PreviousState { airplane_on: Some(true), ..p },
                        ..old(self)@
                    })
                } else if disable && p.airplane_on != Some(false) {
                    step == AirplaneStep::Disable && final(self)@ == (RuntimeView {
                        previous: PreviousState { airplane_on: Some(false), ..p },
                        ..old(self)@
                    })
                } else {
                    step == AirplaneStep::Keep && final(self)@ == old(self)@
                }
            }),
    {
        if !self.config.airplane.enabled {
            return AirplaneStep::Keep;
        }
        let enable = !state.display_on && state.charging && state.level <= threshold;
        let disable = state.display_on || state.level > self.config.battery.max_threshold;
        if enable && self.previous.airplane_on != Some(true) {
            self.previous.airplane_on = Some(true);
            AirplaneStep::Enable
        } else if disable && self.previous.airplane_on != Some(false) {
            self.previous.airplane_on = Some(false);
            AirplaneStep::Disable
        } else {
            AirplaneStep::Keep
        }
    }

    /// Counts screen-off cycles (Android 12 and later, compaction on) and
    /// says when to compact: once, after `hardlock_ticks` of them; the display
    /// coming on starts the count again.
    pub fn compaction_step(&mut self, state: DeviceState) -> (compact: bool)
        ensures
            (compact, final(self)@) == compaction_transition(old(self)@, state),
            ({
                let k = old(self)@.compaction;
                let ticks = if k.screen_off_ticks < u32::MAX {
                    (k.screen_off_ticks + 1) as u32
                } else {
                    k.screen_off_ticks
                };
                let due = ticks >= old(self)@.config.compaction.hardlock_ticks;
                if !old(self)@.config.compaction.enabled || state.android_major < 12 {
                    !compact && final(self)@ == old(self)@
                } else if state.display_on {
                    !compact && final(self)@ == (RuntimeView {
                        compaction: initial_compaction(),
                        ..old(self)@
                    })
                } else if k.compacted {
                    !compact && final(self)@ == old(self)@
                } else {
                    compact == due && final(self)@ == (RuntimeView {
                        compaction: CompactionState { screen_off_ticks: ticks, compacted: due },
                        ..old(self)@
                    })
                }
            }),
    {
        if !self.config.compaction.enabled || state.android_major < 12 {
            return false;
        }
        if state.display_on {
            self.compaction = CompactionState { screen_off_ticks: 0, compacted: false };
            return false;
        }
        if self.compaction.compacted {
            return false;
        }
        if self.compaction.screen_off_ticks < u32::MAX {
            self.compaction.screen_off_ticks = self.compaction.screen_off_ticks + 1;
        }
        if self.compaction.screen_off_ticks >= self.config.compaction.hardlock_ticks {
            self.compaction.compacted = true;
            return true;
        }
        false
    }

    /// Starts or keeps the watchdog's screen-off clock; the watchdog forgets
    /// everything while it is off or the display is on.
    pub fn watchdog_step(&mut self, state: DeviceState, now: u64) -> (step: WatchdogStep)
        ensures
            ({
                let w = old(self)@.watchdog;
                let c = old(self)@.config.watchdog;
                if !c.enabled || state.display_on {
                    step == WatchdogStep::Idle && final(self)@ == (RuntimeView {
                        watchdog: initial_watchdog(),
                        ..old(self)@
                    })
                } else {
                    let since_off = match w.screen_off_since {
                        Some(t) => t,
                        None => now,
                    };
                    &&& step == (WatchdogStep::Active {
                        cancel_jobs: c.jobscheduler && reaches(since(now, since_off), c.idle_threshold_secs)
                            && !w.job_done,
                    })
                    &&& final(self)@ == (RuntimeView {
                        watchdog: WatchdogView { screen_off_since: Some(since_off), ..w },
                        ..old(self)@
                    })
                }
            }),
    {
        if !self.config.watchdog.enabled || state.display_on {
            self.watchdog = fresh_watchdog();
            return WatchdogStep::Idle;
        }
        let since_off = match self.watchdog.screen_off_since {
            Some(t) => t,
            None => now,
        };
        self.watchdog.screen_off_since = Some(since_off);
        let idle = if now >= since_off {
            now - since_off
        } else {
            0
        };
        let due = self.config.watchdog.jobscheduler && idle / 1_000_000_000
            >= self.config.watchdog.idle_threshold_secs && !self.watchdog.job_done;
        assert(idle / 1_000_000_000 >= self.config.watchdog.idle_threshold_secs <==> idle
            >= self.config.watchdog.idle_threshold_secs * 1_000_000_000) by (nonlinear_arith);
        WatchdogStep::Active { cancel_jobs: due }
    }

    /// Records that pending jobs were cancelled for this screen-off period.
    pub fn mark_jobs_cancelled(&mut self)
        ensures
            final(self)@ == (RuntimeView {
                watchdog: WatchdogView { job_done: true, ..old(self)@.watchdog },
                ..old(self)@
            }),
    {
        self.watchdog.job_done = true;
    }

    /// The watchdog's sweep, as `sweep` states it: returns the packages to
    /// stop and remembers the others.
    pub fn watchdog_sweep(&mut self, running: &Vec<String>, protected: &Vec<String>, now: u64) -> (stop: Vec<
        String,
    >)
        ensures
            ({
                let r = sweep(
                    texts(running@),
                    texts(protected@),
                    old(self)@.watchdog.first_seen,
                    now,
                    old(self)@.config.watchdog.timeout_secs,
                );
                &&& texts(stop@) == r.0
                &&& final(self)@ == (RuntimeView {
                    watchdog: WatchdogView { first_seen: r.1, ..old(self)@.watchdog },
                    ..old(self)@
                })
            }),
            texts(running@).no_duplicates() ==> names_once(final(self)@.watchdog.first_seen),
    {
        proof {
            if texts(running@).no_duplicates() {
                lemma_sweep_times_each_package_once(
                    texts(running@),
                    texts(protected@),
                    old(self)@.watchdog.first_seen,
                    now,
                    old(self)@.config.watchdog.timeout_secs,
                );
            }
        }
        let ghost seen = self@.watchdog.first_seen;
        let timeout = self.config.watchdog.timeout_secs;
        let mut stop: Vec<String> = Vec::new();
        let mut next: Vec<(String, u64)> = Vec::new();
        let mut i: usize = 0;
        while i < running.len()
            invariant
                0 <= i <= running.len(),
                seen_view(self.watchdog.first_seen@) == seen,
                timeout == self.config.watchdog.timeout_secs,
                (texts(stop@), seen_view(next@)) == sweep(
                    texts(running@).subrange(0, i as int),
                    texts(protected@),
                    seen,
                    now,
                    timeout,
                ),
            decreases running.len() - i,
        {
            let p = &running[i];
            let ghost before = (texts(stop@), seen_view(next@));
            if !contains_text(protected, p) {
                let first = match seen_lookup(&self.watchdog.first_seen, p) {
                    Some(t) => t,
                    None => now,
                };
                let age = if now >= first {
                    now - first
                } else {
                    0
                };
                assert(age / 1_000_000_000 >= timeout <==> age >= timeout * 1_000_000_000) by (nonlinear_arith);
                if age / 1_000_000_000 >= timeout {
                    stop.push(p.clone());
                } else {
                    next.push((p.clone(), first));
                }
            }
            proof {
                let t = texts(running@).subrange(0, i + 1);
                assert(t.subrange(0, i as int) =~= texts(running@).subrange(0, i as int));
                assert(t[i as int] == p@);
                assert(texts(stop@) =~= sweep(t, texts(protected@), seen, now, timeout).0);
                assert(seen_view(next@) =~= sweep(t, texts(protected@), seen, now, timeout).1);
            }
            i = i + 1;
        }
        assert(texts(running@).subrange(0, running.len() as int) =~= texts(running@));
        self.watchdog.first_seen = next;
        stop
    }
}

/// The time recorded for `name`, as `seen_at` states it.
fn seen_lookup(seen: &Vec<(String, u64)>, name: &String) -> (r: Option<u64>)
    ensures
        r == seen_at(seen_view(seen@), name@),
{
    let mut i: usize = 0;
    assert(seen_view(seen@).subrange(0, seen.len() as int) =~= seen_view(seen@));
    while i < seen.len()
        invariant
            0 <= i <= seen.len(),
            seen_at(seen_view(seen@), name@) == seen_at(
                seen_view(seen@).subrange(i as int, seen.len() as int),
                name@,
            ),
        decreases seen.len() - i,
    {
        let ghost s = seen_view(seen@).subrange(i as int, seen.len() as int);
        assert(s.subrange(1, s.len() as int) =~= seen_view(seen@).subrange(i + 1, seen.len() as int));
        if crate::text::strings_equal(&seen[i].0, name) {
            return Some(seen[i].1);
        }
        i = i + 1;
    }
    None
}

pub open spec fn sat_add(a: u64, b: u64) -> u64 {
    if a + b > u64::MAX {
        u64::MAX
    } else {
        (a + b) as u64
    }
}

pub open spec fn sat_sub(a: u8, b: u8) -> u8 {
    if a >= b {
        (a - b) as u8
    } else {
        0
    }
}

pub const NANOS_PER_SEC: u64 = 1_000_000_000;

/// The drain report: the property value and the log line.
#[derive(Clone, Debug, PartialEq, Eq)]
pub struct DrainReport {
    pub property: String,
    pub message: String,
}

/// The drain property: `X%/hr|on:Ym|off:Zm|dur:Ws|24h:V%`.
pub open spec fn drain_property(per_hour: nat, on_min: nat, off_min: nat, secs: nat, day: nat) -> Seq<
    char,
> {
    decimal(per_hour) + "%/hr|on:"@ + decimal(on_min) + "m|off:"@ + decimal(off_min) + "m|dur:"@
        + decimal(secs) + "s|24h:"@ + decimal(day) + "%"@
}

/// The drain log line.
pub open spec fn drain_message(per_hour: nat, on_min: nat, off_min: nat, day: nat) -> Seq<char> {
    "Drain: "@ + decimal(per_hour) + "%/hr | on:"@ + decimal(on_min) + "m | off:"@ + decimal(off_min)
        + "m | 24h:"@ + decimal(day) + "%"@
}

/// The drain state after adding the time since the last tick to the screen-on
/// or screen-off total, as the screen then was.
pub open spec fn drain_ticked(d: DrainState, state: DeviceState, now: u64) -> DrainState {
    let totals = match d.last_tick {
        Some(t) => if d.last_display_on {
            (sat_add(d.screen_on, since(now, t)), d.screen_off)
        } else {
            (d.screen_on, sat_add(d.screen_off, since(now, t)))
        },
        None => (d.screen_on, d.screen_off),
    };
    DrainState {
        last_tick: Some(now),
        last_display_on: state.display_on,
        screen_on: totals.0,
        screen_off: totals.1,
        ..d
    }
}

/// One cycle of drain tracking while discharging: the time since the last
/// tick is added to the screen-on or screen-off total; the first tick sets the
/// reference; an hour or more after the reference a report is due, giving the
/// level lost per hour, the screen totals in minutes, the time since the
/// reference and the loss over the last full day (counted in 24-hour spans
/// from the first report, whose level starts the first span), and the
/// reference starts again.
pub open spec fn drain_outcome(d: DrainState, state: DeviceState, now: u64) -> (
    Option<(Seq<char>, Seq<char>)>,
    DrainState,
) {
    let t = drain_ticked(d, state, now);
    match t.reference_time {
        None => (
            None,
            DrainState { reference_time: Some(now), reference_level: Some(state.level), ..t },
        ),
        Some(rt) => {
            let elapsed = since(now, rt);
            if elapsed < 3600 * NANOS_PER_SEC {
                (None, t)
            } else {
                let rl = match t.reference_level {
                    Some(l) => l,
                    None => state.level,
                };
                let lost = sat_sub(rl, state.level);
                let secs = elapsed / NANOS_PER_SEC;
                let per_hour = (lost as nat) * 3600 / (if secs >= 1 {
                    secs as nat
                } else {
                    1nat
                });
                let start = match t.drain_24h_start_time {
                    Some(s) => s,
                    None => now,
                };
                let start_level = match t.drain_24h_start_time {
                    Some(_) => t.drain_24h_start_level,
                    None => state.level,
                };
                let reset = since(now, start) >= 86400 * NANOS_PER_SEC;
                let day = if reset {
                    sat_sub(start_level, state.level)
                } else {
                    t.drain_24h
                };
                let on_min = t.screen_on / NANOS_PER_SEC / 60;
                let off_min = t.screen_off / NANOS_PER_SEC / 60;
                (
                    Some(
                        (
                            drain_property(per_hour, on_min as nat, off_min as nat, secs as nat, day as nat),
                            drain_message(per_hour, on_min as nat, off_min as nat, day as nat),
                        ),
                    ),
                    DrainState {
                        reference_level: Some(state.level),
                        reference_time: Some(now),
                        last_tick: None,
                        last_display_on: state.display_on,
                        screen_on: 0,
                        screen_off: 0,
                        drain_24h_start_level: if reset {
                            state.level
                        } else {
                            start_level
                        },
                        drain_24h_start_time: Some(
                            if reset {
                                now
                            } else {
                                start
                            },
                        ),
                        drain_24h: day,
                    },
                )
            }
        },
    }
}

fn saturating_add(a: u64, b: u64) -> (r: u64)
    ensures
        r == sat_add(a, b),
{
    if a <= u64::MAX - b {
        a + b
    } else {
        u64::MAX
    }
}

fn nanos_since(now: u64, then: u64) -> (r: u64)
    ensures
        r == since(now, then),
{
    if now >= then {
        now - then
    } else {
        0
    }
}

fn drain_report(per_hour: u64, on_min: u64, off_min: u64, secs: u64, day: u8) -> (r: DrainReport)
    ensures
        r.property@ == drain_property(per_hour as nat, on_min as nat, off_min as nat, secs as nat, day as nat),
        r.message@ == drain_message(per_hour as nat, on_min as nat, off_min as nat, day as nat),
{
    proof {
        reveal_strlit("%/hr|on:");
        reveal_strlit("m|off:");
        reveal_strlit("m|dur:");
        reveal_strlit("s|24h:");
        reveal_strlit("%");
        reveal_strlit("Drain: ");
        reveal_strlit("%/hr | on:");
        reveal_strlit("m | off:");
        reveal_strlit("m | 24h:");
    }
    let mut p = String::new();
    push_decimal(&mut p, per_hour);
    p.append("%/hr|on:");
    push_decimal(&mut p, on_min);
    p.append("m|off:");
    push_decimal(&mut p, off_min);
    p.append("m|dur:");
    push_decimal(&mut p, secs);
    p.append("s|24h:");
    push_decimal(&mut p, day as u64);
    p.append("%");
    assert(p@ =~= drain_property(per_hour as nat, on_min as nat, off_min as nat, secs as nat, day as nat));
    let mut m = owned("Drain: ");
    push_decimal(&mut m, per_hour);
    m.append("%/hr | on:");
    push_decimal(&mut m, on_min);
    m.append("m | off:");
    push_decimal(&mut m, off_min);
    m.append("m | 24h:");
    push_decimal(&mut m, day as u64);
    m.append("%");
    assert(m@ =~= drain_message(per_hour as nat, on_min as nat, off_min as nat, day as nat));
    DrainReport { property: p, message: m }
}

pub open spec fn report_view(r: Option<DrainReport>) -> Option<(Seq<char>, Seq<char>)> {
    match r {
        Some(r) => Some((r.property@, r.message@)),
        None => None,
    }
}

/// The enabled third-party packages that package-manager output lists: the
/// lines that start with `package:`, without it, trimmed.
pub open spec fn package_names(lines: Seq<Seq<char>>) -> Seq<Seq<char>>
    decreases lines.len(),
{
    if lines.len() == 0 {
        Seq::empty()
    } else {
        let l = lines[lines.len() - 1];
        package_names(lines.subrange(0, lines.len() - 1)) + if l.len() >= 8 && l.subrange(0, 8)
            == "package:"@ {
            seq![crate::text::trim(l.subrange(8, l.len() as int))]
        } else {
            Seq::empty()
        }
    }
}

/// The package named by one line of package-manager output, if it names one.
pub fn parse_package_line(line: &str) -> (r: Option<String>)
    ensures
        match r {
            Some(p) => line@.len() >= 8 && line@.subrange(0, 8) == "package:"@ && p@ == crate::text::trim(
                line@.subrange(8, line@.len() as int),
            ),
            None => !(line@.len() >= 8 && line@.subrange(0, 8) == "package:"@),
        },
{
    let v = crate::text::chars_of(line);
    assert(v@.subrange(0, v.len() as int) =~= line@);
    package_in(&v, line, 0, v.len())
}

fn package_in(v: &Vec<char>, text: &str, lo: usize, hi: usize) -> (r: Option<String>)
    requires
        v@ == text@,
        lo <= hi <= v.len(),
    ensures
        ({
            let l = v@.subrange(lo as int, hi as int);
            match r {
                Some(p) => l.len() >= 8 && l.subrange(0, 8) == "package:"@ && p@ == crate::text::trim(
                    l.subrange(8, l.len() as int),
                ),
                None => !(l.len() >= 8 && l.subrange(0, 8) == "package:"@),
            }
        }),
{
    proof {
        reveal_strlit("package:");
    }
    let ghost l = v@.subrange(lo as int, hi as int);
    if !crate::text::range_starts_with(v, lo, hi, "package:") {
        assert(!(l.len() >= 8 && l.subrange(0, 8) == "package:"@)) by {
            if l.len() >= 8 && l.subrange(0, 8) == "package:"@ {
                assert(v@.subrange(lo as int, lo + 8) =~= l.subrange(0, 8));
            }
        }
        return None;
    }
    assert(v@.subrange(lo as int, lo + 8) =~= l.subrange(0, 8));
    let (a, b) = crate::text::trim_range(v, lo + 8, hi);
    assert(l.subrange(8, l.len() as int) =~= v@.subrange(lo + 8, hi as int));
    Some(crate::text::substring(text, a, b))
}

/// The package names in package-manager output, as `package_names` states.
#[verifier::loop_isolation(false)]
pub fn package_list(output: &str) -> (r: Vec<String>)
    ensures
        texts(r@) == package_names(crate::text::split_lines(output@)),
{
    let v = crate::text::chars_of(output);
    let ranges = crate::text::line_ranges(&v);
    let ghost lines = crate::text::split_lines(output@);
    let mut r: Vec<String> = Vec::new();
    let mut i: usize = 0;
    while i < ranges.len()
        invariant
            v@ == output@,
            lines == crate::text::split_lines(v@),
            ranges.len() == lines.len(),
            0 <= i <= ranges.len(),
            texts(r@) == package_names(lines.subrange(0, i as int)),
        decreases ranges.len() - i,
    {
        let (lo, hi) = ranges[i];
        assert(v@.subrange(lo as int, hi as int) == lines[i as int]);
        let ghost before = texts(r@);
        match package_in(&v, output, lo, hi) {
            Some(p) => {
                r.push(p);
            },
            None => {},
        }
        proof {
            let t = lines.subrange(0, i + 1);
            assert(t.subrange(0, i as int) =~= lines.subrange(0, i as int));
            assert(t[i as int] == lines[i as int]);
            assert(texts(r@) =~= package_names(t));
        }
        i = i + 1;
    }
    assert(lines.subrange(0, ranges.len() as int) =~= lines);
    r
}

pub fn copy_texts(list: &Vec<String>) -> (r: Vec<String>)
    ensures
        texts(r@) == texts(list@),
{
    let mut r: Vec<String> = Vec::new();
    let mut i: usize = 0;
    while i < list.len()
        invariant
            0 <= i <= list.len(),
            r.len() == i,
            forall|j: int| 0 <= j < i ==> (#[trigger] r@[j])@ == list@[j]@,
        decreases list.len() - i,
    {
        let c = list[i].clone();
        r.push(c);
        i = i + 1;
    }
    assert(texts(r@) =~= texts(list@));
    r
}

impl<R> Runtime<R> {
    /// Drain tracking for one cycle, as `drain_outcome` states it; while
    /// charging it starts again, and it is off unless the configuration
    /// enables it.
    pub fn drain_step(&mut self, state: DeviceState, now: u64) -> (report: Option<DrainReport>)
        ensures
            if !old(self)@.config.drain.enabled {
                report is None && final(self)@ == old(self)@
            } else if state.charging {
                report is None && final(self)@ == (RuntimeView { drain: initial_drain(), ..old(self)@ })
            } else {
                let o = drain_outcome(old(self)@.drain, state, now);
                report_view(report) == o.0 && final(self)@ == (RuntimeView { drain: o.1, ..old(self)@ })
            },
    {
        if !self.config.drain.enabled {
            return None;
        }
        if state.charging {
            self.drain = fresh_drain();
            return None;
        }
        match self.drain.last_tick {
            Some(t) => {
                let delta = nanos_since(now, t);
                if self.drain.last_display_on {
                    self.drain.screen_on = saturating_add(self.drain.screen_on, delta);
                } else {
                    self.drain.screen_off = saturating_add(self.drain.screen_off, delta);
                }
            },
            None => {},
        }
        self.drain.last_tick = Some(now);
        self.drain.last_display_on = state.display_on;
        let reference_time = match self.drain.reference_time {
            Some(rt) => rt,
            None => {
                self.drain.reference_time = Some(now);
                self.drain.reference_level = Some(state.level);
                return None;
            },
        };
        let elapsed = nanos_since(now, reference_time);
        if elapsed < 3600 * NANOS_PER_SEC {
            return None;
        }
        let reference_level = match self.drain.reference_level {
            Some(l) => l,
            None => state.level,
        };
        let lost: u8 = if reference_level >= state.level {
            reference_level - state.level
        } else {
            0
        };
        let secs = elapsed / NANOS_PER_SEC;
        let divisor = if secs >= 1 {
            secs
        } else {
            1
        };
        let per_hour = (lost as u64) * 3600 / divisor;
        let start = match self.drain.drain_24h_start_time {
            Some(s) => s,
            None => now,
        };
        let day_start_level: u8 = match self.drain.drain_24h_start_time {
            Some(_) => self.drain.drain_24h_start_level,
            None => state.level,
        };
        let reset = nanos_since(now, start) >= 86400 * NANOS_PER_SEC;
        let day: u8 = if reset {
            if day_start_level >= state.level {
                day_start_level - state.level
            } else {
                0
            }
        } else {
            self.drain.drain_24h
        };
        let start_level = if reset {
            state.level
        } else {
            day_start_level
        };
        let start_time = if reset {
            now
        } else {
            start
        };
        let on_min = self.drain.screen_on / NANOS_PER_SEC / 60;
        let off_min = self.drain.screen_off / NANOS_PER_SEC / 60;
        let report = drain_report(per_hour, on_min, off_min, secs, day);
        self.drain = DrainState {
            reference_level: Some(state.level),
            reference_time: Some(now),
            last_tick: None,
            last_display_on: state.display_on,
            screen_on: 0,
            screen_off: 0,
            drain_24h_start_level: start_level,
            drain_24h_start_time: Some(start_time),
            drain_24h: day,
        };
        Some(report)
    }

    /// The cached package list, where the registry's modification time
    /// `mtime` is known and matches the one it was filled at; an empty list
    /// is kept like any other.
    pub fn cached_packages(&self, mtime: Option<i128>) -> (r: Option<Vec<String>>)
        ensures
            match r {
                Some(v) => mtime is Some && mtime == self@.pkg_cache_mtime
                    && texts(v@) == self@.pkg_cache,
                None => !(mtime is Some && mtime == self@.pkg_cache_mtime),
            },
    {
        if mtime.is_some() && mtime == self.pkg_cache_mtime {
            Some(copy_texts(&self.pkg_cache))
        } else {
            None
        }
    }

    /// Fills the cache from package-manager output taken at registry time
    /// `mtime`, and returns the packages.
    pub fn store_packages(&mut self, output: &str, mtime: Option<i128>) -> (r: Vec<String>)
        ensures
            texts(r@) == package_names(crate::text::split_lines(output@)),
            final(self)@ == (RuntimeView {
                pkg_cache: package_names(crate::text::split_lines(output@)),
                pkg_cache_mtime: mtime,
                ..old(self)@
            }),
    {
        let list = package_list(output);
        let r = copy_texts(&list);
        self.pkg_cache = list;
        self.pkg_cache_mtime = mtime;
        r
    }
}

pub fn copy_opt(o: &Option<String>) -> (r: Option<String>)
    ensures
        crate::config::opt_text(r) == crate::config::opt_text(*o),
{
    match o {
        Some(s) => Some(s.clone()),
        None => None,
    }
}

impl<R> Runtime<R> {
    /// The refresh rate for low battery: the configured one, else `60.0` on a
    /// display that was found to run at a high rate.
    pub fn low_refresh_rate(&self, has_high_rr: bool) -> (r: Option<String>)
        ensures
            crate::config::opt_text(r) == match self@.config.battery.refresh_rate_low {
                Some(v) => Some(v),
                None => if has_high_rr {
                    Some("60.0"@)
                } else {
                    None
                },
            },
    {
        match &self.config.battery.refresh_rate_low {
            Some(v) => Some(v.clone()),
            None => if has_high_rr {
                Some(owned("60.0"))
            } else {
                None
            },
        }
    }

    /// The refresh rate to restore above the threshold: the configured one,
    /// else the backed-up one (`stored`, trimmed, where not empty).
    pub fn default_refresh_rate(&self, stored: Option<&str>) -> (r: Option<String>)
        ensures
            crate::config::opt_text(r) == match self@.config.battery.refresh_rate_default {
                Some(v) => Some(v),
                None => crate::android::trimmed_nonempty(crate::learning::opt_str(stored)),
            },
    {
        match &self.config.battery.refresh_rate_default {
            Some(v) => Some(v.clone()),
            None => crate::android::trimmed_text(stored),
        }
    }

    /// The screen timeout for low battery: the configured one, else the
    /// shortened one that was saved (`stored`).
    pub fn low_screen_timeout_ms(&self, stored: Option<&str>) -> (r: Option<u64>)
        ensures
            r == match self@.config.battery.screen_timeout_low_ms {
                Some(t) => Some(t),
                None => crate::android::stored_millis(crate::learning::opt_str(stored)),
            },
    {
        match self.config.battery.screen_timeout_low_ms {
            Some(t) => Some(t),
            None => crate::android::millis_from_text(stored),
        }
    }

    /// The screen timeout to restore above the threshold: the configured one,
    /// else the one backed up at setup (`stored`).
    pub fn default_screen_timeout_ms(&self, stored: Option<&str>) -> (r: Option<u64>)
        ensures
            r == match self@.config.battery.screen_timeout_default_ms {
                Some(t) => Some(t),
                None => crate::android::stored_millis(crate::learning::opt_str(stored)),
            },
    {
        match self.config.battery.screen_timeout_default_ms {
            Some(t) => Some(t),
            None => crate::android::millis_from_text(stored),
        }
    }
}

/// The arguments joined by single spaces.
pub open spec fn joined(args: Seq<Seq<char>>) -> Seq<char>
    decreases args.len(),
{
    if args.len() == 0 {
        Seq::empty()
    } else if args.len() == 1 {
        args[0]
    } else {
        joined(args.subrange(0, args.len() - 1)) + seq![' '] + args[args.len() - 1]
    }
}

/// The line that a dry run prints for a command.
pub open spec fn dry_run_text(c: CommandView) -> Seq<char> {
    "dry-run: "@ + c.program + seq![' '] + joined(c.args)
}

pub fn dry_run_line(c: &Command) -> (r: String)
    ensures
        r@ == dry_run_text(c@),
{
    let mut r = owned("dry-run: ");
    r.append(c.program.as_str());
    r.push(' ');
    let mut i: usize = 0;
    let ghost base = r@;
    while i < c.args.len()
        invariant
            0 <= i <= c.args.len(),
            r@ == base + joined(texts(c.args@).subrange(0, i as int)),
        decreases c.args.len() - i,
    {
        let ghost t = texts(c.args@).subrange(0, i + 1);
        assert(t.subrange(0, i as int) =~= texts(c.args@).subrange(0, i as int));
        if i > 0 {
            r.push(' ');
        }
        r.append(c.args[i].as_str());
        proof {
            if i == 0 {
                assert(texts(c.args@).subrange(0, 0).len() == 0);
                assert(r@ =~= base + joined(t));
            } else {
                assert(r@ =~= base + joined(t));
            }
        }
        i = i + 1;
    }
    assert(texts(c.args@).subrange(0, c.args.len() as int) =~= texts(c.args@));
    assert(r@ =~= dry_run_text(c@));
    r
}

/// How a change is carried out: applied, or in a dry run only shown, as the
/// line given.
#[derive(Clone, Debug, PartialEq, Eq)]
pub enum ChangeAction {
    Apply,
    Show(String),
}

impl<R> Runtime<R> {
    /// How the command `c` is carried out: run, or in a dry run only shown
    /// as its dry-run line.
    pub fn command_action(&self, c: &Command) -> (a: ChangeAction)
        ensures
            match a {
                ChangeAction::Apply => !self@.config.dry_run,
                ChangeAction::Show(t) => self@.config.dry_run && t@ == dry_run_text(c@),
            },
    {
        if self.config.dry_run {
            ChangeAction::Show(dry_run_line(c))
        } else {
            ChangeAction::Apply
        }
    }

    /// Whether changes to the device (properties, files) are made: not in a
    /// dry run, which only probes and logs.
    pub fn applies_changes(&self) -> (r: bool)
        ensures
            r == !self@.config.dry_run,
    {
        !self.config.dry_run
    }
}

/// Where an Android tool lives; other programs are run by name.
pub open spec fn tool_path(program: Seq<char>) -> Seq<char> {
    if program == "cmd"@ {
        "/system/bin/cmd"@
    } else if program == "dumpsys"@ {
        "/system/bin/dumpsys"@
    } else if program == "service"@ {
        "/system/bin/service"@
    } else if program == "setprop"@ {
        "/system/bin/setprop"@
    } else if program == "getprop"@ {
        "/system/bin/getprop"@
    } else if program == "ps"@ {
        "/system/bin/ps"@
    } else if program == "svc"@ {
        "/system/bin/svc"@
    } else {
        program
    }
}

pub fn resolve_android_tool(program: &str) -> (r: String)
    ensures
        r@ == tool_path(program@),
{
    let v = crate::text::chars_of(program);
    assert(v@.subrange(0, v.len() as int) =~= program@);
    let n = v.len();
    if crate::text::range_eq(&v, 0, n, "cmd") {
        owned("/system/bin/cmd")
    } else if crate::text::range_eq(&v, 0, n, "dumpsys") {
        owned("/system/bin/dumpsys")
    } else if crate::text::range_eq(&v, 0, n, "service") {
        owned("/system/bin/service")
    } else if crate::text::range_eq(&v, 0, n, "setprop") {
        owned("/system/bin/setprop")
    } else if crate::text::range_eq(&v, 0, n, "getprop") {
        owned("/system/bin/getprop")
    } else if crate::text::range_eq(&v, 0, n, "ps") {
        owned("/system/bin/ps")
    } else if crate::text::range_eq(&v, 0, n, "svc") {
        owned("/system/bin/svc")
    } else {
        owned(program)
    }
}

/// A query whose output is read (it is run even in a dry run).
pub fn query(program: &str, args: &[&str]) -> (c: Command)
    ensures
        c@ == run(program@, args@.map_values(|a: &str| a@)),
{
    let mut v: Vec<String> = Vec::new();
    let mut i: usize = 0;
    while i < args.len()
        invariant
            0 <= i <= args.len(),
            v.len() == i,
            forall|j: int| 0 <= j < i ==> (#[trigger] v@[j])@ == args@[j]@,
        decreases args.len() - i,
    {
        v.push(owned(args[i]));
        i = i + 1;
    }
    assert(texts(v@) =~= args@.map_values(|a: &str| a@));
    command(program, v, true)
}

/// A command from literal parts.
pub fn literal_command(program: &str, args: &[&str], must_succeed: bool) -> (c: Command)
    ensures
        c@ == (CommandView { program: program@, args: args@.map_values(|a: &str| a@), must_succeed: must_succeed }),
{
    let q = query(program, args);
    Command { program: q.program, args: q.args, must_succeed: must_succeed }
}

/// The first commands that undo the daemon's settings on removal (their
/// failures are only logged).
pub open spec fn restore_commands() -> Seq<CommandView> {
    seq![
        batterystats_command("0"@, false),
        run_ignoring("cmd"@, seq!["connectivity"@, "airplane-mode"@, "disable"@]),
        run_ignoring("cmd"@, seq!["power"@, "set-mode"@, "0"@]),
        run_ignoring("cmd"@, seq!["power"@, "set-adaptive-power-saver-enabled"@, "false"@]),
        run_ignoring(
            "cmd"@,
            seq!["settings"@, "put"@, "global"@, "battery_stats_constants"@, "track_cpu_times_by_proc_state=false"@],
        ),
        run_ignoring("cmd"@, seq!["settings"@, "delete"@, "global"@, "battery_saver_constants"@]),
        run_ignoring("cmd"@, seq!["settings"@, "delete"@, "global"@, "binder_calls_stats"@]),
        run_ignoring("cmd"@, seq!["settings"@, "delete"@, "global"@, "activity_manager_constants"@]),
        run_ignoring("cmd"@, seq!["settings"@, "delete"@, "global"@, "device_idle_constants"@]),
        run_ignoring(
            "cmd"@,
            seq!["settings"@, "delete"@, "global"@, "forced_app_standby_for_small_battery_enabled"@],
        ),
        run_ignoring("cmd"@, seq!["settings"@, "delete"@, "global"@, "kernel_cpu_thread_reader"@]),
    ]
}

pub fn uninstall_commands() -> (cs: Vec<Command>)
    ensures
        commands_view(cs@) == restore_commands(),
{
    let mut cs: Vec<Command> = Vec::new();
    cs.push(batterystats_exec("0", false));
    let c = literal_command("cmd", &["connectivity", "airplane-mode", "disable"], false);
    assert(c@.args =~= seq!["connectivity"@, "airplane-mode"@, "disable"@]);
    cs.push(c);
    let c = literal_command("cmd", &["power", "set-mode", "0"], false);
    assert(c@.args =~= seq!["power"@, "set-mode"@, "0"@]);
    cs.push(c);
    let c = literal_command("cmd", &["power", "set-adaptive-power-saver-enabled", "false"], false);
    assert(c@.args =~= seq!["power"@, "set-adaptive-power-saver-enabled"@, "false"@]);
    cs.push(c);
    let c = literal_command("cmd", &["settings", "put", "global", "battery_stats_constants", "track_cpu_times_by_proc_state=false"], false);
    assert(c@.args =~= seq!["settings"@, "put"@, "global"@, "battery_stats_constants"@, "track_cpu_times_by_proc_state=false"@]);
    cs.push(c);
    let c = literal_command("cmd", &["settings", "delete", "global", "battery_saver_constants"], false);
    assert(c@.args =~= seq!["settings"@, "delete"@, "global"@, "battery_saver_constants"@]);
    cs.push(c);
    let c = literal_command("cmd", &["settings", "delete", "global", "binder_calls_stats"], false);
    assert(c@.args =~= seq!["settings"@, "delete"@, "global"@, "binder_calls_stats"@]);
    cs.push(c);
    let c = literal_command("cmd", &["settings", "delete", "global", "activity_manager_constants"], false);
    assert(c@.args =~= seq!["settings"@, "delete"@, "global"@, "activity_manager_constants"@]);
    cs.push(c);
    let c = literal_command("cmd", &["settings", "delete", "global", "device_idle_constants"], false);
    assert(c@.args =~= seq!["settings"@, "delete"@, "global"@, "device_idle_constants"@]);
    cs.push(c);
    let c = literal_command("cmd", &["settings", "delete", "global", "forced_app_standby_for_small_battery_enabled"], false);
    assert(c@.args =~= seq!["settings"@, "delete"@, "global"@, "forced_app_standby_for_small_battery_enabled"@]);
    cs.push(c);
    let c = literal_command("cmd", &["settings", "delete", "global", "kernel_cpu_thread_reader"], false);
    assert(c@.args =~= seq!["settings"@, "delete"@, "global"@, "kernel_cpu_thread_reader"@]);
    cs.push(c);
    assert(commands_view(cs@) =~= restore_commands());
    cs
}

/// Restoring forced app standby: the backed-up value (`backup`, trimmed),
/// else removing the setting where a placeholder says there was none.
pub open spec fn standby_restore(backup: Option<Seq<char>>, placeholder: bool) -> Option<CommandView> {
    match backup {
        Some(v) => Some(
            run_ignoring(
                "cmd"@,
                seq!["settings"@, "put"@, "global"@, "forced_app_standby_enabled"@, crate::text::trim(v)],
            ),
        ),
        None => if placeholder {
            Some(run_ignoring("cmd"@, seq!["settings"@, "delete"@, "global"@, "forced_app_standby_enabled"@]))
        } else {
            None
        },
    }
}

pub fn standby_restore_command(backup: Option<&str>, placeholder: bool) -> (c: Option<Command>)
    ensures
        match c {
            Some(c) => standby_restore(crate::learning::opt_str(backup), placeholder) == Some(c@),
            None => standby_restore(crate::learning::opt_str(backup), placeholder) is None,
        },
{
    match backup {
        Some(v) => {
            let w = crate::text::chars_of(v);
            let (a, b) = crate::text::trim_range(&w, 0, w.len());
            assert(w@.subrange(0, w.len() as int) =~= v@);
            let value = crate::text::substring(v, a, b);
            let c = command("cmd", vec![owned("settings"), owned("put"), owned("global"), owned("forced_app_standby_enabled"), value], false);
            assert(c@.args =~= seq!["settings"@, "put"@, "global"@, "forced_app_standby_enabled"@, crate::text::trim(v@)]);
            Some(c)
        },
        None => if placeholder {
            let c = literal_command("cmd", &["settings", "delete", "global", "forced_app_standby_enabled"], false);
            assert(c@.args =~= seq!["settings"@, "delete"@, "global"@, "forced_app_standby_enabled"@]);
            Some(c)
        } else {
            None
        },
    }
}

/// A system setting written back on removal (failure only logged).
pub fn restore_system_setting(key: &str, value: String) -> (c: Command)
    ensures
        c@ == run_ignoring("cmd"@, seq!["settings"@, "put"@, "system"@, key@, value@]),
{
    let c = command("cmd", vec![owned("settings"), owned("put"), owned("system"), owned(key), value], false);
    assert(c@.args =~= seq!["settings"@, "put"@, "system"@, key@, value@]);
    c
}

/// Restoring the screen timeout from the text of its backup file, where
/// there is one: the trimmed text, unless it is empty.
pub open spec fn timeout_restore(file: Option<Seq<char>>) -> Option<CommandView> {
    match crate::android::trimmed_nonempty(file) {
        Some(v) => Some(run_ignoring("cmd"@, seq!["settings"@, "put"@, "system"@, "screen_off_timeout"@, v])),
        None => None,
    }
}

pub fn timeout_restore_command(file: Option<&str>) -> (c: Option<Command>)
    ensures
        match c {
            Some(c) => timeout_restore(crate::learning::opt_str(file)) == Some(c@),
            None => timeout_restore(crate::learning::opt_str(file)) is None,
        },
{
    match crate::android::trimmed_text(file) {
        Some(v) => Some(restore_system_setting("screen_off_timeout", v)),
        None => None,
    }
}

/// The files that removal deletes: the learning history, the threshold, the
/// whitelist, and the markers that setup left in the home directory.
pub open spec fn uninstall_removals(c: UtensilConfigView) -> Seq<Seq<char>> {
    let h = c.paths.home;
    seq![
        c.paths.learning_file,
        c.paths.threshold_file,
        c.paths.whitelist_file,
        crate::config::join_path(h, "screentimeout.dat"@),
        crate::config::join_path(h, "screentimeoutconfiguration"@),
        crate::config::join_path(h, "timeoutflag"@),
        crate::config::join_path(h, "has_high_rr"@),
        crate::config::join_path(h, "default_rr_val"@),
        crate::config::join_path(h, "refreshrateconfig"@),
    ]
}

pub fn uninstall_removal_paths(config: &UtensilConfig) -> (r: Vec<String>)
    ensures
        texts(r@) == uninstall_removals(config@),
{
    let h = config.paths.home.as_str();
    let mut r: Vec<String> = Vec::new();
    r.push(config.paths.learning_file.clone());
    r.push(config.paths.threshold_file.clone());
    r.push(config.paths.whitelist_file.clone());
    r.push(crate::config::join(h, "screentimeout.dat"));
    r.push(crate::config::join(h, "screentimeoutconfiguration"));
    r.push(crate::config::join(h, "timeoutflag"));
    r.push(crate::config::join(h, "has_high_rr"));
    r.push(crate::config::join(h, "default_rr_val"));
    r.push(crate::config::join(h, "refreshrateconfig"));
    assert(texts(r@) =~= uninstall_removals(config@));
    r
}

/// The refresh rate written for the highest display mode: `<rate>.0`.
pub open spec fn rate_setting(rate: u32) -> Seq<char> {
    decimal(rate as nat) + ".0"@
}

pub fn rate_setting_text(rate: u32) -> (r: String)
    ensures
        r@ == rate_setting(rate),
{
    let mut r = String::new();
    push_decimal(&mut r, rate as u64);
    r.append(".0");
    r
}

/// The last commands of removal (their failures are only logged).
pub open spec fn final_restore_commands() -> Seq<CommandView> {
    seq![
        run_ignoring("cmd"@, seq!["thermalservice"@, "reset"@]),
        run_ignoring("dumpsys"@, seq!["sensorservice"@, "enable"@]),
        run_ignoring("cmd"@, seq!["notification"@, "set_dnd"@, "off"@]),
    ]
}

pub fn final_uninstall_commands() -> (cs: Vec<Command>)
    ensures
        commands_view(cs@) == final_restore_commands(),
{
    let mut cs: Vec<Command> = Vec::new();
    let c = literal_command("cmd", &["thermalservice", "reset"], false);
    assert(c@.args =~= seq!["thermalservice"@, "reset"@]);
    cs.push(c);
    let c = literal_command("dumpsys", &["sensorservice", "enable"], false);
    assert(c@.args =~= seq!["sensorservice"@, "enable"@]);
    cs.push(c);
    let c = literal_command("cmd", &["notification", "set_dnd", "off"], false);
    assert(c@.args =~= seq!["notification"@, "set_dnd"@, "off"@]);
    cs.push(c);
    assert(commands_view(cs@) =~= final_restore_commands());
    cs
}

/// The activity manager tuning written on first setup.
pub open spec fn activity_manager_tuning() -> CommandView {
    run(
        "cmd"@,
        seq![
            "settings"@,
            "put"@,
            "global"@,
            "activity_manager_constants"@,
            "power_check_max_cpu_1=30,power_check_max_cpu_2=30,power_check_max_cpu_3=15,power_check_max_cpu_4=5,power_check_interval=600000,gc_min_interval=180000"@,
        ],
    )
}

pub fn activity_manager_tuning_command() -> (c: Command)
    ensures
        c@ == activity_manager_tuning(),
{
    let c = literal_command(
        "cmd",
        &[
            "settings",
            "put",
            "global",
            "activity_manager_constants",
            "power_check_max_cpu_1=30,power_check_max_cpu_2=30,power_check_max_cpu_3=15,power_check_max_cpu_4=5,power_check_interval=600000,gc_min_interval=180000",
        ],
        true,
    );
    assert(c@.args =~= activity_manager_tuning().args);
    c
}

/// The commands for airplane mode and Wi-Fi.
pub fn airplane_mode_command(enable: bool) -> (c: Command)
    ensures
        c@ == airplane_command(enable),
{
    let c = command("cmd", vec![owned("connectivity"), owned("airplane-mode"), if enable {
        owned("enable")
    } else {
        owned("disable")
    }], true);
    assert(c@.args =~= airplane_command(enable).args);
    c
}

pub fn wifi_state_query() -> (c: Command)
    ensures
        c@ == wifi_query(),
{
    let c = literal_command("cmd", &["settings", "get", "global", "wifi_on"], true);
    assert(c@.args =~= wifi_query().args);
    c
}

/// Wi-Fi is switched back on where airplane mode turned it off (`wifi_on`
/// reads `0`).
pub fn wifi_enable_if_off(wifi_on: &str) -> (c: Option<Command>)
    ensures
        match c {
            Some(c) => wifi_on@ == "0"@ && c@ == wifi_enable_command(),
            None => wifi_on@ != "0"@,
        },
{
    let v = crate::text::chars_of(wifi_on);
    assert(v@.subrange(0, v.len() as int) =~= wifi_on@);
    if crate::text::range_eq(&v, 0, v.len(), "0") {
        let c = literal_command("svc", &["wifi", "enable"], true);
        assert(c@.args =~= wifi_enable_command().args);
        Some(c)
    } else {
        None
    }
}

/// The lines of the `status` report.
pub open spec fn status_lines(
    c: UtensilConfigView,
    state: DeviceState,
    threshold: u8,
    foreground: Option<Seq<char>>,
) -> Seq<Seq<char>> {
    seq![
        "home="@ + c.paths.home,
        "display_on="@ + crate::config::bool_text(state.display_on),
        "charging="@ + crate::config::bool_text(state.charging),
        "level="@ + decimal(state.level as nat),
        "android_major="@ + decimal(state.android_major as nat),
        "dynamic_threshold="@ + decimal(threshold as nat),
        "foreground="@ + match foreground {
            Some(f) => f,
            None => "unknown"@,
        },
        "dry_run="@ + crate::config::bool_text(c.dry_run),
    ]
}

fn labelled_flag(label: &str, b: bool) -> (r: String)
    ensures
        r@ == label@ + crate::config::bool_text(b),
{
    let mut r = String::from_str(label);
    if b {
        r.append("true");
    } else {
        r.append("false");
    }
    r
}

fn labelled_number(label: &str, n: u64) -> (r: String)
    ensures
        r@ == label@ + decimal(n as nat),
{
    let mut r = String::from_str(label);
    push_decimal(&mut r, n);
    r
}

/// The `status` report, one line each, as `status_lines` states it.
pub fn status_report(
    config: &UtensilConfig,
    state: DeviceState,
    threshold: u8,
    foreground: Option<&str>,
) -> (r: String)
    ensures
        r@ == crate::config::join_lines(
            status_lines(config@, state, threshold, crate::learning::opt_str(foreground)),
        ),
{
    let mut lines: Vec<String> = Vec::new();
    let mut home = String::from_str("home=");
    home.append(config.paths.home.as_str());
    lines.push(home);
    lines.push(labelled_flag("display_on=", state.display_on));
    lines.push(labelled_flag("charging=", state.charging));
    lines.push(labelled_number("level=", state.level as u64));
    lines.push(labelled_number("android_major=", state.android_major as u64));
    lines.push(labelled_number("dynamic_threshold=", threshold as u64));
    let mut fg = String::from_str("foreground=");
    match foreground {
        Some(f) => fg.append(f),
        None => fg.append("unknown"),
    }
    lines.push(fg);
    lines.push(labelled_flag("dry_run=", config.dry_run));
    assert(crate::config::texts(lines@) =~= status_lines(
        config@,
        state,
        threshold,
        crate::learning::opt_str(foreground),
    ));
    crate::config::join_line_texts(&lines)
}

/// A wait between cycles stays between 60 and 320 seconds. With the screen
/// on or the device charging it is 85 to 110 seconds, growing 5 s a cycle
/// up to six steps, and the screen-off counter starts again at one; with the
/// screen off it is 60 s times the counter, capped at 320 s, the counter
/// doubles (capped at 320) and the screen-on steps start again from zero.
/// The counters stay in their ranges.
pub proof fn lemma_wait_bounds(active: bool, backoff: u32, backoff_on: u32)
    requires
        1 <= backoff <= 320,
        backoff_on <= 6,
    ensures
        ({
            let (secs, b, on) = next_wait(active, backoff, backoff_on);
            &&& 60 <= secs <= 320
            &&& 1 <= b <= 320
            &&& on <= 6
            &&& active ==> 85 <= secs <= 110 && b == 1 && on == if backoff_on < 6 {
                backoff_on + 1
            } else {
                6
            } && secs == 80 + 5 * on
            &&& !active ==> on == 0 && secs == if 60 * backoff < 320 {
                60 * backoff
            } else {
                320
            } && b == if 2 * backoff < 320 {
                2 * backoff
            } else {
                320
            }
        }),
{
}

/// Every policy step acts only on a change: run a second time on the same
/// device state, the charge, low-battery, thermal and sensor steps report
/// nothing and leave the runtime as the first run left it.
pub proof fn lemma_steps_act_once(r: RuntimeView, state: DeviceState, threshold: u8)
    ensures
        ({
            let r1 = charging_transition(r, state).1;
            charging_transition(r1, state) == (ChargingChange::Unchanged, r1)
        }),
        ({
            let r1 = battery_transition(r, state, threshold).1;
            battery_transition(r1, state, threshold) == (None::<bool>, r1)
        }),
        ({
            let r1 = thermal_transition(r, state, threshold).1;
            thermal_transition(r1, state, threshold) == (None::<CommandView>, r1)
        }),
        ({
            let r1 = sensors_transition(r, state, threshold).1;
            sensors_transition(r1, state, threshold) == (None::<CommandView>, r1)
        }),
{
}

/// Airplane mode is switched at most once for the same device state, where
/// the state does not ask for both (a level above the maximum threshold but
/// at or below the given one, while charging with the screen off).
pub proof fn lemma_airplane_acts_once(r: RuntimeView, state: DeviceState, threshold: u8)
    requires
        !(!state.display_on && state.charging && state.level <= threshold && state.level
            > r.config.battery.max_threshold),
    ensures
        ({
            let r1 = airplane_transition(r, state, threshold).1;
            airplane_transition(r1, state, threshold) == (AirplaneStep::Keep, r1)
        }),
{
}

/// The published properties are written only on a change: once the state
/// has been published and the charging step has recorded the charge state,
/// publishing the same state again writes nothing.
pub proof fn lemma_publish_once(p: PreviousState, state: DeviceState)
    ensures
        ({
            let p1 = PreviousState { charging: Some(state.charging), ..published(p, state).1 };
            published(p1, state).0 == Seq::<(Seq<char>, Seq<char>)>::empty()
        }),
{
}

/// Compaction runs at most once while the screen stays off: after a cycle
/// that compacts, a screen-off cycle does not compact again; a screen-on
/// cycle starts the count of screen-off cycles again.
pub proof fn lemma_compaction_once_per_screen_off(r: RuntimeView, off: DeviceState, on: DeviceState)
    requires
        !off.display_on,
        on.display_on,
    ensures
        compaction_transition(r, off).0 ==> !compaction_transition(compaction_transition(r, off).1, off).0,
        r.config.compaction.enabled && on.android_major >= 12 ==> compaction_transition(r, on).1.compaction
            == initial_compaction(),
{
}

/// When the watchdog first saw `p`, or `now` for a package it had not seen.
pub open spec fn first_seen(seen: Seq<(Seq<char>, u64)>, p: Seq<char>, now: u64) -> u64 {
    match seen_at(seen, p) {
        Some(t) => t,
        None => now,
    }
}

/// The watchdog spares the protected packages: it stops only running
/// packages that are not protected and have run for the timeout, and it
/// keeps timing only running packages that are not protected.
pub proof fn lemma_sweep_spares_protected(
    packages: Seq<Seq<char>>,
    protected: Seq<Seq<char>>,
    seen: Seq<(Seq<char>, u64)>,
    now: u64,
    timeout_secs: u64,
)
    ensures
        ({
            let (stopped, kept) = sweep(packages, protected, seen, now, timeout_secs);
            &&& forall|i: int|
                0 <= i < stopped.len() ==> packages.contains(#[trigger] stopped[i]) && !protected.contains(
                    stopped[i],
                ) && reaches(since(now, first_seen(seen, stopped[i], now)), timeout_secs)
            &&& forall|i: int|
                0 <= i < kept.len() ==> packages.contains((#[trigger] kept[i]).0) && !protected.contains(
                    kept[i].0,
                ) && kept[i].1 == first_seen(seen, kept[i].0, now)
        }),
    decreases packages.len(),
{
    if packages.len() > 0 {
        let n = packages.len();
        let init = packages.subrange(0, n - 1);
        lemma_sweep_spares_protected(init, protected, seen, now, timeout_secs);
        let rest = sweep(init, protected, seen, now, timeout_secs);
        let (stopped, kept) = sweep(packages, protected, seen, now, timeout_secs);
        assert forall|i: int| 0 <= i < stopped.len() implies packages.contains(#[trigger] stopped[i]) && !protected.contains(
            stopped[i],
        ) && reaches(since(now, first_seen(seen, stopped[i], now)), timeout_secs) by {
            if i < rest.0.len() {
                assert(stopped[i] == rest.0[i]);
                let j = choose|j: int| 0 <= j < init.len() && init[j] == rest.0[i];
                assert(packages[j] == init[j]);
            } else {
                assert(stopped[i] == packages[n - 1]);
            }
        }
        assert forall|i: int| 0 <= i < kept.len() implies packages.contains((#[trigger] kept[i]).0) && !protected.contains(
            kept[i].0,
        ) && kept[i].1 == first_seen(seen, kept[i].0, now) by {
            if i < rest.1.len() {
                assert(kept[i] == rest.1[i]);
                let j = choose|j: int| 0 <= j < init.len() && init[j] == rest.1[i].0;
                assert(packages[j] == init[j]);
            } else {
                assert(kept[i].0 == packages[n - 1]);
            }
        }
    }
}

/// The job cancels name only packages that are not protected, one command
/// per such package, in order.
pub proof fn lemma_job_cancels_spare_protected(packages: Seq<Seq<char>>, protected: Seq<Seq<char>>)
    ensures
        forall|i: int|
            0 <= i < job_cancels(packages, protected).len() ==> exists|j: int|
                0 <= j < packages.len() && !protected.contains(packages[j])
                    && #[trigger] job_cancels(packages, protected)[i] == run(
                    "cmd"@,
                    seq!["jobscheduler"@, "cancel"@, packages[j]],
                ),
    decreases packages.len(),
{
    if packages.len() > 0 {
        let n = packages.len();
        let init = packages.subrange(0, n - 1);
        lemma_job_cancels_spare_protected(init, protected);
        let a = job_cancels(init, protected);
        let all = job_cancels(packages, protected);
        assert forall|i: int| 0 <= i < all.len() implies exists|j: int|
            0 <= j < packages.len() && !protected.contains(packages[j]) && #[trigger] all[i] == run(
                "cmd"@,
                seq!["jobscheduler"@, "cancel"@, packages[j]],
            ) by {
            if i < a.len() {
                assert(all[i] == a[i]);
                let j = choose|j: int|
                    0 <= j < init.len() && !protected.contains(init[j]) && a[i] == run(
                        "cmd"@,
                        seq!["jobscheduler"@, "cancel"@, init[j]],
                    );
                assert(packages[j] == init[j]);
            } else {
                assert(all[i] == run("cmd"@, seq!["jobscheduler"@, "cancel"@, packages[n - 1]]));
            }
        }
    }
}

/// The runtime after `k` compaction steps on the same device state.
pub open spec fn compaction_after(r: RuntimeView, state: DeviceState, k: nat) -> RuntimeView
    decreases k,
{
    if k == 0 {
        r
    } else {
        compaction_transition(compaction_after(r, state, (k - 1) as nat), state).1
    }
}

/// With compaction on (Android 12 and later), from a fresh count, the screen
/// staying off: the first `hardlock_ticks - 1` cycles only count, and the
/// cycle that brings the count to `hardlock_ticks` compacts.
pub proof fn lemma_compaction_waits_for_hardlock_ticks(r: RuntimeView, state: DeviceState, k: nat)
    requires
        r.compaction == initial_compaction(),
        r.config.compaction.enabled,
        state.android_major >= 12,
        !state.display_on,
        k < r.config.compaction.hardlock_ticks,
    ensures
        compaction_after(r, state, k).compaction == (CompactionState { screen_off_ticks: k as u32, compacted: false }),
        compaction_after(r, state, k).config == r.config,
        compaction_transition(compaction_after(r, state, k), state).0 == (k + 1
            == r.config.compaction.hardlock_ticks),
    decreases k,
{
    if k > 0 {
        lemma_compaction_waits_for_hardlock_ticks(r, state, (k - 1) as nat);
    }
}


/// Below Android 12, or with compaction off, the compaction step never
/// compacts and changes nothing.
pub proof fn lemma_no_compaction_before_android_12(r: RuntimeView, state: DeviceState)
    requires
        state.android_major < 12 || !r.config.compaction.enabled,
    ensures
        !compaction_transition(r, state).0,
        compaction_transition(r, state).1 == r,
{
}

proof fn lemma_trim_start_push(s: Seq<char>, c: char)
    ensures
        crate::text::trim_start(s.push(c)) == if crate::text::trim_start(s).len() > 0 {
            crate::text::trim_start(s).push(c)
        } else {
            crate::text::trim_start(seq![c])
        },
    decreases s.len(),
{
    if s.len() == 0 {
        assert(s.push(c) =~= seq![c]);
    } else if crate::text::is_ws(s[0]) {
        let t = s.subrange(1, s.len() as int);
        assert(s.push(c).subrange(1, s.len() as int + 1) =~= t.push(c));
        lemma_trim_start_push(t, c);
    }
}

/// What setup backs up of the forced-app-standby setting is restored as
/// the setting's value, trimmed, whether or not a placeholder was left.
pub proof fn lemma_standby_backup_restored(value: Seq<char>, placeholder: bool)
    requires
        crate::android::standby_backup(value) is Some,
    ensures
        standby_restore(crate::android::standby_backup(value), placeholder) == Some(
            run_ignoring(
                "cmd"@,
                seq!["settings"@, "put"@, "global"@, "forced_app_standby_enabled"@, crate::text::trim(value)],
            ),
        ),
{
    let b = value + seq!['\n'];
    assert(b =~= value.push('\n'));
    lemma_trim_start_push(value, '\n');
    let ts = crate::text::trim_start(value);
    assert(crate::text::is_ws('\n'));
    if ts.len() > 0 {
        assert(ts.push('\n').subrange(0, ts.len() as int) =~= ts);
        assert(crate::text::trim(b) == crate::text::trim_end(ts));
    } else {
        let one = seq!['\n'];
        let e = Seq::<char>::empty();
        assert(one[0] == '\n');
        assert(one.subrange(1, 1) =~= e);
        assert(crate::text::trim_start(e) == e);
        assert(crate::text::trim_start(one) == e);
        assert(ts =~= e);
        assert(crate::text::trim_end(e) == e);
        assert(crate::text::trim(b) == e);
        assert(crate::text::trim(value) == e);
    }
}

/// The protected packages with the foreground package, where known, as the
/// watchdog is given them.
pub open spec fn protected_with_foreground(
    whitelist: Option<Seq<char>>,
    foreground: Option<Seq<char>>,
) -> Seq<Seq<char>> {
    match foreground {
        Some(p) => crate::android::push_unique(crate::android::protected_from(whitelist), p),
        None => crate::android::protected_from(whitelist),
    }
}

proof fn lemma_protected_with_foreground(whitelist: Option<Seq<char>>, foreground: Option<Seq<char>>)
    ensures
        forall|x: Seq<char>|
            crate::android::protected_from(whitelist).contains(x) ==> #[trigger] protected_with_foreground(
                whitelist,
                foreground,
            ).contains(x),
        foreground matches Some(p) ==> protected_with_foreground(whitelist, foreground).contains(p),
{
    let w = crate::android::protected_from(whitelist);
    match foreground {
        Some(p) => {
            if !w.contains(p) {
                assert(w.push(p)[w.len() as int] == p);
                assert forall|x: Seq<char>| w.contains(x) implies #[trigger] w.push(p).contains(x) by {
                    let k = choose|k: int| 0 <= k < w.len() && w[k] == x;
                    assert(w.push(p)[k] == x);
                }
            }
        },
        None => {},
    }
}

/// Whitelisted packages and the foreground package are never stopped: the
/// watchdog sweep stops none of them, and no job cancel names one.
pub proof fn lemma_whitelist_and_foreground_never_stopped(
    packages: Seq<Seq<char>>,
    whitelist: Option<Seq<char>>,
    foreground: Option<Seq<char>>,
    seen: Seq<(Seq<char>, u64)>,
    now: u64,
    timeout_secs: u64,
)
    ensures
        ({
            let stopped = sweep(packages, protected_with_foreground(whitelist, foreground), seen, now, timeout_secs).0;
            forall|i: int|
                0 <= i < stopped.len() ==> !crate::android::protected_from(whitelist).contains(
                    #[trigger] stopped[i],
                ) && foreground != Some(stopped[i])
        }),
        ({
            let cancels = job_cancels(packages, protected_with_foreground(whitelist, foreground));
            forall|i: int|
                0 <= i < cancels.len() ==> exists|j: int|
                    0 <= j < packages.len() && !crate::android::protected_from(whitelist).contains(packages[j])
                        && foreground != Some(packages[j]) && #[trigger] cancels[i] == run(
                        "cmd"@,
                        seq!["jobscheduler"@, "cancel"@, packages[j]],
                    )
        }),
{
    let prot = protected_with_foreground(whitelist, foreground);
    lemma_protected_with_foreground(whitelist, foreground);
    lemma_sweep_spares_protected(packages, prot, seen, now, timeout_secs);
    lemma_job_cancels_spare_protected(packages, prot);
    let cancels = job_cancels(packages, prot);
    assert forall|i: int| 0 <= i < cancels.len() implies exists|j: int|
        0 <= j < packages.len() && !crate::android::protected_from(whitelist).contains(packages[j])
            && foreground != Some(packages[j]) && #[trigger] cancels[i] == run(
            "cmd"@,
            seq!["jobscheduler"@, "cancel"@, packages[j]],
        ) by {
        let j = choose|j: int|
            0 <= j < packages.len() && !prot.contains(packages[j]) && cancels[i] == run(
                "cmd"@,
                seq!["jobscheduler"@, "cancel"@, packages[j]],
            );
        assert(!crate::android::protected_from(whitelist).contains(packages[j]));
    }
}

/// No package has two pairs in `seen`.
pub open spec fn names_once(seen: Seq<(Seq<char>, u64)>) -> bool {
    forall|i: int, j: int| 0 <= i < j < seen.len() ==> #[trigger] seen[i].0 != #[trigger] seen[j].0
}

/// Each package is timed at most once: where the running packages are
/// listed once each, so are the packages the sweep keeps timing.
pub proof fn lemma_sweep_times_each_package_once(
    packages: Seq<Seq<char>>,
    protected: Seq<Seq<char>>,
    seen: Seq<(Seq<char>, u64)>,
    now: u64,
    timeout_secs: u64,
)
    requires
        packages.no_duplicates(),
    ensures
        names_once(sweep(packages, protected, seen, now, timeout_secs).1),
    decreases packages.len(),
{
    if packages.len() > 0 {
        let n = packages.len();
        let init = packages.subrange(0, n - 1);
        assert(init.no_duplicates());
        lemma_sweep_times_each_package_once(init, protected, seen, now, timeout_secs);
        lemma_sweep_spares_protected(init, protected, seen, now, timeout_secs);
        let rest = sweep(init, protected, seen, now, timeout_secs).1;
        let kept = sweep(packages, protected, seen, now, timeout_secs).1;
        let p = packages[n - 1];
        assert(!init.contains(p)) by {
            if init.contains(p) {
                let k = choose|k: int| 0 <= k < init.len() && init[k] == p;
                assert(packages[k] == packages[n - 1]);
            }
        }
        assert forall|i: int, j: int| 0 <= i < j < kept.len() implies #[trigger] kept[i].0 != #[trigger] kept[j].0 by {
            if j >= rest.len() {
                assert(kept[i] == rest[i]);
                assert(init.contains(rest[i].0));
                assert(kept[j].0 == p);
            } else {
                assert(kept[i] == rest[i]);
                assert(kept[j] == rest[j]);
            }
        }
    }
}


/// The runtime after the charge-state steps for `states`, in order.
pub open spec fn charging_run(r: RuntimeView, states: Seq<DeviceState>) -> RuntimeView
    decreases states.len(),
{
    if states.len() == 0 {
        r
    } else {
        charging_transition(charging_run(r, states.drop_last()), states.last()).1
    }
}

/// Over a run of cycles, each cycle's charge-state change compares it with
/// the cycle before (with what the runtime remembered, for the first): the
/// cycle reports being plugged in exactly where it is charging and the one
/// before was not, unplugged exactly where it is not charging and the one
/// before was, and nothing otherwise; the configuration stays as it was.
pub proof fn lemma_charging_sequence(r: RuntimeView, states: Seq<DeviceState>, i: int)
    requires
        0 <= i < states.len(),
    ensures
        ({
            let before = if i == 0 {
                r.previous.charging
            } else {
                Some(states[i - 1].charging)
            };
            let change = charging_transition(charging_run(r, states.take(i)), states[i]).0;
            &&& charging_run(r, states.take(i)).previous.charging == before
            &&& charging_run(r, states.take(i)).config == r.config
            &&& (change == ChargingChange::PluggedIn) == (states[i].charging && before != Some(true))
            &&& (change == ChargingChange::Unplugged) == (!states[i].charging && before != Some(false))
            &&& (change == ChargingChange::Unchanged) == (before == Some(states[i].charging))
        }),
    decreases i,
{
    if i == 0 {
        assert(states.take(0) =~= Seq::<DeviceState>::empty());
    } else {
        lemma_charging_sequence(r, states, i - 1);
        assert(states.take(i).drop_last() =~= states.take(i - 1));
        assert(states.take(i).last() == states[i - 1]);
    }
}


/// The runtime after the fast-idle cycles for `states`, the light idle
/// state reading `lights[k]` in cycle `k`.
pub open spec fn fast_idle_run(r: RuntimeView, states: Seq<DeviceState>, lights: Seq<Seq<char>>) -> RuntimeView
    decreases states.len(),
{
    if states.len() == 0 || lights.len() < states.len() {
        r
    } else {
        fast_idle_cycle(
            fast_idle_run(r, states.drop_last(), lights.subrange(0, states.len() - 1)),
            states.last(),
            lights[states.len() - 1],
        ).1
    }
}

/// Screen off and not charging.
pub open spec fn idle_state(state: DeviceState) -> bool {
    !state.display_on && !state.charging
}

proof fn lemma_fast_idle_run_keeps_deep(
    r: RuntimeView,
    states: Seq<DeviceState>,
    lights: Seq<Seq<char>>,
    i: int,
    k: int,
)
    requires
        0 <= i < k <= states.len() <= lights.len(),
        forall|m: int| i < m < states.len() ==> idle_state(#[trigger] states[m]),
        fast_idle_run(r, states.take(i + 1), lights.take(i + 1)).previous.deep_idle_once,
    ensures
        fast_idle_run(r, states.take(k), lights.take(k)) == fast_idle_run(r, states.take(i + 1), lights.take(i + 1)),
    decreases k,
{
    if k > i + 1 {
        lemma_fast_idle_run_keeps_deep(r, states, lights, i, k - 1);
        assert(states.take(k).drop_last() =~= states.take(k - 1));
        assert(lights.take(k).subrange(0, k - 1) =~= lights.take(k - 1));
        assert(states.take(k).last() == states[k - 1]);
        assert(idle_state(states[k - 1]));
    }
}

/// Deep idle is forced once per screen-off period: once a cycle has sent
/// the deep-idle call, no later cycle sends anything while the screen stays
/// off and the device does not charge, whatever the light idle state reads.
pub proof fn lemma_deep_idle_sent_once(
    r: RuntimeView,
    states: Seq<DeviceState>,
    lights: Seq<Seq<char>>,
    i: int,
    j: int,
)
    requires
        0 <= i < j < states.len(),
        lights.len() == states.len(),
        forall|m: int| i < m < states.len() ==> idle_state(#[trigger] states[m]),
        fast_idle_cycle(fast_idle_run(r, states.take(i), lights.take(i)), states[i], lights[i]).0
            == seq![batterystats_command("2"@, true)],
    ensures
        fast_idle_cycle(fast_idle_run(r, states.take(j), lights.take(j)), states[j], lights[j]).0
            == Seq::<CommandView>::empty(),
{
    assert(states.take(i + 1).drop_last() =~= states.take(i));
    assert(lights.take(i + 1).subrange(0, i) =~= lights.take(i));
    assert(states.take(i + 1).last() == states[i]);
    let before = fast_idle_run(r, states.take(i), lights.take(i));
    let zero = batterystats_command("0"@, false);
    let one = batterystats_command("1"@, false);
    let two = batterystats_command("2"@, true);
    assert(seq![zero][0] != two);
    assert(seq![one][0] != two);
    assert(fast_idle_run(r, states.take(i + 1), lights.take(i + 1)).previous.deep_idle_once);
    lemma_fast_idle_run_keeps_deep(r, states, lights, i, j);
    assert(idle_state(states[j]));
}

/// Fast idle needs Android 12 and doze: otherwise a cycle sends nothing and
/// changes nothing. With the screen on (or while charging) a forced idle
/// state is released once: the next such cycle sends nothing.
pub proof fn lemma_fast_idle_release(r: RuntimeView, on: DeviceState, light: Seq<char>, light2: Seq<char>)
    ensures
        !r.config.doze.enabled || on.android_major <= 11 ==> fast_idle_cycle(r, on, light) == (
            Seq::<CommandView>::empty(),
            r,
        ),
        on.display_on || on.charging ==> fast_idle_cycle(fast_idle_cycle(r, on, light).1, on, light2).0
            == Seq::<CommandView>::empty(),
{
}


/// The screen timeout that setup backs up is the one removal restores:
/// where the setting held a number `t`, the backup file's text restores
/// exactly `t`.
pub proof fn lemma_screen_timeout_backup_restored(setting: Seq<char>)
    requires
        crate::android::timeout_backup(setting) is Some,
    ensures
        timeout_restore(Some(crate::android::timeout_file((crate::android::timeout_backup(setting)->0).0)))
            == Some(
            run_ignoring(
                "cmd"@,
                seq![
                    "settings"@,
                    "put"@,
                    "system"@,
                    "screen_off_timeout"@,
                    decimal((crate::android::timeout_backup(setting)->0).0 as nat),
                ],
            ),
        ),
{
    let t = (crate::android::timeout_backup(setting)->0).0;
    let d = decimal(t as nat);
    crate::text::lemma_decimal_plain(t as nat);
    crate::text::lemma_decimal_digits(t as nat);
    let f = crate::android::timeout_file(t);
    assert(f =~= d.push('\n'));
    assert(!crate::text::is_ws(d[0]));
    assert(crate::text::trim_start(d) == d);
    lemma_trim_start_push(d, '\n');
    assert(crate::text::trim_start(f) == f);
    assert(crate::text::is_ws('\n'));
    assert(f.subrange(0, d.len() as int) =~= d);
    assert(crate::text::trim_end(d) == d);
    assert(crate::text::trim(f) == d);
}


/// Low battery turns battery saver on and a recovered battery turns it off:
/// for every configuration, level side, refresh rate and timeout, the first
/// low-battery command is `cmd power set-mode 1` when low and
/// `cmd power set-mode 0` otherwise, and the small-battery standby setting
/// follows the same side.
pub proof fn lemma_battery_saver_follows_level(
    c: UtensilConfigView,
    low: bool,
    refresh_rate: Option<Seq<char>>,
    screen_timeout_ms: Option<u64>,
)
    ensures
        battery_commands(c, low, refresh_rate, screen_timeout_ms).0.len() >= 3,
        battery_commands(c, low, refresh_rate, screen_timeout_ms).0[0] == run(
            "cmd"@,
            seq!["power"@, "set-mode"@, if low { "1"@ } else { "0"@ }],
        ),
        battery_commands(c, low, refresh_rate, screen_timeout_ms).0[1].args == seq![
            "settings"@,
            "put"@,
            "global"@,
            "forced_app_standby_for_small_battery_enabled"@,
            if low { "1"@ } else { "0"@ },
        ],
{
}

/// The screen-on total once the time since the last tick `t` is booked:
/// grown by that time where the display was on at `t`.
pub open spec fn screen_on_after(d: DrainState, now: u64, t: u64) -> int {
    if d.last_display_on {
        d.screen_on + (now - t)
    } else {
        d.screen_on as int
    }
}

/// The screen-off total once the time since the last tick `t` is booked:
/// grown by that time where the display was off at `t`.
pub open spec fn screen_off_after(d: DrainState, now: u64, t: u64) -> int {
    if d.last_display_on {
        d.screen_off as int
    } else {
        d.screen_off + (now - t)
    }
}

/// Screen time is booked by the screen's state since the last tick: with
/// the display off since then, the time passed is added to the screen-off
/// total and the screen-on total stays; with it on, the reverse. Whatever
/// the cycle reports uses these totals (in minutes), and where it reports
/// nothing the state keeps them.
pub proof fn lemma_drain_books_screen_time(d: DrainState, state: DeviceState, now: u64, t: u64)
    requires
        d.last_tick == Some(t),
        t <= now,
        d.screen_on + (now - t) <= u64::MAX,
        d.screen_off + (now - t) <= u64::MAX,
    ensures
        drain_ticked(d, state, now).screen_on == if d.last_display_on { d.screen_on + (now - t) } else { d.screen_on as int },
        drain_ticked(d, state, now).screen_off == if d.last_display_on { d.screen_off as int } else { d.screen_off + (now - t) },
        drain_outcome(d, state, now).0 is None ==> drain_outcome(d, state, now).1.screen_on == if d.last_display_on {
            d.screen_on + (now - t)
        } else {
            d.screen_on as int
        },
        drain_outcome(d, state, now).0 is None ==> drain_outcome(d, state, now).1.screen_off == if d.last_display_on {
            d.screen_off as int
        } else {
            d.screen_off + (now - t)
        },
        drain_outcome(d, state, now).0 matches Some(p) ==> exists|per_hour: nat, secs: nat, day: nat|
            p.0 == #[trigger] drain_property(
                per_hour,
                (screen_on_after(d, now, t) / NANOS_PER_SEC as int / 60) as nat,
                (screen_off_after(d, now, t) / NANOS_PER_SEC as int / 60) as nat,
                secs,
                day,
            ),
{
    let k = drain_ticked(d, state, now);
    let o = drain_outcome(d, state, now);
    let on_total: int = if d.last_display_on { d.screen_on + (now - t) } else { d.screen_on as int };
    let off_total: int = if d.last_display_on { d.screen_off as int } else { d.screen_off + (now - t) };
    assert(since(now, t) == now - t);
    assert(k.screen_on == on_total);
    assert(k.screen_off == off_total);
    if o.0 is Some {
        let rt = k.reference_time->0;
        let elapsed = since(now, rt);
        let rl = match k.reference_level {
            Some(l) => l,
            None => state.level,
        };
        let lost = sat_sub(rl, state.level);
        let secs = elapsed / NANOS_PER_SEC;
        let per_hour = (lost as nat) * 3600 / (if secs >= 1 {
            secs as nat
        } else {
            1nat
        });
        let start = match k.drain_24h_start_time {
            Some(s) => s,
            None => now,
        };
        let start_level = match k.drain_24h_start_time {
            Some(_) => k.drain_24h_start_level,
            None => state.level,
        };
        let reset = since(now, start) >= 86400 * NANOS_PER_SEC;
        let day = if reset {
            sat_sub(start_level, state.level)
        } else {
            k.drain_24h
        };
        assert((o.0->0).0 == drain_property(
            per_hour,
            (k.screen_on / NANOS_PER_SEC / 60) as nat,
            (k.screen_off / NANOS_PER_SEC / 60) as nat,
            secs as nat,
            day as nat,
        ));
        assert((k.screen_on / NANOS_PER_SEC / 60) as nat == (on_total / NANOS_PER_SEC as int / 60) as nat);
        assert((k.screen_off / NANOS_PER_SEC / 60) as nat == (off_total / NANOS_PER_SEC as int / 60) as nat);
        assert((o.0->0).0 == drain_property(
            per_hour,
            (screen_on_after(d, now, t) / NANOS_PER_SEC as int / 60) as nat,
            (screen_off_after(d, now, t) / NANOS_PER_SEC as int / 60) as nat,
            secs as nat,
            day as nat,
        ));
    }
}

} // verus!
