//! Reading back the configuration that the tool prints: the printed text
//! of a configuration parses to that configuration.
use vstd::prelude::*;
use crate::config::{
    apply_line, apply_lines, apply_setting, battery_core_lines, battery_lines,
    battery_optional_lines, bool_text, bool_value, config_lines, config_text, feature_lines,
    feature_rest_lines, feature_switch_lines, head_lines, join_lines, lemma_join_front,
    parse_config_spec, path_lines, thermal_lines, BatteryConfigView, CompactionConfig,
    ConfigErrorView, FeatureConfig, PathConfigView, ThermalConfig, UtensilConfigView,
    WatchdogConfig,
};
use crate::config::{opt_i32_text, opt_u64_text, opt_value_text, optional_text};
use crate::text::{decimal, lower_eq, parse_i32, parse_unsigned, signed_decimal, trim};

verus! {

/// The lines `ls` applied in order from line number `n`, as `apply_lines`
/// applies the lines of a text.
#[verifier::opaque]
pub open spec fn apply_all(ls: Seq<Seq<char>>, n: nat, c: UtensilConfigView) -> Result<
    UtensilConfigView,
    ConfigErrorView,
>
    decreases ls.len(),
{
    if ls.len() == 0 {
        Ok(c)
    } else {
        match apply_line(ls[0], n, c) {
            Err(e) => Err(e),
            Ok(c2) => apply_all(ls.subrange(1, ls.len() as int), n + 1, c2),
        }
    }
}

proof fn lemma_apply_lines_join(ls: Seq<Seq<char>>, n: nat, c: UtensilConfigView)
    requires
        forall|i: int| 0 <= i < ls.len() ==> crate::text::no_newline(#[trigger] ls[i]),
    ensures
        apply_lines(join_lines(ls), n, c) == apply_all(ls, n, c),
    decreases ls.len(),
{
    reveal(apply_all);
    if ls.len() == 0 {
        assert(trim(Seq::<char>::empty()) =~= Seq::<char>::empty());
        assert(join_lines(ls) =~= Seq::<char>::empty());
        assert(Seq::<char>::empty().subrange(0, 0) =~= Seq::<char>::empty());
    } else {
        lemma_join_front(ls);
        let rest = ls.subrange(1, ls.len() as int);
        assert forall|i: int| 0 <= i < rest.len() implies crate::text::no_newline(#[trigger] rest[i]) by {
            assert(rest[i] == ls[i + 1]);
        }
        let t = join_lines(ls);
        let l0 = ls[0];
        assert(crate::text::no_newline(l0));
        assert forall|x: int| 0 <= x < l0.len() implies t[x] != '\n' by {
            assert(t[x] == l0[x]);
        }
        assert(t[l0.len() as int] == '\n');
        crate::text::lemma_index_of(t, '\n', l0.len() as int);
        assert(t.subrange(0, l0.len() as int) =~= l0);
        assert(t.subrange(l0.len() as int + 1, t.len() as int) =~= join_lines(rest));
        match apply_line(l0, n, c) {
            Err(e) => {},
            Ok(c2) => {
                lemma_apply_lines_join(rest, n + 1, c2);
            },
        }
    }
}

proof fn lemma_apply_all_step(ls: Seq<Seq<char>>, k: int, n: nat, x: UtensilConfigView, y: UtensilConfigView)
    requires
        0 <= k < ls.len(),
        apply_line(ls[k], n, x) == Ok::<UtensilConfigView, ConfigErrorView>(y),
    ensures
        apply_all(ls.subrange(k, ls.len() as int), n, x) == apply_all(
            ls.subrange(k + 1, ls.len() as int),
            n + 1,
            y,
        ),
{
    reveal(apply_all);
    let s = ls.subrange(k, ls.len() as int);
    assert(s[0] == ls[k]);
    assert(s.subrange(1, s.len() as int) =~= ls.subrange(k + 1, ls.len() as int));
}

proof fn lemma_apply_all_concat(a: Seq<Seq<char>>, b: Seq<Seq<char>>, n: nat, c: UtensilConfigView)
    ensures
        apply_all(a + b, n, c) == match apply_all(a, n, c) {
            Ok(c2) => apply_all(b, n + a.len(), c2),
            Err(e) => Err(e),
        },
    decreases a.len(),
{
    reveal(apply_all);
    if a.len() == 0 {
        assert(a + b =~= b);
    } else {
        let ab = a + b;
        assert(ab[0] == a[0]);
        assert(ab.subrange(1, ab.len() as int) =~= a.subrange(1, a.len() as int) + b);
        match apply_line(a[0], n, c) {
            Err(e) => {},
            Ok(c2) => {
                lemma_apply_all_concat(a.subrange(1, a.len() as int), b, n + 1, c2);
            },
        }
    }
}

proof fn lemma_apply_all_nil(ls: Seq<Seq<char>>, n: nat, x: UtensilConfigView)
    requires
        ls.len() == 0,
    ensures
        apply_all(ls, n, x) == Ok::<UtensilConfigView, ConfigErrorView>(x),
{
    reveal(apply_all);
}

/// A clean `key=value` line applies that setting.
proof fn lemma_setting_line(k: Seq<char>, v: Seq<char>, n: nat, c: UtensilConfigView)
    requires
        crate::text::clean_key(k),
        crate::text::clean_value(v),
    ensures
        apply_line(k + "="@ + v, n, c) == apply_setting(k, v, n, c),
        crate::text::no_newline(k + "="@ + v),
{
    reveal_strlit("=");
    let s = k + "="@ + v;
    assert(s[0] == k[0]);
    assert(!crate::text::is_ws('='));
    assert(s[s.len() - 1] == if v.len() > 0 {
        v[v.len() - 1]
    } else {
        '='
    });
    assert(crate::text::trim_start(s) == s);
    assert(crate::text::trim_end(s) == s);
    assert forall|j: int| 0 <= j < k.len() implies s[j] != '=' by {
        assert(s[j] == k[j]);
    }
    assert(s[k.len() as int] == '=');
    crate::text::lemma_index_of(s, '=', k.len() as int);
    assert(s.subrange(0, k.len() as int) =~= k);
    assert(s.subrange(k.len() as int + 1, s.len() as int) =~= v);
    assert(crate::text::trim_start(k) == k);
    assert(crate::text::trim_end(k) == k);
    if v.len() > 0 {
        assert(crate::text::trim_start(v) == v);
        assert(crate::text::trim_end(v) == v);
    }
    assert forall|j: int| 0 <= j < s.len() implies s[j] != '\n' by {
        if j < k.len() {
            assert(s[j] == k[j]);
        } else if j > k.len() {
            assert(s[j] == v[j - k.len() - 1]);
        }
    }
}

proof fn lemma_bool_text(b: bool)
    ensures
        crate::text::clean_value(bool_text(b)),
        bool_value(bool_text(b)) == Some(b),
{
    reveal_strlit("true");
    reveal_strlit("false");
    reveal_strlit("1");
    reveal_strlit("yes");
    reveal_strlit("on");
    reveal_strlit("0");
    reveal_strlit("no");
    reveal_strlit("off");
    if b {
        assert(lower_eq("true"@, "true"@));
    } else {
        assert(!lower_eq("false"@, "true"@));
        assert(!lower_eq("false"@, "1"@));
        assert(!lower_eq("false"@, "yes"@));
        assert(!lower_eq("false"@, "on"@));
        assert(lower_eq("false"@, "false"@));
    }
}

proof fn lemma_number_text(n: nat, max: nat)
    requires
        n <= max,
    ensures
        crate::text::clean_value(decimal(n)),
        parse_unsigned(decimal(n), max) == Some(n),
{
    crate::text::lemma_decimal_plain(n);
    crate::text::lemma_decimal_digits(n);
    crate::text::lemma_parse_decimal(n, max);
}

/// A signed number is printed as text that reads back as that number.
proof fn lemma_signed_text(v: i32)
    ensures
        crate::text::clean_value(signed_decimal(v as int)),
        signed_decimal(v as int).len() > 0,
        parse_i32(signed_decimal(v as int)) == Some(v as int),
{
    if v < 0 {
        let m: nat = (-(v as int)) as nat;
        let d = decimal(m);
        crate::text::lemma_decimal_plain(m);
        crate::text::lemma_decimal_digits(m);
        let s = signed_decimal(v as int);
        assert(s == seq!['-'] + d);
        assert(s[0] == '-');
        assert(s.subrange(1, s.len() as int) =~= d);
        assert(s[s.len() - 1] == d[d.len() - 1]);
        assert forall|i: int| 0 <= i < s.len() implies s[i] != '\n' by {
            if i > 0 {
                assert(s[i] == d[i - 1]);
            }
        }
    } else {
        lemma_number_text(v as nat, 0x7fff_ffff);
        crate::text::lemma_decimal_digits(v as nat);
    }
}

/// An optional text setting is printed so that it reads back unchanged,
/// where a set value is not empty and has no line break or whitespace at its
/// ends.
proof fn lemma_opt_value_text(o: Option<Seq<char>>)
    requires
        o is Some ==> o->0.len() > 0 && crate::text::clean_value(o->0),
    ensures
        crate::text::clean_value(opt_value_text(o)),
        optional_text(opt_value_text(o)) == o,
{
}

/// An optional number setting is printed so that it reads back unchanged.
proof fn lemma_opt_u64_text(o: Option<u64>)
    ensures
        crate::text::clean_value(opt_u64_text(o)),
        (opt_u64_text(o).len() == 0) == (o is None),
        o is Some ==> parse_unsigned(opt_u64_text(o), u64::MAX as nat) == Some(o->0 as nat),
{
    if o is Some {
        lemma_number_text(o->0 as nat, u64::MAX as nat);
        crate::text::lemma_decimal_digits(o->0 as nat);
    }
}

/// An optional signed setting is printed so that it reads back unchanged.
proof fn lemma_opt_i32_text(o: Option<i32>)
    ensures
        crate::text::clean_value(opt_i32_text(o)),
        (opt_i32_text(o).len() == 0) == (o is None),
        o is Some ==> parse_i32(opt_i32_text(o)) == Some(o->0 as int),
{
    if o is Some {
        lemma_signed_text(o->0);
    }
}

/// What the printed setting names are: their lengths, that they read
/// back as written, and that names of one length differ.
proof fn lemma_setting_names()
    ensures
        "battery.enabled"@.len() == 15,
        "battery.dynamic_threshold"@.len() == 25,
        "battery.min_threshold"@.len() == 21,
        "battery.max_threshold"@.len() == 21,
        "battery.learn_min_points"@.len() == 24,
        "battery.learn_max_points"@.len() == 24,
        "battery.force_app_standby"@.len() == 25,
        "battery.dnd_while_charging"@.len() == 26,
        "battery.refresh_rate_low"@.len() == 24,
        "battery.refresh_rate_default"@.len() == 28,
        "battery.screen_timeout_low_ms"@.len() == 29,
        "battery.screen_timeout_default_ms"@.len() == 33,
        "battery.samsung_restricted_performance"@.len() == 38,
        "battery.background_process_limit_low"@.len() == 36,
        "battery.background_process_limit_default"@.len() == 40,
        "thermal.enabled"@.len() == 15,
        "thermal.charging_status"@.len() == 23,
        "thermal.charging_done_status"@.len() == 28,
        "thermal.discharging_normal"@.len() == 26,
        "thermal.discharging_low"@.len() == 23,
        "thermal.discharging_critical"@.len() == 28,
        "thermal.critical_level"@.len() == 22,
        "sensors.enabled"@.len() == 15,
        "airplane.enabled"@.len() == 16,
        "doze.enabled"@.len() == 12,
        "compaction.enabled"@.len() == 18,
        "compaction.hardlock_ticks"@.len() == 25,
        "watchdog.enabled"@.len() == 16,
        "watchdog.jobscheduler"@.len() == 21,
        "watchdog.timeout_secs"@.len() == 21,
        "watchdog.idle_threshold_secs"@.len() == 28,
        "drain.enabled"@.len() == 13,
        "notification.enabled"@.len() == 20,
        "logging.enabled"@.len() == 15,
        "dry_run"@.len() == 7,
        "path.learning_file"@.len() == 18,
        "path.threshold_file"@.len() == 19,
        "path.whitelist_file"@.len() == 19,
        "path.drain_log_file"@.len() == 19,
        "path.packages_xml"@.len() == 17,
        crate::text::clean_key("battery.enabled"@),
        "battery.enabled="@ == "battery.enabled"@ + "="@,
        crate::text::clean_key("battery.dynamic_threshold"@),
        "battery.dynamic_threshold="@ == "battery.dynamic_threshold"@ + "="@,
        crate::text::clean_key("battery.min_threshold"@),
        "battery.min_threshold="@ == "battery.min_threshold"@ + "="@,
        crate::text::clean_key("battery.max_threshold"@),
        "battery.max_threshold="@ == "battery.max_threshold"@ + "="@,
        crate::text::clean_key("battery.learn_min_points"@),
        "battery.learn_min_points="@ == "battery.learn_min_points"@ + "="@,
        crate::text::clean_key("battery.learn_max_points"@),
        "battery.learn_max_points="@ == "battery.learn_max_points"@ + "="@,
        crate::text::clean_key("battery.force_app_standby"@),
        "battery.force_app_standby="@ == "battery.force_app_standby"@ + "="@,
        crate::text::clean_key("battery.dnd_while_charging"@),
        "battery.dnd_while_charging="@ == "battery.dnd_while_charging"@ + "="@,
        crate::text::clean_key("battery.refresh_rate_low"@),
        "battery.refresh_rate_low="@ == "battery.refresh_rate_low"@ + "="@,
        crate::text::clean_key("battery.refresh_rate_default"@),
        "battery.refresh_rate_default="@ == "battery.refresh_rate_default"@ + "="@,
        crate::text::clean_key("battery.screen_timeout_low_ms"@),
        "battery.screen_timeout_low_ms="@ == "battery.screen_timeout_low_ms"@ + "="@,
        crate::text::clean_key("battery.screen_timeout_default_ms"@),
        "battery.screen_timeout_default_ms="@ == "battery.screen_timeout_default_ms"@ + "="@,
        crate::text::clean_key("battery.samsung_restricted_performance"@),
        "battery.samsung_restricted_performance="@ == "battery.samsung_restricted_performance"@ + "="@,
        crate::text::clean_key("battery.background_process_limit_low"@),
        "battery.background_process_limit_low="@ == "battery.background_process_limit_low"@ + "="@,
        crate::text::clean_key("battery.background_process_limit_default"@),
        "battery.background_process_limit_default="@ == "battery.background_process_limit_default"@ + "="@,
        crate::text::clean_key("thermal.enabled"@),
        "thermal.enabled="@ == "thermal.enabled"@ + "="@,
        crate::text::clean_key("thermal.charging_status"@),
        "thermal.charging_status="@ == "thermal.charging_status"@ + "="@,
        crate::text::clean_key("thermal.charging_done_status"@),
        "thermal.charging_done_status="@ == "thermal.charging_done_status"@ + "="@,
        crate::text::clean_key("thermal.discharging_normal"@),
        "thermal.discharging_normal="@ == "thermal.discharging_normal"@ + "="@,
        crate::text::clean_key("thermal.discharging_low"@),
        "thermal.discharging_low="@ == "thermal.discharging_low"@ + "="@,
        crate::text::clean_key("thermal.discharging_critical"@),
        "thermal.discharging_critical="@ == "thermal.discharging_critical"@ + "="@,
        crate::text::clean_key("thermal.critical_level"@),
        "thermal.critical_level="@ == "thermal.critical_level"@ + "="@,
        crate::text::clean_key("sensors.enabled"@),
        "sensors.enabled="@ == "sensors.enabled"@ + "="@,
        crate::text::clean_key("airplane.enabled"@),
        "airplane.enabled="@ == "airplane.enabled"@ + "="@,
        crate::text::clean_key("doze.enabled"@),
        "doze.enabled="@ == "doze.enabled"@ + "="@,
        crate::text::clean_key("compaction.enabled"@),
        "compaction.enabled="@ == "compaction.enabled"@ + "="@,
        crate::text::clean_key("compaction.hardlock_ticks"@),
        "compaction.hardlock_ticks="@ == "compaction.hardlock_ticks"@ + "="@,
        crate::text::clean_key("watchdog.enabled"@),
        "watchdog.enabled="@ == "watchdog.enabled"@ + "="@,
        crate::text::clean_key("watchdog.jobscheduler"@),
        "watchdog.jobscheduler="@ == "watchdog.jobscheduler"@ + "="@,
        crate::text::clean_key("watchdog.timeout_secs"@),
        "watchdog.timeout_secs="@ == "watchdog.timeout_secs"@ + "="@,
        crate::text::clean_key("watchdog.idle_threshold_secs"@),
        "watchdog.idle_threshold_secs="@ == "watchdog.idle_threshold_secs"@ + "="@,
        crate::text::clean_key("drain.enabled"@),
        "drain.enabled="@ == "drain.enabled"@ + "="@,
        crate::text::clean_key("notification.enabled"@),
        "notification.enabled="@ == "notification.enabled"@ + "="@,
        crate::text::clean_key("logging.enabled"@),
        "logging.enabled="@ == "logging.enabled"@ + "="@,
        crate::text::clean_key("dry_run"@),
        "dry_run="@ == "dry_run"@ + "="@,
        crate::text::clean_key("path.learning_file"@),
        "path.learning_file="@ == "path.learning_file"@ + "="@,
        crate::text::clean_key("path.threshold_file"@),
        "path.threshold_file="@ == "path.threshold_file"@ + "="@,
        crate::text::clean_key("path.whitelist_file"@),
        "path.whitelist_file="@ == "path.whitelist_file"@ + "="@,
        crate::text::clean_key("path.drain_log_file"@),
        "path.drain_log_file="@ == "path.drain_log_file"@ + "="@,
        crate::text::clean_key("path.packages_xml"@),
        "path.packages_xml="@ == "path.packages_xml"@ + "="@,
        "battery.min_threshold"@ != "battery.max_threshold"@,
        "battery.learn_min_points"@ != "battery.learn_max_points"@,
        "battery.dynamic_threshold"@ != "battery.force_app_standby"@,
        "battery.learn_min_points"@ != "battery.refresh_rate_low"@,
        "battery.learn_max_points"@ != "battery.refresh_rate_low"@,
        "battery.enabled"@ != "thermal.enabled"@,
        "battery.refresh_rate_default"@ != "thermal.charging_done_status"@,
        "battery.dnd_while_charging"@ != "thermal.discharging_normal"@,
        "thermal.charging_status"@ != "thermal.discharging_low"@,
        "battery.refresh_rate_default"@ != "thermal.discharging_critical"@,
        "thermal.charging_done_status"@ != "thermal.discharging_critical"@,
        "battery.enabled"@ != "sensors.enabled"@,
        "thermal.enabled"@ != "sensors.enabled"@,
        "battery.dynamic_threshold"@ != "compaction.hardlock_ticks"@,
        "battery.force_app_standby"@ != "compaction.hardlock_ticks"@,
        "airplane.enabled"@ != "watchdog.enabled"@,
        "battery.min_threshold"@ != "watchdog.jobscheduler"@,
        "battery.max_threshold"@ != "watchdog.jobscheduler"@,
        "battery.min_threshold"@ != "watchdog.timeout_secs"@,
        "battery.max_threshold"@ != "watchdog.timeout_secs"@,
        "watchdog.jobscheduler"@ != "watchdog.timeout_secs"@,
        "battery.refresh_rate_default"@ != "watchdog.idle_threshold_secs"@,
        "thermal.charging_done_status"@ != "watchdog.idle_threshold_secs"@,
        "thermal.discharging_critical"@ != "watchdog.idle_threshold_secs"@,
        "battery.enabled"@ != "logging.enabled"@,
        "thermal.enabled"@ != "logging.enabled"@,
        "sensors.enabled"@ != "logging.enabled"@,
        "compaction.enabled"@ != "path.learning_file"@,
        "path.threshold_file"@ != "path.whitelist_file"@,
        "path.threshold_file"@ != "path.drain_log_file"@,
        "path.whitelist_file"@ != "path.drain_log_file"@,
{
    reveal_strlit("=");
    reveal_strlit("battery.enabled");
    reveal_strlit("battery.dynamic_threshold");
    reveal_strlit("battery.min_threshold");
    reveal_strlit("battery.max_threshold");
    reveal_strlit("battery.learn_min_points");
    reveal_strlit("battery.learn_max_points");
    reveal_strlit("battery.force_app_standby");
    reveal_strlit("battery.dnd_while_charging");
    reveal_strlit("battery.refresh_rate_low");
    reveal_strlit("battery.refresh_rate_default");
    reveal_strlit("battery.screen_timeout_low_ms");
    reveal_strlit("battery.screen_timeout_default_ms");
    reveal_strlit("battery.samsung_restricted_performance");
    reveal_strlit("battery.background_process_limit_low");
    reveal_strlit("battery.background_process_limit_default");
    reveal_strlit("thermal.enabled");
    reveal_strlit("thermal.charging_status");
    reveal_strlit("thermal.charging_done_status");
    reveal_strlit("thermal.discharging_normal");
    reveal_strlit("thermal.discharging_low");
    reveal_strlit("thermal.discharging_critical");
    reveal_strlit("thermal.critical_level");
    reveal_strlit("sensors.enabled");
    reveal_strlit("airplane.enabled");
    reveal_strlit("doze.enabled");
    reveal_strlit("compaction.enabled");
    reveal_strlit("compaction.hardlock_ticks");
    reveal_strlit("watchdog.enabled");
    reveal_strlit("watchdog.jobscheduler");
    reveal_strlit("watchdog.timeout_secs");
    reveal_strlit("watchdog.idle_threshold_secs");
    reveal_strlit("drain.enabled");
    reveal_strlit("notification.enabled");
    reveal_strlit("logging.enabled");
    reveal_strlit("dry_run");
    reveal_strlit("path.learning_file");
    reveal_strlit("path.threshold_file");
    reveal_strlit("path.whitelist_file");
    reveal_strlit("path.drain_log_file");
    reveal_strlit("path.packages_xml");
    reveal_strlit("battery.enabled=");
    assert("battery.enabled="@ =~= "battery.enabled"@ + "="@);
    reveal_strlit("battery.dynamic_threshold=");
    assert("battery.dynamic_threshold="@ =~= "battery.dynamic_threshold"@ + "="@);
    reveal_strlit("battery.min_threshold=");
    assert("battery.min_threshold="@ =~= "battery.min_threshold"@ + "="@);
    reveal_strlit("battery.max_threshold=");
    assert("battery.max_threshold="@ =~= "battery.max_threshold"@ + "="@);
    reveal_strlit("battery.learn_min_points=");
    assert("battery.learn_min_points="@ =~= "battery.learn_min_points"@ + "="@);
    reveal_strlit("battery.learn_max_points=");
    assert("battery.learn_max_points="@ =~= "battery.learn_max_points"@ + "="@);
    reveal_strlit("battery.force_app_standby=");
    assert("battery.force_app_standby="@ =~= "battery.force_app_standby"@ + "="@);
    reveal_strlit("battery.dnd_while_charging=");
    assert("battery.dnd_while_charging="@ =~= "battery.dnd_while_charging"@ + "="@);
    reveal_strlit("battery.refresh_rate_low=");
    assert("battery.refresh_rate_low="@ =~= "battery.refresh_rate_low"@ + "="@);
    reveal_strlit("battery.refresh_rate_default=");
    assert("battery.refresh_rate_default="@ =~= "battery.refresh_rate_default"@ + "="@);
    reveal_strlit("battery.screen_timeout_low_ms=");
    assert("battery.screen_timeout_low_ms="@ =~= "battery.screen_timeout_low_ms"@ + "="@);
    reveal_strlit("battery.screen_timeout_default_ms=");
    assert("battery.screen_timeout_default_ms="@ =~= "battery.screen_timeout_default_ms"@ + "="@);
    reveal_strlit("battery.samsung_restricted_performance=");
    assert("battery.samsung_restricted_performance="@ =~= "battery.samsung_restricted_performance"@ + "="@);
    reveal_strlit("battery.background_process_limit_low=");
    assert("battery.background_process_limit_low="@ =~= "battery.background_process_limit_low"@ + "="@);
    reveal_strlit("battery.background_process_limit_default=");
    assert("battery.background_process_limit_default="@ =~= "battery.background_process_limit_default"@ + "="@);
    reveal_strlit("thermal.enabled=");
    assert("thermal.enabled="@ =~= "thermal.enabled"@ + "="@);
    reveal_strlit("thermal.charging_status=");
    assert("thermal.charging_status="@ =~= "thermal.charging_status"@ + "="@);
    reveal_strlit("thermal.charging_done_status=");
    assert("thermal.charging_done_status="@ =~= "thermal.charging_done_status"@ + "="@);
    reveal_strlit("thermal.discharging_normal=");
    assert("thermal.discharging_normal="@ =~= "thermal.discharging_normal"@ + "="@);
    reveal_strlit("thermal.discharging_low=");
    assert("thermal.discharging_low="@ =~= "thermal.discharging_low"@ + "="@);
    reveal_strlit("thermal.discharging_critical=");
    assert("thermal.discharging_critical="@ =~= "thermal.discharging_critical"@ + "="@);
    reveal_strlit("thermal.critical_level=");
    assert("thermal.critical_level="@ =~= "thermal.critical_level"@ + "="@);
    reveal_strlit("sensors.enabled=");
    assert("sensors.enabled="@ =~= "sensors.enabled"@ + "="@);
    reveal_strlit("airplane.enabled=");
    assert("airplane.enabled="@ =~= "airplane.enabled"@ + "="@);
    reveal_strlit("doze.enabled=");
    assert("doze.enabled="@ =~= "doze.enabled"@ + "="@);
    reveal_strlit("compaction.enabled=");
    assert("compaction.enabled="@ =~= "compaction.enabled"@ + "="@);
    reveal_strlit("compaction.hardlock_ticks=");
    assert("compaction.hardlock_ticks="@ =~= "compaction.hardlock_ticks"@ + "="@);
    reveal_strlit("watchdog.enabled=");
    assert("watchdog.enabled="@ =~= "watchdog.enabled"@ + "="@);
    reveal_strlit("watchdog.jobscheduler=");
    assert("watchdog.jobscheduler="@ =~= "watchdog.jobscheduler"@ + "="@);
    reveal_strlit("watchdog.timeout_secs=");
    assert("watchdog.timeout_secs="@ =~= "watchdog.timeout_secs"@ + "="@);
    reveal_strlit("watchdog.idle_threshold_secs=");
    assert("watchdog.idle_threshold_secs="@ =~= "watchdog.idle_threshold_secs"@ + "="@);
    reveal_strlit("drain.enabled=");
    assert("drain.enabled="@ =~= "drain.enabled"@ + "="@);
    reveal_strlit("notification.enabled=");
    assert("notification.enabled="@ =~= "notification.enabled"@ + "="@);
    reveal_strlit("logging.enabled=");
    assert("logging.enabled="@ =~= "logging.enabled"@ + "="@);
    reveal_strlit("dry_run=");
    assert("dry_run="@ =~= "dry_run"@ + "="@);
    reveal_strlit("path.learning_file=");
    assert("path.learning_file="@ =~= "path.learning_file"@ + "="@);
    reveal_strlit("path.threshold_file=");
    assert("path.threshold_file="@ =~= "path.threshold_file"@ + "="@);
    reveal_strlit("path.whitelist_file=");
    assert("path.whitelist_file="@ =~= "path.whitelist_file"@ + "="@);
    reveal_strlit("path.drain_log_file=");
    assert("path.drain_log_file="@ =~= "path.drain_log_file"@ + "="@);
    reveal_strlit("path.packages_xml=");
    assert("path.packages_xml="@ =~= "path.packages_xml"@ + "="@);
    assert("battery.min_threshold"@[9] != "battery.max_threshold"@[9]);
    assert("battery.learn_min_points"@[15] != "battery.learn_max_points"@[15]);
    assert("battery.dynamic_threshold"@[8] != "battery.force_app_standby"@[8]);
    assert("battery.learn_min_points"@[8] != "battery.refresh_rate_low"@[8]);
    assert("battery.learn_max_points"@[8] != "battery.refresh_rate_low"@[8]);
    assert("battery.enabled"@[0] != "thermal.enabled"@[0]);
    assert("battery.refresh_rate_default"@[0] != "thermal.charging_done_status"@[0]);
    assert("battery.dnd_while_charging"@[0] != "thermal.discharging_normal"@[0]);
    assert("thermal.charging_status"@[8] != "thermal.discharging_low"@[8]);
    assert("battery.refresh_rate_default"@[0] != "thermal.discharging_critical"@[0]);
    assert("thermal.charging_done_status"@[8] != "thermal.discharging_critical"@[8]);
    assert("battery.enabled"@[0] != "sensors.enabled"@[0]);
    assert("thermal.enabled"@[0] != "sensors.enabled"@[0]);
    assert("battery.dynamic_threshold"@[0] != "compaction.hardlock_ticks"@[0]);
    assert("battery.force_app_standby"@[0] != "compaction.hardlock_ticks"@[0]);
    assert("airplane.enabled"@[0] != "watchdog.enabled"@[0]);
    assert("battery.min_threshold"@[0] != "watchdog.jobscheduler"@[0]);
    assert("battery.max_threshold"@[0] != "watchdog.jobscheduler"@[0]);
    assert("battery.min_threshold"@[0] != "watchdog.timeout_secs"@[0]);
    assert("battery.max_threshold"@[0] != "watchdog.timeout_secs"@[0]);
    assert("watchdog.jobscheduler"@[9] != "watchdog.timeout_secs"@[9]);
    assert("battery.refresh_rate_default"@[0] != "watchdog.idle_threshold_secs"@[0]);
    assert("thermal.charging_done_status"@[0] != "watchdog.idle_threshold_secs"@[0]);
    assert("thermal.discharging_critical"@[0] != "watchdog.idle_threshold_secs"@[0]);
    assert("battery.enabled"@[0] != "logging.enabled"@[0]);
    assert("thermal.enabled"@[0] != "logging.enabled"@[0]);
    assert("sensors.enabled"@[0] != "logging.enabled"@[0]);
    assert("compaction.enabled"@[0] != "path.learning_file"@[0]);
    assert("path.threshold_file"@[5] != "path.whitelist_file"@[5]);
    assert("path.threshold_file"@[5] != "path.drain_log_file"@[5]);
    assert("path.whitelist_file"@[5] != "path.drain_log_file"@[5]);
}

proof fn lemma_reads_battery_enabled(c: UtensilConfigView, n: nat, x: UtensilConfigView)
    ensures
        apply_line("battery.enabled="@ + bool_text(c.battery.enabled), n, x) == Ok::<UtensilConfigView, ConfigErrorView>(UtensilConfigView { battery: BatteryConfigView { enabled: c.battery.enabled, ..x.battery }, ..x }),
        crate::text::no_newline("battery.enabled="@ + bool_text(c.battery.enabled)),
{
    lemma_setting_names();
    lemma_bool_text(c.battery.enabled);
    lemma_setting_line("battery.enabled"@, bool_text(c.battery.enabled), n, x);
}

proof fn lemma_reads_battery_dynamic_threshold(c: UtensilConfigView, n: nat, x: UtensilConfigView)
    requires
        c.battery.dynamic_threshold <= 100,
    ensures
        apply_line("battery.dynamic_threshold="@ + decimal(c.battery.dynamic_threshold as nat), n, x) == Ok::<UtensilConfigView, ConfigErrorView>(UtensilConfigView { battery: BatteryConfigView { dynamic_threshold: c.battery.dynamic_threshold, ..x.battery }, ..x }),
        crate::text::no_newline("battery.dynamic_threshold="@ + decimal(c.battery.dynamic_threshold as nat)),
{
    lemma_setting_names();
    lemma_number_text(c.battery.dynamic_threshold as nat, 100);
    lemma_setting_line("battery.dynamic_threshold"@, decimal(c.battery.dynamic_threshold as nat), n, x);
}

proof fn lemma_reads_battery_min_threshold(c: UtensilConfigView, n: nat, x: UtensilConfigView)
    requires
        c.battery.min_threshold <= 100,
    ensures
        apply_line("battery.min_threshold="@ + decimal(c.battery.min_threshold as nat), n, x) == Ok::<UtensilConfigView, ConfigErrorView>(UtensilConfigView { battery: BatteryConfigView { min_threshold: c.battery.min_threshold, ..x.battery }, ..x }),
        crate::text::no_newline("battery.min_threshold="@ + decimal(c.battery.min_threshold as nat)),
{
    lemma_setting_names();
    lemma_number_text(c.battery.min_threshold as nat, 100);
    lemma_setting_line("battery.min_threshold"@, decimal(c.battery.min_threshold as nat), n, x);
}

proof fn lemma_reads_battery_max_threshold(c: UtensilConfigView, n: nat, x: UtensilConfigView)
    requires
        c.battery.max_threshold <= 100,
    ensures
        apply_line("battery.max_threshold="@ + decimal(c.battery.max_threshold as nat), n, x) == Ok::<UtensilConfigView, ConfigErrorView>(UtensilConfigView { battery: BatteryConfigView { max_threshold: c.battery.max_threshold, ..x.battery }, ..x }),
        crate::text::no_newline("battery.max_threshold="@ + decimal(c.battery.max_threshold as nat)),
{
    lemma_setting_names();
    lemma_number_text(c.battery.max_threshold as nat, 100);
    lemma_setting_line("battery.max_threshold"@, decimal(c.battery.max_threshold as nat), n, x);
}

proof fn lemma_reads_battery_learn_min_points(c: UtensilConfigView, n: nat, x: UtensilConfigView)
    ensures
        apply_line("battery.learn_min_points="@ + decimal(c.battery.learn_min_points as nat), n, x) == Ok::<UtensilConfigView, ConfigErrorView>(UtensilConfigView { battery: BatteryConfigView { learn_min_points: c.battery.learn_min_points, ..x.battery }, ..x }),
        crate::text::no_newline("battery.learn_min_points="@ + decimal(c.battery.learn_min_points as nat)),
{
    lemma_setting_names();
    lemma_number_text(c.battery.learn_min_points as nat, usize::MAX as nat);
    lemma_setting_line("battery.learn_min_points"@, decimal(c.battery.learn_min_points as nat), n, x);
}

proof fn lemma_reads_battery_learn_max_points(c: UtensilConfigView, n: nat, x: UtensilConfigView)
    ensures
        apply_line("battery.learn_max_points="@ + decimal(c.battery.learn_max_points as nat), n, x) == Ok::<UtensilConfigView, ConfigErrorView>(UtensilConfigView { battery: BatteryConfigView { learn_max_points: c.battery.learn_max_points, ..x.battery }, ..x }),
        crate::text::no_newline("battery.learn_max_points="@ + decimal(c.battery.learn_max_points as nat)),
{
    lemma_setting_names();
    lemma_number_text(c.battery.learn_max_points as nat, usize::MAX as nat);
    lemma_setting_line("battery.learn_max_points"@, decimal(c.battery.learn_max_points as nat), n, x);
}

proof fn lemma_reads_battery_force_app_standby(c: UtensilConfigView, n: nat, x: UtensilConfigView)
    ensures
        apply_line("battery.force_app_standby="@ + bool_text(c.battery.force_app_standby), n, x) == Ok::<UtensilConfigView, ConfigErrorView>(UtensilConfigView { battery: BatteryConfigView { force_app_standby: c.battery.force_app_standby, ..x.battery }, ..x }),
        crate::text::no_newline("battery.force_app_standby="@ + bool_text(c.battery.force_app_standby)),
{
    lemma_setting_names();
    lemma_bool_text(c.battery.force_app_standby);
    lemma_setting_line("battery.force_app_standby"@, bool_text(c.battery.force_app_standby), n, x);
}

proof fn lemma_reads_battery_dnd_while_charging(c: UtensilConfigView, n: nat, x: UtensilConfigView)
    ensures
        apply_line("battery.dnd_while_charging="@ + bool_text(c.battery.dnd_while_charging), n, x) == Ok::<UtensilConfigView, ConfigErrorView>(UtensilConfigView { battery: BatteryConfigView { dnd_while_charging: c.battery.dnd_while_charging, ..x.battery }, ..x }),
        crate::text::no_newline("battery.dnd_while_charging="@ + bool_text(c.battery.dnd_while_charging)),
{
    lemma_setting_names();
    lemma_bool_text(c.battery.dnd_while_charging);
    lemma_setting_line("battery.dnd_while_charging"@, bool_text(c.battery.dnd_while_charging), n, x);
}

/// The battery switch and number lines of the printed configuration set what they print.
#[verifier::rlimit(80)]
#[verifier::spinoff_prover]
proof fn lemma_battery_core_lines_read_back(c: UtensilConfigView, n: nat, x: UtensilConfigView)
    requires
        c.battery.dynamic_threshold <= 100,
        c.battery.min_threshold <= 100,
        c.battery.max_threshold <= 100,
    ensures
        apply_all(battery_core_lines(c), n, x) == Ok::<UtensilConfigView, ConfigErrorView>(UtensilConfigView { battery: BatteryConfigView { enabled: c.battery.enabled, dynamic_threshold: c.battery.dynamic_threshold, min_threshold: c.battery.min_threshold, max_threshold: c.battery.max_threshold, learn_min_points: c.battery.learn_min_points, learn_max_points: c.battery.learn_max_points, force_app_standby: c.battery.force_app_standby, dnd_while_charging: c.battery.dnd_while_charging, ..x.battery }, ..x }),
        forall|i: int| 0 <= i < battery_core_lines(c).len() ==> crate::text::no_newline(#[trigger] battery_core_lines(c)[i]),
{
    let ls = battery_core_lines(c);
    let x0 = x;
    lemma_reads_battery_enabled(c, n + 0, x0);
    let x1 = UtensilConfigView { battery: BatteryConfigView { enabled: c.battery.enabled, ..x0.battery }, ..x0 };
    lemma_apply_all_step(ls, 0, n + 0, x0, x1);
    lemma_reads_battery_dynamic_threshold(c, n + 1, x1);
    let x2 = UtensilConfigView { battery: BatteryConfigView { dynamic_threshold: c.battery.dynamic_threshold, ..x1.battery }, ..x1 };
    lemma_apply_all_step(ls, 1, n + 1, x1, x2);
    lemma_reads_battery_min_threshold(c, n + 2, x2);
    let x3 = UtensilConfigView { battery: BatteryConfigView { min_threshold: c.battery.min_threshold, ..x2.battery }, ..x2 };
    lemma_apply_all_step(ls, 2, n + 2, x2, x3);
    lemma_reads_battery_max_threshold(c, n + 3, x3);
    let x4 = UtensilConfigView { battery: BatteryConfigView { max_threshold: c.battery.max_threshold, ..x3.battery }, ..x3 };
    lemma_apply_all_step(ls, 3, n + 3, x3, x4);
    lemma_reads_battery_learn_min_points(c, n + 4, x4);
    let x5 = UtensilConfigView { battery: BatteryConfigView { learn_min_points: c.battery.learn_min_points, ..x4.battery }, ..x4 };
    lemma_apply_all_step(ls, 4, n + 4, x4, x5);
    lemma_reads_battery_learn_max_points(c, n + 5, x5);
    let x6 = UtensilConfigView { battery: BatteryConfigView { learn_max_points: c.battery.learn_max_points, ..x5.battery }, ..x5 };
    lemma_apply_all_step(ls, 5, n + 5, x5, x6);
    lemma_reads_battery_force_app_standby(c, n + 6, x6);
    let x7 = UtensilConfigView { battery: BatteryConfigView { force_app_standby: c.battery.force_app_standby, ..x6.battery }, ..x6 };
    lemma_apply_all_step(ls, 6, n + 6, x6, x7);
    lemma_reads_battery_dnd_while_charging(c, n + 7, x7);
    let x8 = UtensilConfigView { battery: BatteryConfigView { dnd_while_charging: c.battery.dnd_while_charging, ..x7.battery }, ..x7 };
    lemma_apply_all_step(ls, 7, n + 7, x7, x8);
    assert(ls.subrange(0, ls.len() as int) =~= ls);
    lemma_apply_all_nil(ls.subrange(8, ls.len() as int), n + 8, x8);
    assert forall|i: int| 0 <= i < ls.len() implies crate::text::no_newline(#[trigger] ls[i]) by {
        if i == 0 {} else if i == 1 {} else if i == 2 {} else if i == 3 {} else if i == 4 {} else if i == 5 {} else if i == 6 {} else if i == 7 {}
    }
}

proof fn lemma_reads_battery_refresh_rate_low(c: UtensilConfigView, n: nat, x: UtensilConfigView)
    requires
        c.battery.refresh_rate_low is Some ==> c.battery.refresh_rate_low->0.len() > 0 && crate::text::clean_value(c.battery.refresh_rate_low->0),
    ensures
        apply_line("battery.refresh_rate_low="@ + opt_value_text(c.battery.refresh_rate_low), n, x) == Ok::<UtensilConfigView, ConfigErrorView>(UtensilConfigView { battery: BatteryConfigView { refresh_rate_low: c.battery.refresh_rate_low, ..x.battery }, ..x }),
        crate::text::no_newline("battery.refresh_rate_low="@ + opt_value_text(c.battery.refresh_rate_low)),
{
    lemma_setting_names();
    lemma_opt_value_text(c.battery.refresh_rate_low);
    lemma_setting_line("battery.refresh_rate_low"@, opt_value_text(c.battery.refresh_rate_low), n, x);
}

proof fn lemma_reads_battery_refresh_rate_default(c: UtensilConfigView, n: nat, x: UtensilConfigView)
    requires
        c.battery.refresh_rate_default is Some ==> c.battery.refresh_rate_default->0.len() > 0 && crate::text::clean_value(c.battery.refresh_rate_default->0),
    ensures
        apply_line("battery.refresh_rate_default="@ + opt_value_text(c.battery.refresh_rate_default), n, x) == Ok::<UtensilConfigView, ConfigErrorView>(UtensilConfigView { battery: BatteryConfigView { refresh_rate_default: c.battery.refresh_rate_default, ..x.battery }, ..x }),
        crate::text::no_newline("battery.refresh_rate_default="@ + opt_value_text(c.battery.refresh_rate_default)),
{
    lemma_setting_names();
    lemma_opt_value_text(c.battery.refresh_rate_default);
    lemma_setting_line("battery.refresh_rate_default"@, opt_value_text(c.battery.refresh_rate_default), n, x);
}

proof fn lemma_reads_battery_screen_timeout_low_ms(c: UtensilConfigView, n: nat, x: UtensilConfigView)
    ensures
        apply_line("battery.screen_timeout_low_ms="@ + opt_u64_text(c.battery.screen_timeout_low_ms), n, x) == Ok::<UtensilConfigView, ConfigErrorView>(UtensilConfigView { battery: BatteryConfigView { screen_timeout_low_ms: c.battery.screen_timeout_low_ms, ..x.battery }, ..x }),
        crate::text::no_newline("battery.screen_timeout_low_ms="@ + opt_u64_text(c.battery.screen_timeout_low_ms)),
{
    lemma_setting_names();
    lemma_opt_u64_text(c.battery.screen_timeout_low_ms);
    lemma_setting_line("battery.screen_timeout_low_ms"@, opt_u64_text(c.battery.screen_timeout_low_ms), n, x);
}

proof fn lemma_reads_battery_screen_timeout_default_ms(c: UtensilConfigView, n: nat, x: UtensilConfigView)
    ensures
        apply_line("battery.screen_timeout_default_ms="@ + opt_u64_text(c.battery.screen_timeout_default_ms), n, x) == Ok::<UtensilConfigView, ConfigErrorView>(UtensilConfigView { battery: BatteryConfigView { screen_timeout_default_ms: c.battery.screen_timeout_default_ms, ..x.battery }, ..x }),
        crate::text::no_newline("battery.screen_timeout_default_ms="@ + opt_u64_text(c.battery.screen_timeout_default_ms)),
{
    lemma_setting_names();
    lemma_opt_u64_text(c.battery.screen_timeout_default_ms);
    lemma_setting_line("battery.screen_timeout_default_ms"@, opt_u64_text(c.battery.screen_timeout_default_ms), n, x);
}

proof fn lemma_reads_battery_samsung_restricted_performance(c: UtensilConfigView, n: nat, x: UtensilConfigView)
    ensures
        apply_line("battery.samsung_restricted_performance="@ + bool_text(c.battery.samsung_restricted_performance), n, x) == Ok::<UtensilConfigView, ConfigErrorView>(UtensilConfigView { battery: BatteryConfigView { samsung_restricted_performance: c.battery.samsung_restricted_performance, ..x.battery }, ..x }),
        crate::text::no_newline("battery.samsung_restricted_performance="@ + bool_text(c.battery.samsung_restricted_performance)),
{
    lemma_setting_names();
    lemma_bool_text(c.battery.samsung_restricted_performance);
    lemma_setting_line("battery.samsung_restricted_performance"@, bool_text(c.battery.samsung_restricted_performance), n, x);
}

proof fn lemma_reads_battery_background_process_limit_low(c: UtensilConfigView, n: nat, x: UtensilConfigView)
    ensures
        apply_line("battery.background_process_limit_low="@ + opt_i32_text(c.battery.background_process_limit_low), n, x) == Ok::<UtensilConfigView, ConfigErrorView>(UtensilConfigView { battery: BatteryConfigView { background_process_limit_low: c.battery.background_process_limit_low, ..x.battery }, ..x }),
        crate::text::no_newline("battery.background_process_limit_low="@ + opt_i32_text(c.battery.background_process_limit_low)),
{
    lemma_setting_names();
    lemma_opt_i32_text(c.battery.background_process_limit_low);
    lemma_setting_line("battery.background_process_limit_low"@, opt_i32_text(c.battery.background_process_limit_low), n, x);
}

proof fn lemma_reads_battery_background_process_limit_default(c: UtensilConfigView, n: nat, x: UtensilConfigView)
    ensures
        apply_line("battery.background_process_limit_default="@ + opt_i32_text(c.battery.background_process_limit_default), n, x) == Ok::<UtensilConfigView, ConfigErrorView>(UtensilConfigView { battery: BatteryConfigView { background_process_limit_default: c.battery.background_process_limit_default, ..x.battery }, ..x }),
        crate::text::no_newline("battery.background_process_limit_default="@ + opt_i32_text(c.battery.background_process_limit_default)),
{
    lemma_setting_names();
    lemma_opt_i32_text(c.battery.background_process_limit_default);
    lemma_setting_line("battery.background_process_limit_default"@, opt_i32_text(c.battery.background_process_limit_default), n, x);
}

/// The optional battery lines of the printed configuration set what they print.
#[verifier::rlimit(80)]
#[verifier::spinoff_prover]
proof fn lemma_battery_optional_lines_read_back(c: UtensilConfigView, n: nat, x: UtensilConfigView)
    requires
        c.battery.refresh_rate_low is Some ==> c.battery.refresh_rate_low->0.len() > 0 && crate::text::clean_value(c.battery.refresh_rate_low->0),
        c.battery.refresh_rate_default is Some ==> c.battery.refresh_rate_default->0.len() > 0 && crate::text::clean_value(c.battery.refresh_rate_default->0),
    ensures
        apply_all(battery_optional_lines(c), n, x) == Ok::<UtensilConfigView, ConfigErrorView>(UtensilConfigView { battery: BatteryConfigView { refresh_rate_low: c.battery.refresh_rate_low, refresh_rate_default: c.battery.refresh_rate_default, screen_timeout_low_ms: c.battery.screen_timeout_low_ms, screen_timeout_default_ms: c.battery.screen_timeout_default_ms, samsung_restricted_performance: c.battery.samsung_restricted_performance, background_process_limit_low: c.battery.background_process_limit_low, background_process_limit_default: c.battery.background_process_limit_default, ..x.battery }, ..x }),
        forall|i: int| 0 <= i < battery_optional_lines(c).len() ==> crate::text::no_newline(#[trigger] battery_optional_lines(c)[i]),
{
    let ls = battery_optional_lines(c);
    let x0 = x;
    lemma_reads_battery_refresh_rate_low(c, n + 0, x0);
    let x1 = UtensilConfigView { battery: BatteryConfigView { refresh_rate_low: c.battery.refresh_rate_low, ..x0.battery }, ..x0 };
    lemma_apply_all_step(ls, 0, n + 0, x0, x1);
    lemma_reads_battery_refresh_rate_default(c, n + 1, x1);
    let x2 = UtensilConfigView { battery: BatteryConfigView { refresh_rate_default: c.battery.refresh_rate_default, ..x1.battery }, ..x1 };
    lemma_apply_all_step(ls, 1, n + 1, x1, x2);
    lemma_reads_battery_screen_timeout_low_ms(c, n + 2, x2);
    let x3 = UtensilConfigView { battery: BatteryConfigView { screen_timeout_low_ms: c.battery.screen_timeout_low_ms, ..x2.battery }, ..x2 };
    lemma_apply_all_step(ls, 2, n + 2, x2, x3);
    lemma_reads_battery_screen_timeout_default_ms(c, n + 3, x3);
    let x4 = UtensilConfigView { battery: BatteryConfigView { screen_timeout_default_ms: c.battery.screen_timeout_default_ms, ..x3.battery }, ..x3 };
    lemma_apply_all_step(ls, 3, n + 3, x3, x4);
    lemma_reads_battery_samsung_restricted_performance(c, n + 4, x4);
    let x5 = UtensilConfigView { battery: BatteryConfigView { samsung_restricted_performance: c.battery.samsung_restricted_performance, ..x4.battery }, ..x4 };
    lemma_apply_all_step(ls, 4, n + 4, x4, x5);
    lemma_reads_battery_background_process_limit_low(c, n + 5, x5);
    let x6 = UtensilConfigView { battery: BatteryConfigView { background_process_limit_low: c.battery.background_process_limit_low, ..x5.battery }, ..x5 };
    lemma_apply_all_step(ls, 5, n + 5, x5, x6);
    lemma_reads_battery_background_process_limit_default(c, n + 6, x6);
    let x7 = UtensilConfigView { battery: BatteryConfigView { background_process_limit_default: c.battery.background_process_limit_default, ..x6.battery }, ..x6 };
    lemma_apply_all_step(ls, 6, n + 6, x6, x7);
    assert(ls.subrange(0, ls.len() as int) =~= ls);
    lemma_apply_all_nil(ls.subrange(7, ls.len() as int), n + 7, x7);
    assert forall|i: int| 0 <= i < ls.len() implies crate::text::no_newline(#[trigger] ls[i]) by {
        if i == 0 {} else if i == 1 {} else if i == 2 {} else if i == 3 {} else if i == 4 {} else if i == 5 {} else if i == 6 {}
    }
}

proof fn lemma_reads_thermal_enabled(c: UtensilConfigView, n: nat, x: UtensilConfigView)
    ensures
        apply_line("thermal.enabled="@ + bool_text(c.thermal.enabled), n, x) == Ok::<UtensilConfigView, ConfigErrorView>(UtensilConfigView { thermal: ThermalConfig { enabled: c.thermal.enabled, ..x.thermal }, ..x }),
        crate::text::no_newline("thermal.enabled="@ + bool_text(c.thermal.enabled)),
{
    lemma_setting_names();
    lemma_bool_text(c.thermal.enabled);
    lemma_setting_line("thermal.enabled"@, bool_text(c.thermal.enabled), n, x);
}

proof fn lemma_reads_thermal_charging_status(c: UtensilConfigView, n: nat, x: UtensilConfigView)
    requires
        c.thermal.charging_status <= 100,
    ensures
        apply_line("thermal.charging_status="@ + decimal(c.thermal.charging_status as nat), n, x) == Ok::<UtensilConfigView, ConfigErrorView>(UtensilConfigView { thermal: ThermalConfig { charging_status: c.thermal.charging_status, ..x.thermal }, ..x }),
        crate::text::no_newline("thermal.charging_status="@ + decimal(c.thermal.charging_status as nat)),
{
    lemma_setting_names();
    lemma_number_text(c.thermal.charging_status as nat, 100);
    lemma_setting_line("thermal.charging_status"@, decimal(c.thermal.charging_status as nat), n, x);
}

proof fn lemma_reads_thermal_charging_done_status(c: UtensilConfigView, n: nat, x: UtensilConfigView)
    requires
        c.thermal.charging_done_status <= 100,
    ensures
        apply_line("thermal.charging_done_status="@ + decimal(c.thermal.charging_done_status as nat), n, x) == Ok::<UtensilConfigView, ConfigErrorView>(UtensilConfigView { thermal: ThermalConfig { charging_done_status: c.thermal.charging_done_status, ..x.thermal }, ..x }),
        crate::text::no_newline("thermal.charging_done_status="@ + decimal(c.thermal.charging_done_status as nat)),
{
    lemma_setting_names();
    lemma_number_text(c.thermal.charging_done_status as nat, 100);
    lemma_setting_line("thermal.charging_done_status"@, decimal(c.thermal.charging_done_status as nat), n, x);
}

proof fn lemma_reads_thermal_discharging_normal(c: UtensilConfigView, n: nat, x: UtensilConfigView)
    requires
        c.thermal.discharging_normal <= 100,
    ensures
        apply_line("thermal.discharging_normal="@ + decimal(c.thermal.discharging_normal as nat), n, x) == Ok::<UtensilConfigView, ConfigErrorView>(UtensilConfigView { thermal: ThermalConfig { discharging_normal: c.thermal.discharging_normal, ..x.thermal }, ..x }),
        crate::text::no_newline("thermal.discharging_normal="@ + decimal(c.thermal.discharging_normal as nat)),
{
    lemma_setting_names();
    lemma_number_text(c.thermal.discharging_normal as nat, 100);
    lemma_setting_line("thermal.discharging_normal"@, decimal(c.thermal.discharging_normal as nat), n, x);
}

proof fn lemma_reads_thermal_discharging_low(c: UtensilConfigView, n: nat, x: UtensilConfigView)
    requires
        c.thermal.discharging_low <= 100,
    ensures
        apply_line("thermal.discharging_low="@ + decimal(c.thermal.discharging_low as nat), n, x) == Ok::<UtensilConfigView, ConfigErrorView>(UtensilConfigView { thermal: ThermalConfig { discharging_low: c.thermal.discharging_low, ..x.thermal }, ..x }),
        crate::text::no_newline("thermal.discharging_low="@ + decimal(c.thermal.discharging_low as nat)),
{
    lemma_setting_names();
    lemma_number_text(c.thermal.discharging_low as nat, 100);
    lemma_setting_line("thermal.discharging_low"@, decimal(c.thermal.discharging_low as nat), n, x);
}

proof fn lemma_reads_thermal_discharging_critical(c: UtensilConfigView, n: nat, x: UtensilConfigView)
    requires
        c.thermal.discharging_critical <= 100,
    ensures
        apply_line("thermal.discharging_critical="@ + decimal(c.thermal.discharging_critical as nat), n, x) == Ok::<UtensilConfigView, ConfigErrorView>(UtensilConfigView { thermal: ThermalConfig { discharging_critical: c.thermal.discharging_critical, ..x.thermal }, ..x }),
        crate::text::no_newline("thermal.discharging_critical="@ + decimal(c.thermal.discharging_critical as nat)),
{
    lemma_setting_names();
    lemma_number_text(c.thermal.discharging_critical as nat, 100);
    lemma_setting_line("thermal.discharging_critical"@, decimal(c.thermal.discharging_critical as nat), n, x);
}

proof fn lemma_reads_thermal_critical_level(c: UtensilConfigView, n: nat, x: UtensilConfigView)
    requires
        c.thermal.critical_level <= 100,
    ensures
        apply_line("thermal.critical_level="@ + decimal(c.thermal.critical_level as nat), n, x) == Ok::<UtensilConfigView, ConfigErrorView>(UtensilConfigView { thermal: ThermalConfig { critical_level: c.thermal.critical_level, ..x.thermal }, ..x }),
        crate::text::no_newline("thermal.critical_level="@ + decimal(c.thermal.critical_level as nat)),
{
    lemma_setting_names();
    lemma_number_text(c.thermal.critical_level as nat, 100);
    lemma_setting_line("thermal.critical_level"@, decimal(c.thermal.critical_level as nat), n, x);
}

/// The thermal lines of the printed configuration set what they print.
#[verifier::rlimit(80)]
#[verifier::spinoff_prover]
proof fn lemma_thermal_lines_read_back(c: UtensilConfigView, n: nat, x: UtensilConfigView)
    requires
        c.thermal.charging_status <= 100,
        c.thermal.charging_done_status <= 100,
        c.thermal.discharging_normal <= 100,
        c.thermal.discharging_low <= 100,
        c.thermal.discharging_critical <= 100,
        c.thermal.critical_level <= 100,
    ensures
        apply_all(thermal_lines(c), n, x) == Ok::<UtensilConfigView, ConfigErrorView>(UtensilConfigView { thermal: c.thermal, ..x }),
        forall|i: int| 0 <= i < thermal_lines(c).len() ==> crate::text::no_newline(#[trigger] thermal_lines(c)[i]),
{
    let ls = thermal_lines(c);
    let x0 = x;
    lemma_reads_thermal_enabled(c, n + 0, x0);
    let x1 = UtensilConfigView { thermal: ThermalConfig { enabled: c.thermal.enabled, ..x0.thermal }, ..x0 };
    lemma_apply_all_step(ls, 0, n + 0, x0, x1);
    lemma_reads_thermal_charging_status(c, n + 1, x1);
    let x2 = UtensilConfigView { thermal: ThermalConfig { charging_status: c.thermal.charging_status, ..x1.thermal }, ..x1 };
    lemma_apply_all_step(ls, 1, n + 1, x1, x2);
    lemma_reads_thermal_charging_done_status(c, n + 2, x2);
    let x3 = UtensilConfigView { thermal: ThermalConfig { charging_done_status: c.thermal.charging_done_status, ..x2.thermal }, ..x2 };
    lemma_apply_all_step(ls, 2, n + 2, x2, x3);
    lemma_reads_thermal_discharging_normal(c, n + 3, x3);
    let x4 = UtensilConfigView { thermal: ThermalConfig { discharging_normal: c.thermal.discharging_normal, ..x3.thermal }, ..x3 };
    lemma_apply_all_step(ls, 3, n + 3, x3, x4);
    lemma_reads_thermal_discharging_low(c, n + 4, x4);
    let x5 = UtensilConfigView { thermal: ThermalConfig { discharging_low: c.thermal.discharging_low, ..x4.thermal }, ..x4 };
    lemma_apply_all_step(ls, 4, n + 4, x4, x5);
    lemma_reads_thermal_discharging_critical(c, n + 5, x5);
    let x6 = UtensilConfigView { thermal: ThermalConfig { discharging_critical: c.thermal.discharging_critical, ..x5.thermal }, ..x5 };
    lemma_apply_all_step(ls, 5, n + 5, x5, x6);
    lemma_reads_thermal_critical_level(c, n + 6, x6);
    let x7 = UtensilConfigView { thermal: ThermalConfig { critical_level: c.thermal.critical_level, ..x6.thermal }, ..x6 };
    lemma_apply_all_step(ls, 6, n + 6, x6, x7);
    assert(ls.subrange(0, ls.len() as int) =~= ls);
    lemma_apply_all_nil(ls.subrange(7, ls.len() as int), n + 7, x7);
    assert forall|i: int| 0 <= i < ls.len() implies crate::text::no_newline(#[trigger] ls[i]) by {
        if i == 0 {} else if i == 1 {} else if i == 2 {} else if i == 3 {} else if i == 4 {} else if i == 5 {} else if i == 6 {}
    }
}

proof fn lemma_reads_sensors_enabled(c: UtensilConfigView, n: nat, x: UtensilConfigView)
    ensures
        apply_line("sensors.enabled="@ + bool_text(c.sensors.enabled), n, x) == Ok::<UtensilConfigView, ConfigErrorView>(UtensilConfigView { sensors: FeatureConfig { enabled: c.sensors.enabled, ..x.sensors }, ..x }),
        crate::text::no_newline("sensors.enabled="@ + bool_text(c.sensors.enabled)),
{
    lemma_setting_names();
    lemma_bool_text(c.sensors.enabled);
    lemma_setting_line("sensors.enabled"@, bool_text(c.sensors.enabled), n, x);
}

proof fn lemma_reads_airplane_enabled(c: UtensilConfigView, n: nat, x: UtensilConfigView)
    ensures
        apply_line("airplane.enabled="@ + bool_text(c.airplane.enabled), n, x) == Ok::<UtensilConfigView, ConfigErrorView>(UtensilConfigView { airplane: FeatureConfig { enabled: c.airplane.enabled, ..x.airplane }, ..x }),
        crate::text::no_newline("airplane.enabled="@ + bool_text(c.airplane.enabled)),
{
    lemma_setting_names();
    lemma_bool_text(c.airplane.enabled);
    lemma_setting_line("airplane.enabled"@, bool_text(c.airplane.enabled), n, x);
}

proof fn lemma_reads_doze_enabled(c: UtensilConfigView, n: nat, x: UtensilConfigView)
    ensures
        apply_line("doze.enabled="@ + bool_text(c.doze.enabled), n, x) == Ok::<UtensilConfigView, ConfigErrorView>(UtensilConfigView { doze: FeatureConfig { enabled: c.doze.enabled, ..x.doze }, ..x }),
        crate::text::no_newline("doze.enabled="@ + bool_text(c.doze.enabled)),
{
    lemma_setting_names();
    lemma_bool_text(c.doze.enabled);
    lemma_setting_line("doze.enabled"@, bool_text(c.doze.enabled), n, x);
}

proof fn lemma_reads_compaction_enabled(c: UtensilConfigView, n: nat, x: UtensilConfigView)
    ensures
        apply_line("compaction.enabled="@ + bool_text(c.compaction.enabled), n, x) == Ok::<UtensilConfigView, ConfigErrorView>(UtensilConfigView { compaction: CompactionConfig { enabled: c.compaction.enabled, ..x.compaction }, ..x }),
        crate::text::no_newline("compaction.enabled="@ + bool_text(c.compaction.enabled)),
{
    lemma_setting_names();
    lemma_bool_text(c.compaction.enabled);
    lemma_setting_line("compaction.enabled"@, bool_text(c.compaction.enabled), n, x);
}

proof fn lemma_reads_compaction_hardlock_ticks(c: UtensilConfigView, n: nat, x: UtensilConfigView)
    ensures
        apply_line("compaction.hardlock_ticks="@ + decimal(c.compaction.hardlock_ticks as nat), n, x) == Ok::<UtensilConfigView, ConfigErrorView>(UtensilConfigView { compaction: CompactionConfig { hardlock_ticks: c.compaction.hardlock_ticks, ..x.compaction }, ..x }),
        crate::text::no_newline("compaction.hardlock_ticks="@ + decimal(c.compaction.hardlock_ticks as nat)),
{
    lemma_setting_names();
    lemma_number_text(c.compaction.hardlock_ticks as nat, u32::MAX as nat);
    lemma_setting_line("compaction.hardlock_ticks"@, decimal(c.compaction.hardlock_ticks as nat), n, x);
}

proof fn lemma_reads_watchdog_enabled(c: UtensilConfigView, n: nat, x: UtensilConfigView)
    ensures
        apply_line("watchdog.enabled="@ + bool_text(c.watchdog.enabled), n, x) == Ok::<UtensilConfigView, ConfigErrorView>(UtensilConfigView { watchdog: WatchdogConfig { enabled: c.watchdog.enabled, ..x.watchdog }, ..x }),
        crate::text::no_newline("watchdog.enabled="@ + bool_text(c.watchdog.enabled)),
{
    lemma_setting_names();
    lemma_bool_text(c.watchdog.enabled);
    lemma_setting_line("watchdog.enabled"@, bool_text(c.watchdog.enabled), n, x);
}

proof fn lemma_reads_watchdog_jobscheduler(c: UtensilConfigView, n: nat, x: UtensilConfigView)
    ensures
        apply_line("watchdog.jobscheduler="@ + bool_text(c.watchdog.jobscheduler), n, x) == Ok::<UtensilConfigView, ConfigErrorView>(UtensilConfigView { watchdog: WatchdogConfig { jobscheduler: c.watchdog.jobscheduler, ..x.watchdog }, ..x }),
        crate::text::no_newline("watchdog.jobscheduler="@ + bool_text(c.watchdog.jobscheduler)),
{
    lemma_setting_names();
    lemma_bool_text(c.watchdog.jobscheduler);
    lemma_setting_line("watchdog.jobscheduler"@, bool_text(c.watchdog.jobscheduler), n, x);
}

/// The feature switch lines of the printed configuration set what they print.
#[verifier::rlimit(80)]
#[verifier::spinoff_prover]
proof fn lemma_feature_switch_lines_read_back(c: UtensilConfigView, n: nat, x: UtensilConfigView)
    ensures
        apply_all(feature_switch_lines(c), n, x) == Ok::<UtensilConfigView, ConfigErrorView>(UtensilConfigView { sensors: c.sensors, airplane: c.airplane, doze: c.doze, compaction: c.compaction, watchdog: WatchdogConfig { enabled: c.watchdog.enabled, jobscheduler: c.watchdog.jobscheduler, ..x.watchdog }, ..x }),
        forall|i: int| 0 <= i < feature_switch_lines(c).len() ==> crate::text::no_newline(#[trigger] feature_switch_lines(c)[i]),
{
    let ls = feature_switch_lines(c);
    let x0 = x;
    lemma_reads_sensors_enabled(c, n + 0, x0);
    let x1 = UtensilConfigView { sensors: FeatureConfig { enabled: c.sensors.enabled, ..x0.sensors }, ..x0 };
    lemma_apply_all_step(ls, 0, n + 0, x0, x1);
    lemma_reads_airplane_enabled(c, n + 1, x1);
    let x2 = UtensilConfigView { airplane: FeatureConfig { enabled: c.airplane.enabled, ..x1.airplane }, ..x1 };
    lemma_apply_all_step(ls, 1, n + 1, x1, x2);
    lemma_reads_doze_enabled(c, n + 2, x2);
    let x3 = UtensilConfigView { doze: FeatureConfig { enabled: c.doze.enabled, ..x2.doze }, ..x2 };
    lemma_apply_all_step(ls, 2, n + 2, x2, x3);
    lemma_reads_compaction_enabled(c, n + 3, x3);
    let x4 = UtensilConfigView { compaction: CompactionConfig { enabled: c.compaction.enabled, ..x3.compaction }, ..x3 };
    lemma_apply_all_step(ls, 3, n + 3, x3, x4);
    lemma_reads_compaction_hardlock_ticks(c, n + 4, x4);
    let x5 = UtensilConfigView { compaction: CompactionConfig { hardlock_ticks: c.compaction.hardlock_ticks, ..x4.compaction }, ..x4 };
    lemma_apply_all_step(ls, 4, n + 4, x4, x5);
    lemma_reads_watchdog_enabled(c, n + 5, x5);
    let x6 = UtensilConfigView { watchdog: WatchdogConfig { enabled: c.watchdog.enabled, ..x5.watchdog }, ..x5 };
    lemma_apply_all_step(ls, 5, n + 5, x5, x6);
    lemma_reads_watchdog_jobscheduler(c, n + 6, x6);
    let x7 = UtensilConfigView { watchdog: WatchdogConfig { jobscheduler: c.watchdog.jobscheduler, ..x6.watchdog }, ..x6 };
    lemma_apply_all_step(ls, 6, n + 6, x6, x7);
    assert(ls.subrange(0, ls.len() as int) =~= ls);
    lemma_apply_all_nil(ls.subrange(7, ls.len() as int), n + 7, x7);
    assert forall|i: int| 0 <= i < ls.len() implies crate::text::no_newline(#[trigger] ls[i]) by {
        if i == 0 {} else if i == 1 {} else if i == 2 {} else if i == 3 {} else if i == 4 {} else if i == 5 {} else if i == 6 {}
    }
}

proof fn lemma_reads_watchdog_timeout_secs(c: UtensilConfigView, n: nat, x: UtensilConfigView)
    ensures
        apply_line("watchdog.timeout_secs="@ + decimal(c.watchdog.timeout_secs as nat), n, x) == Ok::<UtensilConfigView, ConfigErrorView>(UtensilConfigView { watchdog: WatchdogConfig { timeout_secs: c.watchdog.timeout_secs, ..x.watchdog }, ..x }),
        crate::text::no_newline("watchdog.timeout_secs="@ + decimal(c.watchdog.timeout_secs as nat)),
{
    lemma_setting_names();
    lemma_number_text(c.watchdog.timeout_secs as nat, u64::MAX as nat);
    lemma_setting_line("watchdog.timeout_secs"@, decimal(c.watchdog.timeout_secs as nat), n, x);
}

proof fn lemma_reads_watchdog_idle_threshold_secs(c: UtensilConfigView, n: nat, x: UtensilConfigView)
    ensures
        apply_line("watchdog.idle_threshold_secs="@ + decimal(c.watchdog.idle_threshold_secs as nat), n, x) == Ok::<UtensilConfigView, ConfigErrorView>(UtensilConfigView { watchdog: WatchdogConfig { idle_threshold_secs: c.watchdog.idle_threshold_secs, ..x.watchdog }, ..x }),
        crate::text::no_newline("watchdog.idle_threshold_secs="@ + decimal(c.watchdog.idle_threshold_secs as nat)),
{
    lemma_setting_names();
    lemma_number_text(c.watchdog.idle_threshold_secs as nat, u64::MAX as nat);
    lemma_setting_line("watchdog.idle_threshold_secs"@, decimal(c.watchdog.idle_threshold_secs as nat), n, x);
}

proof fn lemma_reads_drain_enabled(c: UtensilConfigView, n: nat, x: UtensilConfigView)
    ensures
        apply_line("drain.enabled="@ + bool_text(c.drain.enabled), n, x) == Ok::<UtensilConfigView, ConfigErrorView>(UtensilConfigView { drain: FeatureConfig { enabled: c.drain.enabled, ..x.drain }, ..x }),
        crate::text::no_newline("drain.enabled="@ + bool_text(c.drain.enabled)),
{
    lemma_setting_names();
    lemma_bool_text(c.drain.enabled);
    lemma_setting_line("drain.enabled"@, bool_text(c.drain.enabled), n, x);
}

proof fn lemma_reads_notification_enabled(c: UtensilConfigView, n: nat, x: UtensilConfigView)
    ensures
        apply_line("notification.enabled="@ + bool_text(c.notification.enabled), n, x) == Ok::<UtensilConfigView, ConfigErrorView>(UtensilConfigView { notification: FeatureConfig { enabled: c.notification.enabled, ..x.notification }, ..x }),
        crate::text::no_newline("notification.enabled="@ + bool_text(c.notification.enabled)),
{
    lemma_setting_names();
    lemma_bool_text(c.notification.enabled);
    lemma_setting_line("notification.enabled"@, bool_text(c.notification.enabled), n, x);
}

proof fn lemma_reads_logging_enabled(c: UtensilConfigView, n: nat, x: UtensilConfigView)
    ensures
        apply_line("logging.enabled="@ + bool_text(c.logging.enabled), n, x) == Ok::<UtensilConfigView, ConfigErrorView>(UtensilConfigView { logging: FeatureConfig { enabled: c.logging.enabled, ..x.logging }, ..x }),
        crate::text::no_newline("logging.enabled="@ + bool_text(c.logging.enabled)),
{
    lemma_setting_names();
    lemma_bool_text(c.logging.enabled);
    lemma_setting_line("logging.enabled"@, bool_text(c.logging.enabled), n, x);
}

proof fn lemma_reads_dry_run(c: UtensilConfigView, n: nat, x: UtensilConfigView)
    ensures
        apply_line("dry_run="@ + bool_text(c.dry_run), n, x) == Ok::<UtensilConfigView, ConfigErrorView>(UtensilConfigView { dry_run: c.dry_run, ..x }),
        crate::text::no_newline("dry_run="@ + bool_text(c.dry_run)),
{
    lemma_setting_names();
    lemma_bool_text(c.dry_run);
    lemma_setting_line("dry_run"@, bool_text(c.dry_run), n, x);
}

/// The watchdog time and remaining switch lines of the printed configuration set what they print.
#[verifier::rlimit(80)]
#[verifier::spinoff_prover]
proof fn lemma_feature_rest_lines_read_back(c: UtensilConfigView, n: nat, x: UtensilConfigView)
    ensures
        apply_all(feature_rest_lines(c), n, x) == Ok::<UtensilConfigView, ConfigErrorView>(UtensilConfigView { watchdog: WatchdogConfig { timeout_secs: c.watchdog.timeout_secs, idle_threshold_secs: c.watchdog.idle_threshold_secs, ..x.watchdog }, drain: c.drain, notification: c.notification, logging: c.logging, dry_run: c.dry_run, ..x }),
        forall|i: int| 0 <= i < feature_rest_lines(c).len() ==> crate::text::no_newline(#[trigger] feature_rest_lines(c)[i]),
{
    let ls = feature_rest_lines(c);
    let x0 = x;
    lemma_reads_watchdog_timeout_secs(c, n + 0, x0);
    let x1 = UtensilConfigView { watchdog: WatchdogConfig { timeout_secs: c.watchdog.timeout_secs, ..x0.watchdog }, ..x0 };
    lemma_apply_all_step(ls, 0, n + 0, x0, x1);
    lemma_reads_watchdog_idle_threshold_secs(c, n + 1, x1);
    let x2 = UtensilConfigView { watchdog: WatchdogConfig { idle_threshold_secs: c.watchdog.idle_threshold_secs, ..x1.watchdog }, ..x1 };
    lemma_apply_all_step(ls, 1, n + 1, x1, x2);
    lemma_reads_drain_enabled(c, n + 2, x2);
    let x3 = UtensilConfigView { drain: FeatureConfig { enabled: c.drain.enabled, ..x2.drain }, ..x2 };
    lemma_apply_all_step(ls, 2, n + 2, x2, x3);
    lemma_reads_notification_enabled(c, n + 3, x3);
    let x4 = UtensilConfigView { notification: FeatureConfig { enabled: c.notification.enabled, ..x3.notification }, ..x3 };
    lemma_apply_all_step(ls, 3, n + 3, x3, x4);
    lemma_reads_logging_enabled(c, n + 4, x4);
    let x5 = UtensilConfigView { logging: FeatureConfig { enabled: c.logging.enabled, ..x4.logging }, ..x4 };
    lemma_apply_all_step(ls, 4, n + 4, x4, x5);
    lemma_reads_dry_run(c, n + 5, x5);
    let x6 = UtensilConfigView { dry_run: c.dry_run, ..x5 };
    lemma_apply_all_step(ls, 5, n + 5, x5, x6);
    assert(ls.subrange(0, ls.len() as int) =~= ls);
    lemma_apply_all_nil(ls.subrange(6, ls.len() as int), n + 6, x6);
    assert forall|i: int| 0 <= i < ls.len() implies crate::text::no_newline(#[trigger] ls[i]) by {
        if i == 0 {} else if i == 1 {} else if i == 2 {} else if i == 3 {} else if i == 4 {} else if i == 5 {}
    }
}

proof fn lemma_reads_path_learning_file(c: UtensilConfigView, n: nat, x: UtensilConfigView)
    requires
        crate::text::clean_value(c.paths.learning_file),
    ensures
        apply_line("path.learning_file="@ + c.paths.learning_file, n, x) == Ok::<UtensilConfigView, ConfigErrorView>(UtensilConfigView { paths: PathConfigView { learning_file: c.paths.learning_file, ..x.paths }, ..x }),
        crate::text::no_newline("path.learning_file="@ + c.paths.learning_file),
{
    lemma_setting_names();
    lemma_setting_line("path.learning_file"@, c.paths.learning_file, n, x);
}

proof fn lemma_reads_path_threshold_file(c: UtensilConfigView, n: nat, x: UtensilConfigView)
    requires
        crate::text::clean_value(c.paths.threshold_file),
    ensures
        apply_line("path.threshold_file="@ + c.paths.threshold_file, n, x) == Ok::<UtensilConfigView, ConfigErrorView>(UtensilConfigView { paths: PathConfigView { threshold_file: c.paths.threshold_file, ..x.paths }, ..x }),
        crate::text::no_newline("path.threshold_file="@ + c.paths.threshold_file),
{
    lemma_setting_names();
    lemma_setting_line("path.threshold_file"@, c.paths.threshold_file, n, x);
}

proof fn lemma_reads_path_whitelist_file(c: UtensilConfigView, n: nat, x: UtensilConfigView)
    requires
        crate::text::clean_value(c.paths.whitelist_file),
    ensures
        apply_line("path.whitelist_file="@ + c.paths.whitelist_file, n, x) == Ok::<UtensilConfigView, ConfigErrorView>(UtensilConfigView { paths: PathConfigView { whitelist_file: c.paths.whitelist_file, ..x.paths }, ..x }),
        crate::text::no_newline("path.whitelist_file="@ + c.paths.whitelist_file),
{
    lemma_setting_names();
    lemma_setting_line("path.whitelist_file"@, c.paths.whitelist_file, n, x);
}

proof fn lemma_reads_path_drain_log_file(c: UtensilConfigView, n: nat, x: UtensilConfigView)
    requires
        crate::text::clean_value(c.paths.drain_log_file),
    ensures
        apply_line("path.drain_log_file="@ + c.paths.drain_log_file, n, x) == Ok::<UtensilConfigView, ConfigErrorView>(UtensilConfigView { paths: PathConfigView { drain_log_file: c.paths.drain_log_file, ..x.paths }, ..x }),
        crate::text::no_newline("path.drain_log_file="@ + c.paths.drain_log_file),
{
    lemma_setting_names();
    lemma_setting_line("path.drain_log_file"@, c.paths.drain_log_file, n, x);
}

proof fn lemma_reads_path_packages_xml(c: UtensilConfigView, n: nat, x: UtensilConfigView)
    requires
        crate::text::clean_value(c.paths.packages_xml),
    ensures
        apply_line("path.packages_xml="@ + c.paths.packages_xml, n, x) == Ok::<UtensilConfigView, ConfigErrorView>(UtensilConfigView { paths: PathConfigView { packages_xml: c.paths.packages_xml, ..x.paths }, ..x }),
        crate::text::no_newline("path.packages_xml="@ + c.paths.packages_xml),
{
    lemma_setting_names();
    lemma_setting_line("path.packages_xml"@, c.paths.packages_xml, n, x);
}

/// The path lines of the printed configuration set what they print.
#[verifier::rlimit(80)]
#[verifier::spinoff_prover]
proof fn lemma_path_lines_read_back(c: UtensilConfigView, n: nat, x: UtensilConfigView)
    requires
        crate::text::clean_value(c.paths.learning_file),
        crate::text::clean_value(c.paths.threshold_file),
        crate::text::clean_value(c.paths.whitelist_file),
        crate::text::clean_value(c.paths.drain_log_file),
        crate::text::clean_value(c.paths.packages_xml),
    ensures
        apply_all(path_lines(c), n, x) == Ok::<UtensilConfigView, ConfigErrorView>(UtensilConfigView { paths: PathConfigView { learning_file: c.paths.learning_file, threshold_file: c.paths.threshold_file, whitelist_file: c.paths.whitelist_file, drain_log_file: c.paths.drain_log_file, packages_xml: c.paths.packages_xml, ..x.paths }, ..x }),
        forall|i: int| 0 <= i < path_lines(c).len() ==> crate::text::no_newline(#[trigger] path_lines(c)[i]),
{
    let ls = path_lines(c);
    let x0 = x;
    lemma_reads_path_learning_file(c, n + 0, x0);
    let x1 = UtensilConfigView { paths: PathConfigView { learning_file: c.paths.learning_file, ..x0.paths }, ..x0 };
    lemma_apply_all_step(ls, 0, n + 0, x0, x1);
    lemma_reads_path_threshold_file(c, n + 1, x1);
    let x2 = UtensilConfigView { paths: PathConfigView { threshold_file: c.paths.threshold_file, ..x1.paths }, ..x1 };
    lemma_apply_all_step(ls, 1, n + 1, x1, x2);
    lemma_reads_path_whitelist_file(c, n + 2, x2);
    let x3 = UtensilConfigView { paths: PathConfigView { whitelist_file: c.paths.whitelist_file, ..x2.paths }, ..x2 };
    lemma_apply_all_step(ls, 2, n + 2, x2, x3);
    lemma_reads_path_drain_log_file(c, n + 3, x3);
    let x4 = UtensilConfigView { paths: PathConfigView { drain_log_file: c.paths.drain_log_file, ..x3.paths }, ..x3 };
    lemma_apply_all_step(ls, 3, n + 3, x3, x4);
    lemma_reads_path_packages_xml(c, n + 4, x4);
    let x5 = UtensilConfigView { paths: PathConfigView { packages_xml: c.paths.packages_xml, ..x4.paths }, ..x4 };
    lemma_apply_all_step(ls, 4, n + 4, x4, x5);
    assert(ls.subrange(0, ls.len() as int) =~= ls);
    lemma_apply_all_nil(ls.subrange(5, ls.len() as int), n + 5, x5);
    assert forall|i: int| 0 <= i < ls.len() implies crate::text::no_newline(#[trigger] ls[i]) by {
        if i == 0 {} else if i == 1 {} else if i == 2 {} else if i == 3 {} else if i == 4 {}
    }
}

proof fn lemma_concat_no_newline(a: Seq<Seq<char>>, b: Seq<Seq<char>>)
    requires
        forall|i: int| 0 <= i < a.len() ==> crate::text::no_newline(#[trigger] a[i]),
        forall|i: int| 0 <= i < b.len() ==> crate::text::no_newline(#[trigger] b[i]),
    ensures
        forall|i: int| 0 <= i < (a + b).len() ==> crate::text::no_newline(#[trigger] (a + b)[i]),
{
    assert forall|i: int| 0 <= i < (a + b).len() implies crate::text::no_newline(#[trigger] (a + b)[i]) by {
        if i < a.len() {
            assert((a + b)[i] == a[i]);
        } else {
            assert((a + b)[i] == b[i - a.len()]);
        }
    }
}

proof fn lemma_head_line_read_back(c: UtensilConfigView, n: nat, x: UtensilConfigView)
    ensures
        apply_all(head_lines(c), n, x) == Ok::<UtensilConfigView, ConfigErrorView>(x),
        forall|i: int| 0 <= i < head_lines(c).len() ==> crate::text::no_newline(#[trigger] head_lines(c)[i]),
{
    reveal_strlit("# Utensil Poker Rust config");
    let ls = head_lines(c);
    let h = ls[0];
    assert(crate::text::trim_start(h) == h);
    assert(crate::text::trim_end(h) == h);
    assert(apply_line(h, n, x) == Ok::<UtensilConfigView, ConfigErrorView>(x));
    assert(ls.subrange(0, 1) =~= ls);
    lemma_apply_all_step(ls, 0, n, x, x);
    lemma_apply_all_nil(ls.subrange(1, 1), n + 1, x);
    assert forall|i: int| 0 <= i < ls.len() implies crate::text::no_newline(#[trigger] ls[i]) by {
        assert(i == 0);
    }
}

proof fn lemma_battery_lines_read_back(c: UtensilConfigView, n: nat, x: UtensilConfigView)
    requires
        c.battery.dynamic_threshold <= 100,
        c.battery.min_threshold <= 100,
        c.battery.max_threshold <= 100,
        c.battery.refresh_rate_low is Some ==> c.battery.refresh_rate_low->0.len() > 0 && crate::text::clean_value(c.battery.refresh_rate_low->0),
        c.battery.refresh_rate_default is Some ==> c.battery.refresh_rate_default->0.len() > 0 && crate::text::clean_value(c.battery.refresh_rate_default->0),
    ensures
        apply_all(battery_lines(c), n, x) == Ok::<UtensilConfigView, ConfigErrorView>(
            UtensilConfigView { battery: c.battery, ..x },
        ),
        forall|i: int| 0 <= i < battery_lines(c).len() ==> crate::text::no_newline(#[trigger] battery_lines(c)[i]),
{
    lemma_battery_core_lines_read_back(c, n, x);
    let a = battery_core_lines(c);
    let x1 = apply_all(a, n, x)->Ok_0;
    lemma_battery_optional_lines_read_back(c, n + a.len(), x1);
    lemma_apply_all_concat(a, battery_optional_lines(c), n, x);
    lemma_concat_no_newline(a, battery_optional_lines(c));
}

proof fn lemma_feature_lines_read_back(c: UtensilConfigView, n: nat, x: UtensilConfigView)
    ensures
        apply_all(feature_lines(c), n, x) == Ok::<UtensilConfigView, ConfigErrorView>(
            UtensilConfigView {
                sensors: c.sensors,
                airplane: c.airplane,
                doze: c.doze,
                compaction: c.compaction,
                watchdog: c.watchdog,
                drain: c.drain,
                notification: c.notification,
                logging: c.logging,
                dry_run: c.dry_run,
                ..x
            },
        ),
        forall|i: int| 0 <= i < feature_lines(c).len() ==> crate::text::no_newline(#[trigger] feature_lines(c)[i]),
{
    lemma_feature_switch_lines_read_back(c, n, x);
    let a = feature_switch_lines(c);
    let x1 = apply_all(a, n, x)->Ok_0;
    lemma_feature_rest_lines_read_back(c, n + a.len(), x1);
    lemma_apply_all_concat(a, feature_rest_lines(c), n, x);
    lemma_concat_no_newline(a, feature_rest_lines(c));
}

/// The configuration that reading back the printed `c` over `base` gives:
/// `c`, with the home directory (which is not printed) from `base`.
pub open spec fn printed_config(c: UtensilConfigView, base: UtensilConfigView) -> UtensilConfigView {
    UtensilConfigView { paths: PathConfigView { home: base.paths.home, ..c.paths }, ..c }
}

/// A set optional text setting that reads back as printed: not empty, with
/// no line break and no whitespace at its ends.
pub open spec fn printable_text(o: Option<Seq<char>>) -> bool {
    o is Some ==> o->0.len() > 0 && crate::text::clean_value(o->0)
}

/// A configuration that reads back as printed: its percentages are at most
/// 100, and its paths and set refresh rates have no line break and no
/// whitespace at their ends (and the refresh rates are not empty).
pub open spec fn printable(c: UtensilConfigView) -> bool {
    &&& c.battery.dynamic_threshold <= 100
    &&& c.battery.min_threshold <= 100
    &&& c.battery.max_threshold <= 100
    &&& c.thermal.charging_status <= 100
    &&& c.thermal.charging_done_status <= 100
    &&& c.thermal.discharging_normal <= 100
    &&& c.thermal.discharging_low <= 100
    &&& c.thermal.discharging_critical <= 100
    &&& c.thermal.critical_level <= 100
    &&& crate::text::clean_value(c.paths.learning_file)
    &&& crate::text::clean_value(c.paths.threshold_file)
    &&& crate::text::clean_value(c.paths.whitelist_file)
    &&& crate::text::clean_value(c.paths.drain_log_file)
    &&& crate::text::clean_value(c.paths.packages_xml)
    &&& printable_text(c.battery.refresh_rate_low)
    &&& printable_text(c.battery.refresh_rate_default)
}

proof fn lemma_config_lines_no_newline(c: UtensilConfigView)
    requires
        printable(c),
    ensures
        forall|i: int| 0 <= i < config_lines(c).len() ==> crate::text::no_newline(#[trigger] config_lines(c)[i]),
{
    let h = head_lines(c);
    let b = battery_lines(c);
    let t = thermal_lines(c);
    let f = feature_lines(c);
    let p = path_lines(c);
    let x = UtensilConfigView { dry_run: false, ..c };
    lemma_head_line_read_back(c, 1, x);
    lemma_battery_lines_read_back(c, 1, x);
    lemma_thermal_lines_read_back(c, 1, x);
    lemma_feature_lines_read_back(c, 1, x);
    lemma_path_lines_read_back(c, 1, x);
    lemma_concat_no_newline(h, b);
    lemma_concat_no_newline(h + b, t);
    lemma_concat_no_newline(h + b + t, f);
    lemma_concat_no_newline(h + b + t + f, p);
}

pub open spec fn after_battery(c: UtensilConfigView, base: UtensilConfigView) -> UtensilConfigView {
    UtensilConfigView { battery: c.battery, ..base }
}

pub open spec fn after_thermal(c: UtensilConfigView, base: UtensilConfigView) -> UtensilConfigView {
    UtensilConfigView { thermal: c.thermal, ..after_battery(c, base) }
}

pub open spec fn after_features(c: UtensilConfigView, base: UtensilConfigView) -> UtensilConfigView {
    UtensilConfigView {
        sensors: c.sensors,
        airplane: c.airplane,
        doze: c.doze,
        compaction: c.compaction,
        watchdog: c.watchdog,
        drain: c.drain,
        notification: c.notification,
        logging: c.logging,
        dry_run: c.dry_run,
        ..after_thermal(c, base)
    }
}

proof fn lemma_through_battery(c: UtensilConfigView, base: UtensilConfigView)
    requires
        printable(c),
    ensures
        apply_all(head_lines(c) + battery_lines(c), 1, base) == Ok::<UtensilConfigView, ConfigErrorView>(
            after_battery(c, base),
        ),
{
    lemma_head_line_read_back(c, 1, base);
    lemma_battery_lines_read_back(c, 2, base);
    lemma_concat_step(head_lines(c), battery_lines(c), 1, base, base, after_battery(c, base));
}

proof fn lemma_through_thermal(c: UtensilConfigView, base: UtensilConfigView)
    requires
        printable(c),
    ensures
        apply_all(head_lines(c) + battery_lines(c) + thermal_lines(c), 1, base) == Ok::<
            UtensilConfigView,
            ConfigErrorView,
        >(after_thermal(c, base)),
{
    lemma_through_battery(c, base);
    lemma_thermal_lines_read_back(c, 17, after_battery(c, base));
    lemma_concat_step(
        head_lines(c) + battery_lines(c),
        thermal_lines(c),
        1,
        base,
        after_battery(c, base),
        after_thermal(c, base),
    );
}

proof fn lemma_through_features(c: UtensilConfigView, base: UtensilConfigView)
    requires
        printable(c),
    ensures
        apply_all(head_lines(c) + battery_lines(c) + thermal_lines(c) + feature_lines(c), 1, base)
            == Ok::<UtensilConfigView, ConfigErrorView>(after_features(c, base)),
{
    lemma_through_thermal(c, base);
    lemma_feature_lines_read_back(c, 24, after_thermal(c, base));
    lemma_concat_step(
        head_lines(c) + battery_lines(c) + thermal_lines(c),
        feature_lines(c),
        1,
        base,
        after_thermal(c, base),
        after_features(c, base),
    );
}

proof fn lemma_config_lines_apply(c: UtensilConfigView, base: UtensilConfigView)
    requires
        printable(c),
    ensures
        apply_all(config_lines(c), 1, base) == Ok::<UtensilConfigView, ConfigErrorView>(
            printed_config(c, base),
        ),
{
    lemma_through_features(c, base);
    lemma_path_lines_read_back(c, 37, after_features(c, base));
    lemma_concat_step(
        head_lines(c) + battery_lines(c) + thermal_lines(c) + feature_lines(c),
        path_lines(c),
        1,
        base,
        after_features(c, base),
        printed_config(c, base),
    );
}

proof fn lemma_concat_step(
    a: Seq<Seq<char>>,
    b: Seq<Seq<char>>,
    n: nat,
    x: UtensilConfigView,
    y: UtensilConfigView,
    z: UtensilConfigView,
)
    requires
        apply_all(a, n, x) == Ok::<UtensilConfigView, ConfigErrorView>(y),
        apply_all(b, n + a.len(), y) == Ok::<UtensilConfigView, ConfigErrorView>(z),
    ensures
        apply_all(a + b, n, x) == Ok::<UtensilConfigView, ConfigErrorView>(z),
{
    lemma_apply_all_concat(a, b, n, x);
}

/// What `print-default-config` prints reads back: parsing the printed text
/// of a configuration over any base gives that configuration, every setting
/// included, with only the home directory (which is not printed) kept from
/// the base.
pub proof fn lemma_printed_config_reads_back(c: UtensilConfigView, base: UtensilConfigView)
    requires
        printable(c),
    ensures
        parse_config_spec(config_text(c), base) == Ok::<UtensilConfigView, ConfigErrorView>(
            printed_config(c, base),
        ),
{
    lemma_config_lines_no_newline(c);
    lemma_config_lines_apply(c, base);
    lemma_apply_lines_join(config_lines(c), 1, base);
}

} // verus!
