use utensil::webui::{
    classify_bridge_command, config_entries, config_lookup, head_end, is_loopback, json_escape,
    marker_answer_text, marker_config_key, marker_disabled_value, marker_enabled, marker_updates,
    parse_marker_exists, parse_printf_values, parse_rm_marker, parse_touch_marker,
    parse_web_args, patch_index, reason_phrase, request_head, response_head_text, route,
    thermal_report_text, thermal_updates, update_config_text, words_of, BridgeRequest,
    ExecResult, Route,
};

fn pairs(list: &[(&str, &str)]) -> Vec<(String, String)> {
    list.iter().map(|(k, v)| (k.to_string(), v.to_string())).collect()
}

#[test]
fn patches_kernelsu_import_and_utensil_command() {
    let patched = patch_index(
        "import { exec, fullScreen } from \"ax://kernelsu.js\";\nexec(`utensil ${command}`)",
    );
    assert!(!patched.contains("ax://"));
    assert!(patched.contains("/api/exec"));
    assert!(patched.contains("utensil-poker ${command}"));
}

#[test]
fn recognizes_webui_config_markers() {
    assert_eq!(
        parse_marker_exists("[ -f \"/data/local/tmp/utensil/sensorconfiguration\" ] && echo 1 || echo 0")
            .as_deref(),
        Some("sensorconfiguration")
    );
    assert_eq!(marker_config_key("sensorconfiguration"), Some(("sensors.enabled", "true")));
    assert_eq!(marker_config_key("refreshrateconfig"), Some(("battery.refresh_rate_low", "60.0")));
    assert!(marker_config_key("has_high_rr").is_none());
}

#[test]
fn parses_thermal_printf_payload() {
    let values = parse_printf_values(
        "printf '%s\\n' 'thermal_discharging_normal=1' 'thermal_discharging_low=4' 'thermal_discharging_critical=5' 'thermal_critical_level=30' > /data/local/tmp/utensil/thermalconfiguration",
    );
    assert_eq!(
        values,
        vec![
            "thermal_discharging_normal=1",
            "thermal_discharging_low=4",
            "thermal_discharging_critical=5",
            "thermal_critical_level=30"
        ]
    );
}

#[test]
fn marker_commands_name_their_marker() {
    assert_eq!(parse_touch_marker("touch /data/local/tmp/utensil/draincheck").as_deref(), Some("draincheck"));
    assert_eq!(parse_rm_marker("rm -f /data/local/tmp/utensil/draincheck").as_deref(), Some("draincheck"));
    assert_eq!(parse_touch_marker("touch /data/local/tmp/utensil/a b"), None);
    assert_eq!(parse_rm_marker("rm /data/local/tmp/utensil/x"), None);
    assert_eq!(marker_disabled_value("timeoutflag"), "");
    assert_eq!(marker_disabled_value("draincheck"), "false");
}

#[test]
fn configuration_entries_are_read_like_the_parser() {
    let entries = config_entries("# c\n a = 1 \nb=2\n\nnot a setting\na=3\n");
    assert_eq!(entries, pairs(&[("a", "1"), ("b", "2"), ("a", "3")]));
    assert_eq!(config_lookup(&entries, "a").as_deref(), Some("3"));
    assert_eq!(config_lookup(&entries, "c"), None);
}

#[test]
fn config_updates_rewrite_or_append() {
    let updated = update_config_text("a=1\nthermal.enabled = false\r\n# note\n", &pairs(&[("thermal.enabled", "true")]));
    assert_eq!(updated, "a=1\nthermal.enabled=true\n# note\n");
    let appended = update_config_text("a=1", &pairs(&[("b", "2"), ("c", "")]));
    assert_eq!(appended, "a=1\nb=2\nc=\n");
    assert_eq!(update_config_text("", &Vec::new()), "\n");
}

#[test]
fn touched_markers_read_back_on_and_removed_ones_off() {
    let text = "# Utensil\nsensors.enabled=false\n";
    let on = update_config_text(text, &marker_updates("sensorconfiguration", true).unwrap());
    assert!(marker_enabled(&config_entries(&on), "sensorconfiguration"));
    assert_eq!(marker_answer_text(&config_entries(&on), "sensorconfiguration"), "1\n");
    let off = update_config_text(&on, &marker_updates("sensorconfiguration", false).unwrap());
    assert!(!marker_enabled(&config_entries(&off), "sensorconfiguration"));
    assert_eq!(marker_answer_text(&config_entries(&off), "sensorconfiguration"), "0\n");
    let timeout = update_config_text(text, &marker_updates("timeoutflag", true).unwrap());
    assert!(marker_enabled(&config_entries(&timeout), "timeoutflag"));
    assert!(marker_updates("has_high_rr", true).is_none());
}

#[test]
fn thermal_writes_read_back() {
    let values = parse_printf_values(
        "printf '%s\\n' 'thermal_discharging_normal=1' 'thermal_discharging_low=4' 'thermal_discharging_critical=5' 'thermal_critical_level=30' > /data/local/tmp/utensil/thermalconfiguration",
    );
    let updates = thermal_updates(&values);
    assert_eq!(
        updates,
        pairs(&[
            ("thermal.critical_level", "30"),
            ("thermal.discharging_critical", "5"),
            ("thermal.discharging_low", "4"),
            ("thermal.discharging_normal", "1"),
            ("thermal.enabled", "true"),
        ])
    );
    let text = update_config_text("thermal.enabled=false\n", &updates);
    assert_eq!(
        thermal_report_text(&config_entries(&text)),
        "thermal_discharging_normal=1\nthermal_discharging_low=4\nthermal_discharging_critical=5\nthermal_critical_level=30\n"
    );
    assert_eq!(
        thermal_report_text(&Vec::new()),
        "thermal_discharging_normal=1\nthermal_discharging_low=2\nthermal_discharging_critical=3\nthermal_critical_level=20\n"
    );
    assert_eq!(thermal_updates(&vec!["x=1".to_string()]), pairs(&[("thermal.enabled", "true")]));
}

#[test]
fn bridge_commands_are_classified() {
    assert_eq!(classify_bridge_command("getprop  ro.build.id "), BridgeRequest::GetProp("ro.build.id".to_string()));
    assert_eq!(
        classify_bridge_command("setprop debug.x  1"),
        BridgeRequest::SetProp("debug.x".to_string(), "1".to_string())
    );
    assert_eq!(classify_bridge_command("setprop debug.x"), BridgeRequest::Unhandled);
    assert_eq!(
        classify_bridge_command("[ -f \"/data/local/tmp/utensil/draincheck\" ] && echo 1 || echo 0"),
        BridgeRequest::MarkerQuery("draincheck".to_string())
    );
    assert_eq!(
        classify_bridge_command("touch /data/local/tmp/utensil/cmdthermal"),
        BridgeRequest::MarkerSet("cmdthermal".to_string(), true)
    );
    assert_eq!(
        classify_bridge_command("rm -f /data/local/tmp/utensil/cmdthermal"),
        BridgeRequest::MarkerSet("cmdthermal".to_string(), false)
    );
    assert_eq!(classify_bridge_command("touch /data/local/tmp/utensil/has_high_rr"), BridgeRequest::Unhandled);
    assert_eq!(
        classify_bridge_command("cat /data/local/tmp/utensil/thermalconfiguration 2>/dev/null || echo \"\""),
        BridgeRequest::ThermalRead
    );
    assert_eq!(
        classify_bridge_command("printf '%s\\n' 'thermal_critical_level=30' > /data/local/tmp/utensil/thermalconfiguration"),
        BridgeRequest::ThermalWrite(pairs(&[("thermal.critical_level", "30"), ("thermal.enabled", "true")]))
    );
    assert_eq!(classify_bridge_command("ls /"), BridgeRequest::Unhandled);
}

#[test]
fn words_split_on_whitespace() {
    assert_eq!(words_of("  a \t bc d "), vec!["a", "bc", "d"]);
    assert!(words_of("   ").is_empty());
}

#[test]
fn json_escapes_quotes_and_controls() {
    assert_eq!(json_escape("a\"b\\c\nd\re\tf\u{1}"), "a\\\"b\\\\c\\nd\\re\\tf\\u0001");
    assert_eq!(json_escape("plain é"), "plain é");
    assert_eq!(
        ExecResult::stdout("ok\n").to_json(),
        "{\"stdout\":\"ok\\n\",\"stderr\":\"\",\"exitCode\":0}"
    );
    let failed = ExecResult { stdout: String::new(), stderr: "no".to_string(), exit_code: -1 };
    assert_eq!(failed.to_json(), "{\"stdout\":\"\",\"stderr\":\"no\",\"exitCode\":-1}");
}

#[test]
fn requests_are_routed() {
    assert_eq!(route("GET", "/"), Route::Index);
    assert_eq!(route("GET", "/index.html"), Route::Index);
    assert_eq!(route("GET", "/health"), Route::Health);
    assert_eq!(route("POST", "/api/exec"), Route::Exec);
    assert_eq!(route("POST", "/"), Route::NotFound);
    assert_eq!(route("GET", "/x"), Route::NotFound);
}

#[test]
fn request_heads_are_parsed() {
    let head = request_head("POST /api/exec HTTP/1.1\r\nHost: x\r\nContent-Length: 5\r\n\r\nhello");
    assert_eq!(head.method, "POST");
    assert_eq!(head.path, "/api/exec");
    assert_eq!(head.content_length, 5);
    let bare = request_head("");
    assert_eq!(bare.method, "");
    assert_eq!(bare.path, "/");
    assert_eq!(bare.content_length, 0);
    assert_eq!(request_head("GET / HTTP/1.1\r\nContent-Length: x\r\n").content_length, 0);
    assert_eq!(head_end(&b"GET / HTTP/1.1\r\n\r\nbody".to_vec()), Some(18));
    assert_eq!(head_end(&b"GET / HTTP/1.1\r\n".to_vec()), None);
}

#[test]
fn responses_carry_status_and_length() {
    assert_eq!(
        response_head_text(200, "text/plain", 3),
        "HTTP/1.1 200 OK\r\nContent-Type: text/plain\r\nContent-Length: 3\r\nConnection: close\r\n\r\n"
    );
    assert_eq!(reason_phrase(413), "Payload Too Large");
    assert_eq!(reason_phrase(404), "Not Found");
    assert_eq!(reason_phrase(500), "Internal Server Error");
    assert_eq!(reason_phrase(302), "Error");
}

#[test]
fn bridge_options_are_read() {
    let defaults = parse_web_args(&Vec::new()).unwrap();
    assert_eq!(defaults.listen, "127.0.0.1:8787");
    assert_eq!(defaults.webroot, "/system/etc/utensil/webroot");
    let args: Vec<String> = ["--webroot", "/tmp/w", "--listen", "127.0.0.1:9"].iter().map(|s| s.to_string()).collect();
    let parsed = parse_web_args(&args).unwrap();
    assert_eq!(parsed.listen, "127.0.0.1:9");
    assert_eq!(parsed.webroot, "/tmp/w");
    assert_eq!(parse_web_args(&vec!["--listen".to_string()]).unwrap_err(), "missing --listen value");
    assert_eq!(parse_web_args(&vec!["--webroot".to_string()]).unwrap_err(), "missing --webroot value");
    assert_eq!(parse_web_args(&vec!["-x".to_string()]).unwrap_err(), "unknown argument `-x`");
}

#[test]
fn only_loopback_addresses_are_served() {
    assert!(is_loopback("127.0.0.1:8787"));
    assert!(is_loopback("localhost:80"));
    assert!(!is_loopback("0.0.0.0:8787"));
    assert!(!is_loopback("localhost"));
}
