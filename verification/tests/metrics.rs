use brewster::firmware::metrics::{
    celsius, fahrenheit, fmt_ip, history_json, json, number, prometheus, replace, text,
    HeapRegion, HeapReport, RegionKind, TargetText, TelemetryReport,
};
use brewster::firmware::shared::{parse_ipv4_octets, NtpSource};
use brewster::firmware::status::{
    metrics_snapshot, ntp_peers_snapshot, prometheus_snapshot, update_ip_from_cidr,
    update_ntp_peer_stats, update_ntp_time, update_success, MetricsSnapshot, NtpPeerSnapshot,
    RuntimeSample, RuntimeState,
};
use brewster::firmware::storage::{HistorySample, StorageState};

const HZ: u64 = 1_000_000;

fn heap() -> HeapReport {
    HeapReport {
        free: 30,
        used: 70,
        size: 100,
        current_usage: 70,
        regions: vec![
            Some(HeapRegion { kind: RegionKind::Internal, size: 100, used: 75, free: 25 }),
            None,
            Some(HeapRegion { kind: RegionKind::External, size: 0, used: 0, free: 0 }),
        ],
    }
}

fn target() -> TargetText {
    TargetText { celsius: "19.50".to_string(), fahrenheit: "67.10".to_string() }
}

fn running() -> RuntimeState {
    let mut state = RuntimeState::new();
    update_success(
        &mut state,
        RuntimeSample {
            temp_raw: 345,
            pid_deci: 456,
            heating_on: true,
            heat_on: false,
            led_red: 1,
            led_green: 2,
            led_blue: 3,
            pid_window_step: 4,
            pid_on_steps: 5,
            pid_p_pct: 0,
            pid_i_pct: 0,
            pid_d_pct: 0,
        },
    );
    update_ip_from_cidr(&mut state, "10.1.2.3/8");
    update_ntp_time(&mut state, 951_827_696, 0, 4 * HZ, 0, [10, 0, 0, 1], NtpSource::Config);
    update_ntp_peer_stats(&mut state, NtpSource::Config, [10, 0, 0, 1], 2, 12_345, Some(-1_500), 4 * HZ, HZ);
    state
}

fn document(state: &RuntimeState) -> serde_json::Value {
    let snapshot: MetricsSnapshot = metrics_snapshot(state, &StorageState::new(), 4 * HZ, HZ);
    let peers: Vec<NtpPeerSnapshot> = ntp_peers_snapshot(state).to_vec();
    let report = TelemetryReport {
        packets_sent: 8,
        packets_failed: 1,
        server_ip: Some([10, 0, 0, 2]),
    };
    serde_json::from_str(&json("fridge", &snapshot, &target(), &peers, &heap(), 99, &report)).unwrap()
}

fn concat_lines(lines: &[&str]) -> String {
    lines.iter().map(|line| format!("{line}\n")).collect()
}

#[test]
fn temperatures_have_two_decimal_places() {
    assert_eq!(celsius(2156), "21.56");
    assert_eq!(celsius(-5), "-0.05");
    assert_eq!(celsius(0), "0.00");
    assert_eq!(fahrenheit(0), "32.00");
    assert_eq!(fahrenheit(2156), "70.81");
    assert_eq!(fahrenheit(-4000), "-40.00");
    assert_eq!(number(u64::MAX), "18446744073709551615");
}

#[test]
fn a_written_address_is_read_back() {
    for ip in [[0, 0, 0, 0], [192, 168, 1, 50], [255, 255, 255, 255]] {
        assert_eq!(parse_ipv4_octets(&fmt_ip(ip)), Some(ip));
    }
    assert_eq!(fmt_ip([10, 0, 20, 255]), "10.0.20.255");
}

#[test]
fn the_status_document_is_json() {
    let status = document(&running());
    assert_eq!(status["device"], "fridge");
    assert_eq!(status["sensor"]["ds18b20"]["temperature_c"], 21.56);
    assert_eq!(status["sensor"]["ds18b20"]["temperature_f"], 70.81);
    assert_eq!(status["sensor"]["ds18b20"]["error"], "none");
    assert_eq!(status["sensor"]["ds18b20"]["name"], "probe-1");
    assert_eq!(status["pid"]["target_c"], 19.5);
    assert_eq!(status["pid"]["kp"], 14.0);
    assert_eq!(status["pid"]["ki"], 0.35);
    assert_eq!(status["pid"]["kd"], 6.0);
    assert_eq!(status["pid"]["output_percent"], 45.6);
    assert_eq!(status["pid"]["relay_on"], true);
    assert_eq!(status["led"]["b"], 3);
}

#[test]
fn what_is_not_known_is_null() {
    let status = document(&RuntimeState::new());
    assert!(status["sensor"]["ds18b20"]["temperature_c"].is_null());
    assert_eq!(status["sensor"]["ds18b20"]["error"], "no_device");
    let text = status.to_string();
    assert!(text.contains("\"synced\":false"));
    assert!(text.contains("\"master_address\":null"));
}

#[test]
fn the_clock_and_its_peers_are_reported() {
    let text = document(&running()).to_string();
    assert!(text.contains("\"time\":\"2000-02-29T12:34:56Z\""));
    assert!(text.contains("\"master_address\":\"10.0.0.1\""));
    assert!(text.contains("\"master_latency_ms\":12.345"));
    assert!(text.contains("\"offset_ms\":-1.5"));
    assert!(text.contains("\"bar\":\"#######---\""));
    assert!(text.contains("\"used_percent\":75"));
}

#[test]
fn history_is_written_as_json() {
    let point = HistorySample {
        seq: 7,
        temp_centi: 2156,
        target_centi: -200,
        output_percent: 45,
        window_step: 1,
        on_steps: 5,
        relay_on: true,
        extra_temps: [Some(1875), None, None],
    };
    let text = history_json(&[point, HistorySample { seq: 8, ..point }], 99);
    assert_eq!(
        text,
        concat_lines(&[
            "{",
            "  \"sample_interval_s\": 60,",
            "  \"total_samples\": 99,",
            "  \"points\": [",
            "    [7,21.56,-2.00,45.0,1,5,1],",
            "    [8,21.56,-2.00,45.0,1,5,1]",
            "  ]",
            "}",
        ]),
    );
    let empty: serde_json::Value = serde_json::from_str(&history_json(&[], 0)).unwrap();
    assert!(empty.is_object());
}

#[test]
fn the_text_report_names_the_essentials() {
    let state = running();
    let snapshot = metrics_snapshot(&state, &StorageState::new(), 4 * HZ, HZ);
    let report = text(&snapshot, &target(), 99, 1234);
    assert!(report.contains("21.56"));
    assert!(report.contains("19.50"));
    assert!(report.contains("10.1.2.3"));
    assert!(report.contains("1234"));
}

#[test]
fn prometheus_lines_carry_the_values() {
    let state = running();
    let snapshot = prometheus_snapshot(&state, &StorageState::new(), HZ);
    let peers = ntp_peers_snapshot(&state).to_vec();
    let page = prometheus("fridge", &snapshot, &peers, &heap(), 99);
    assert!(page.contains("# TYPE "));
    assert!(page.contains("21.56"));
    for line in page.lines().filter(|l| !l.is_empty() && !l.starts_with('#')) {
        let value = line.rsplit(' ').next().unwrap();
        assert!(value.parse::<f64>().is_ok(), "{line}");
    }
}

#[test]
fn text_is_replaced_as_the_standard_library_does() {
    let chars = |s: &str| s.chars().collect::<Vec<char>>();
    for (s, from, to) in [("a-b-c", "-", "_"), ("aaa", "aa", "b"), ("", "x", "y"), ("abc", "d", "")] {
        assert_eq!(replace(&chars(s), &chars(from), &chars(to)), s.replace(from, to));
    }
}

#[test]
fn metrics_are_named_after_the_device() {
    let state = running();
    let snapshot = prometheus_snapshot(&state, &StorageState::new(), HZ);
    let page = |name| prometheus(name, &snapshot, &[], &heap(), 99);
    assert!(page("brewster").contains("brewster_heap_free_bytes 30\n"));
    assert!(page("fridge").contains("fridge_heap_free_bytes 30\n"));
    assert!(!page("fridge").contains("brewster_heap_free_bytes"));
    assert_eq!(page("brewster").replace("brewster_", "fridge_"), page("fridge"));
}

#[test]
fn every_metric_family_is_there() {
    let state = running();
    let snapshot = prometheus_snapshot(&state, &StorageState::new(), HZ);
    let peers = ntp_peers_snapshot(&state).to_vec();
    let page = prometheus("brewster", &snapshot, &peers, &heap(), 99);
    for family in [
        "up",
        "uptime_seconds",
        "heap_free_bytes",
        "sensor_temperature_celsius",
        "sensor_temperature_fahrenheit",
        "temperature_c",
        "temperature_f",
        "pid_target_celsius",
        "pid_target_fahrenheit",
        "pid_kp",
        "pid_ki",
        "pid_kd",
        "pid_output_percent",
        "pid_window_step",
        "pid_on_steps",
        "relay_on",
        "ntp_synced",
        "ntp_sync_total",
        "ntp_last_sync_uptime_seconds",
        "ntp_master_info",
        "ntp_master_stratum",
        "ntp_master_latency_seconds",
        "ntp_master_latency_ms",
        "ntp_master_jitter_seconds",
        "ntp_master_jitter_ms",
        "ntp_master_offset_seconds",
        "ntp_master_offset_ms",
        "ntp_master_offset_jitter_seconds",
        "ntp_master_offset_jitter_ms",
        "ntp_master_success_total",
        "ntp_master_fail_total",
        "ntp_peer_success_total",
        "ntp_peer_fail_total",
        "ntp_peer_latency_seconds",
        "ntp_peer_jitter_seconds",
        "ntp_peer_offset_seconds",
        "ntp_peer_offset_jitter_seconds",
        "ntp_peer_last_sync_uptime_seconds",
    ] {
        let found = page.lines().any(|line| {
            line.strip_prefix(&format!("brewster_{family}"))
                .is_some_and(|rest| rest.starts_with(' ') || rest.starts_with('{'))
        });
        assert!(found, "{family}");
    }
    assert!(page.contains("brewster_up 1\n"));
    assert!(page.contains("brewster_uptime_seconds 99\n"));
}
