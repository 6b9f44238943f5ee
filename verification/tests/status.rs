use brewster::firmware::error::SensorError;
use brewster::firmware::shared::{NtpSelectionSample, NtpSource};
use brewster::firmware::status::{
    clear_ip, collection_enabled, current_unix_time, current_unix_time_micros,
    current_unix_time_millis, http_request_activity, http_request_received, ip_octets,
    mark_net_dhcp_pending, mark_net_link_down, mark_ntp_peer_query_failed, metrics_snapshot,
    ntp_peers_snapshot, ntp_selection_sample, prometheus_snapshot, raw_to_centi,
    sensor_status_label, set_collection_enabled, update_dhcp_ntp_server, update_error,
    update_ip_from_cidr, update_led, update_ntp_peer_stats, update_ntp_time, update_success,
    uptime_seconds, NetState, RuntimeSample, RuntimeState, UNKNOWN_TEMPERATURE_CENTI,
};
use brewster::firmware::storage::StorageState;

const HZ: u64 = 1_000_000;

fn sample() -> RuntimeSample {
    RuntimeSample {
        temp_raw: 345,
        pid_deci: 456,
        heating_on: true,
        heat_on: false,
        led_red: 1,
        led_green: 2,
        led_blue: 3,
        pid_window_step: 4,
        pid_on_steps: 5,
        pid_p_pct: 6,
        pid_i_pct: -7,
        pid_d_pct: 8,
    }
}

#[test]
fn sixteenths_are_rounded_towards_zero() {
    assert_eq!(raw_to_centi(0), 0);
    assert_eq!(raw_to_centi(1), 6);
    assert_eq!(raw_to_centi(-1), -6);
    assert_eq!(raw_to_centi(345), 2156);
    assert_eq!(raw_to_centi(i16::MIN), -204_800);
    assert_eq!(raw_to_centi(i16::MAX), 204_793);
}

#[test]
fn a_reading_is_published_and_a_failure_takes_it_back() {
    let mut state = RuntimeState::new();
    assert_eq!(state.temp_centi, UNKNOWN_TEMPERATURE_CENTI);
    assert_eq!(sensor_status_label(state.sensor_status), "no_device");
    update_success(&mut state, sample());
    assert_eq!(state.temp_centi, 2156);
    assert_eq!(state.pid_deci, 456);
    assert!(state.relay_on && !state.heat_on);
    assert_eq!(sensor_status_label(state.sensor_status), "none");
    assert_eq!((state.led_red, state.led_green, state.led_blue), (1, 2, 3));
    assert_eq!((state.pid_p_pct, state.pid_i_pct, state.pid_d_pct), (6, -7, 8));
    update_led(&mut state, 9, 8, 7);
    assert_eq!((state.led_red, state.led_green, state.led_blue), (9, 8, 7));
    update_error(&mut state, SensorError::CrcMismatch, 10, 4, 0);
    assert_eq!(state.temp_centi, UNKNOWN_TEMPERATURE_CENTI);
    assert_eq!(state.pid_deci, 0);
    assert!(!state.relay_on && !state.heat_on);
    assert_eq!((state.pid_window_step, state.pid_on_steps), (0, 0));
    assert_eq!(sensor_status_label(state.sensor_status), "crc_mismatch");
}

#[test]
fn switches_keep_their_setting() {
    let mut state = RuntimeState::new();
    assert!(!collection_enabled(&state));
    set_collection_enabled(&mut state, true);
    assert!(collection_enabled(&state));
    assert!(!http_request_activity(&mut state));
    http_request_received(&mut state);
    assert!(http_request_activity(&mut state));
    assert!(!http_request_activity(&mut state));
}

#[test]
fn the_network_state_follows_the_link() {
    let mut state = RuntimeState::new();
    assert_eq!(NetState::from_u8(state.net_state), NetState::Unknown);
    update_ip_from_cidr(&mut state, "192.168.1.50/24");
    assert_eq!(ip_octets(&state), Some([192, 168, 1, 50]));
    assert_eq!(NetState::from_u8(state.net_state), NetState::HasIp);
    update_ip_from_cidr(&mut state, "not an address");
    assert_eq!(ip_octets(&state), None);
    assert_eq!(NetState::from_u8(state.net_state), NetState::DhcpPending);
    update_ip_from_cidr(&mut state, "192.168.1.50/24");
    mark_net_link_down(&mut state);
    assert_eq!(NetState::from_u8(state.net_state), NetState::LinkDown);
    mark_net_dhcp_pending(&mut state);
    assert_eq!(NetState::from_u8(state.net_state), NetState::DhcpPending);
    clear_ip(&mut state);
    assert_eq!(ip_octets(&state), None);
    for code in 0..4u8 {
        assert_eq!(NetState::from_u8(code).code(), code);
    }
}

#[test]
fn peers_are_kept_once_each_and_five_at_most() {
    let mut state = RuntimeState::new();
    for last in 0..7u8 {
        mark_ntp_peer_query_failed(&mut state, NtpSource::Config, [10, 0, 0, last]);
        mark_ntp_peer_query_failed(&mut state, NtpSource::Config, [10, 0, 0, last]);
    }
    let peers = ntp_peers_snapshot(&state);
    assert_eq!(peers.len(), 5);
    for (i, peer) in peers.iter().enumerate() {
        assert_eq!(peer.address, [10, 0, 0, i as u8]);
        assert_eq!(peer.fail_count, 2);
        assert!(!peer.has_sample);
        assert_eq!(peer.offset_us, None);
    }
}

#[test]
fn one_gateway_is_kept() {
    let mut state = RuntimeState::new();
    mark_ntp_peer_query_failed(&mut state, NtpSource::Config, [10, 0, 0, 9]);
    update_dhcp_ntp_server(&mut state, [192, 168, 1, 1]);
    update_dhcp_ntp_server(&mut state, [192, 168, 1, 2]);
    let peers = ntp_peers_snapshot(&state);
    assert_eq!(peers.len(), 2);
    assert_eq!(peers[0].address, [10, 0, 0, 9]);
    assert_eq!(peers[1].address, [192, 168, 1, 2]);
    assert_eq!(peers[1].source, NtpSource::DhcpGateway);
}

#[test]
fn jitter_is_a_running_mean() {
    let mut state = RuntimeState::new();
    let server = [10, 0, 0, 1];
    assert_eq!(ntp_selection_sample(&state, NtpSource::Config, server), None);
    update_ntp_peer_stats(&mut state, NtpSource::Config, server, 2, 10_000, Some(500), 5 * HZ, HZ);
    update_ntp_peer_stats(&mut state, NtpSource::Config, server, 3, 18_000, Some(-3_500), 9 * HZ, HZ);
    let peer = ntp_peers_snapshot(&state)[0];
    assert_eq!(peer.jitter_us, 1_000);
    assert_eq!(peer.offset_us, Some(-3_500));
    assert_eq!(peer.offset_jitter_us, Some(500));
    assert_eq!(peer.success_count, 2);
    assert_eq!(peer.last_sync_uptime_s, 9);
    assert_eq!(
        ntp_selection_sample(&state, NtpSource::Config, server),
        Some(NtpSelectionSample { stratum: 3, latency_ms: 18, jitter_ms: 1 }),
    );
    assert_eq!(ntp_selection_sample(&state, NtpSource::DhcpGateway, server), None);
}

#[test]
fn uptime_is_counted_in_seconds() {
    assert_eq!(uptime_seconds(5_999_999, HZ), 5);
    assert_eq!(uptime_seconds(u64::MAX, 1), u32::MAX);
}

#[test]
fn the_clock_goes_on_from_the_last_answer() {
    let mut state = RuntimeState::new();
    assert_eq!(current_unix_time(&state, 0, HZ), None);
    update_ntp_time(&mut state, 1_700_000_000, 250_000, 10 * HZ, 0, [10, 0, 0, 1], NtpSource::Config);
    assert!(state.ntp_synced);
    assert_eq!(state.ntp_sync_count, 1);
    assert_eq!(current_unix_time_micros(&state, 10 * HZ, HZ), Some(1_700_000_000_250_000));
    assert_eq!(current_unix_time_millis(&state, 11 * HZ, HZ), Some(1_700_000_001_250));
    assert_eq!(current_unix_time(&state, 12 * HZ + 800_000, HZ), Some(1_700_000_003));
    assert_eq!(current_unix_time(&state, 12 * HZ + 700_000, HZ), Some(1_700_000_002));
}

#[test]
fn snapshots_carry_the_state() {
    let mut state = RuntimeState::new();
    let mut storage = StorageState::new();
    storage.target_centi = 1950;
    update_success(&mut state, sample());
    update_ip_from_cidr(&mut state, "10.1.2.3/8");
    update_ntp_time(&mut state, 1_000, 0, 4 * HZ, 0, [10, 0, 0, 1], NtpSource::Config);
    let metrics = metrics_snapshot(&state, &storage, 6 * HZ, HZ);
    assert_eq!(metrics.temp_centi, 2156);
    assert_eq!(metrics.target_centi, 1950);
    assert_eq!(metrics.ip_octets, [10, 1, 2, 3]);
    assert_eq!(metrics.current_ntp_time, Some(1_002));
    assert_eq!(metrics.ntp_uptime_at_sync, 4);
    assert_eq!(metrics.master_ip, [10, 0, 0, 1]);
    assert_eq!(metrics.probe_name.as_str(), "probe-1");
    let prometheus = prometheus_snapshot(&state, &storage, HZ);
    assert_eq!(prometheus.temp_centi, 2156);
    assert_eq!(prometheus.target_centi, 1950);
    assert_eq!(prometheus.ntp_uptime_at_sync, 4);
    assert_eq!(prometheus.ntp_source_code, NtpSource::Config.code());
}
