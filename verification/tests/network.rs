use brewster::dns::{read_record, TYPE_A, TYPE_AAAA, TYPE_ANY};
use brewster::firmware::config::device_hostname_bytes;
use brewster::firmware::network::mdns::{
    build_mdns_announcement, build_mdns_response, build_service_response,
    dns_name_matches_host_local, find_server, question_matches_hostname,
    question_matches_service, reply_to_group, server_message,
};
use brewster::firmware::network::ntp::{
    next_request, ntp_poll_interval_secs_after_sync, read_sample, round_servers, NtpRound,
    NtpState, NTP_RETRY_SECS, NTP_UNIX_OFFSET,
};
use brewster::firmware::network::udp::{
    beacon_received, build_packet, discovered_server_ip_octets, packet_done, parse_beacon,
    server_addr, set_discovered_server, set_history_clear_pending, telemetry_stats,
    telemetry_tick, PacketContext, ProbeReading, ServerChange, TelemetryState,
};
use brewster::firmware::network::wifi::{
    after_connect, after_start, config_down, config_up, connection_action, controller_action,
    credentials, scan_every_attempts, wait_timed_out, WaitLog, WifiAction,
};
use brewster::firmware::shared::{ntp_config_peers_from, NtpSource};
use brewster::firmware::status::{
    ip_octets, metrics_snapshot, ntp_peers_snapshot, MetricsSnapshot, NetState, RuntimeState,
    UNKNOWN_TEMPERATURE_CENTI,
};
use brewster::firmware::storage::StorageState;
use brewster::server::discovery::{build_beacon, build_mdns_packet, instance_name, txt_record};
use brewster::server::packet::Packet;

const HZ: u64 = 1_000_000;

// ── NTP ──────────────────────────────────────────────────────────────────────

#[test]
fn the_poll_interval_grows_to_an_hour() {
    assert_eq!(ntp_poll_interval_secs_after_sync(0), 60);
    assert_eq!(ntp_poll_interval_secs_after_sync(300), 1830);
    assert_eq!(ntp_poll_interval_secs_after_sync(600), 3600);
    assert_eq!(ntp_poll_interval_secs_after_sync(u64::MAX), 3600);
}

#[test]
fn the_gateway_is_asked_unless_it_is_configured() {
    let config = ntp_config_peers_from(Some("10.0.0.1,10.0.0.2"), None);
    assert_eq!(
        &round_servers(&config, Some([10, 0, 0, 9]))[..],
        &[
            ([10, 0, 0, 1], NtpSource::Config),
            ([10, 0, 0, 2], NtpSource::Config),
            ([10, 0, 0, 9], NtpSource::DhcpGateway),
        ],
    );
    assert_eq!(round_servers(&config, Some([10, 0, 0, 2])).len(), 2);
    assert_eq!(round_servers(&config, None).len(), 2);
}

#[test]
fn requests_carry_their_token() {
    let mut state = NtpState::new();
    let (request, token) = next_request(&mut state, 0x1_0000_0102);
    assert_eq!(request[0], 0x1b);
    assert_eq!(request[1..40], [0u8; 39]);
    assert_eq!(request[40..], token);
    assert_eq!(token, [0, 0, 0, 1, 0, 0, 1, 2]);
    let (_, next) = next_request(&mut state, 0x1_0000_0102);
    assert_ne!(token, next);
}

fn answer(token: &[u8], stratum: u8, unix: u32) -> [u8; 48] {
    let mut datagram = [0u8; 48];
    datagram[1] = stratum;
    datagram[24..32].copy_from_slice(token);
    datagram[40..44].copy_from_slice(&(unix + NTP_UNIX_OFFSET).to_be_bytes());
    datagram[44..48].copy_from_slice(&0x8000_0000u32.to_be_bytes());
    datagram
}

#[test]
fn a_sample_is_read_from_an_answer() {
    let datagram = answer(&[0; 8], 2, 1_000);
    let sample = read_sample(&datagram, 0, 20_000, HZ, Some(1_000_400_000)).unwrap();
    assert_eq!((sample.unix, sample.unix_frac_us), (1_000, 500_000));
    assert_eq!((sample.latency_us, sample.latency_ms), (20_000, 20));
    assert_eq!(sample.stratum, 2);
    assert_eq!(sample.offset_us, Some(110_000));
    assert_eq!(read_sample(&datagram, 0, 20_000, HZ, None).unwrap().offset_us, None);
    assert!(read_sample(&[0; 48], 0, 0, HZ, None).is_none());
}

#[test]
fn the_best_answer_sets_the_clock() {
    let mut runtime = RuntimeState::new();
    let mut state = NtpState::new();
    let mut round = NtpRound::new();
    let config = ntp_config_peers_from(Some("10.0.0.1,10.0.0.2,10.0.0.3"), None);
    let mut tokens = Vec::new();
    for (ip, source) in round_servers(&config, None) {
        let (_, token) = next_request(&mut state, 0);
        round.query_done(&mut runtime, ip, source, token, 0, true);
        tokens.push(token);
    }
    assert!(round.is_waiting());
    assert_eq!(round.ticks_left(7, 7, HZ), Some(5 * HZ));
    assert_eq!(round.ticks_left(7, 5 * HZ + 6, HZ), Some(1));
    assert_eq!(round.ticks_left(7, 5 * HZ + 7, HZ), None);
    assert!(round.response(&mut runtime, &answer(&tokens[0], 3, 1_000), 10_000, 10_000, HZ));
    assert!(round.response(&mut runtime, &answer(&tokens[1], 1, 2_000), 90_000, 90_000, HZ));
    assert!(!round.response(&mut runtime, &answer(&tokens[1], 0, 9_000), 95_000, 95_000, HZ));
    assert!(!round.response(&mut runtime, &answer(&[9; 8], 0, 9_000), 95_000, 95_000, HZ));
    assert!(!round.response(&mut runtime, &[0; 47], 95_000, 95_000, HZ));
    assert_eq!(round.best.unwrap().ip, [10, 0, 0, 2]);
    let secs = round.close(&mut runtime, &mut state, &config, None, 5 * HZ, HZ);
    assert_eq!(secs, 60);
    assert!(runtime.ntp_synced);
    assert_eq!(runtime.ntp_server, [10, 0, 0, 2]);
    let peers = ntp_peers_snapshot(&runtime);
    assert_eq!(peers.len(), 3);
    assert_eq!(peers.iter().filter(|p| p.fail_count == 1).count(), 1);
}

#[test]
fn a_round_without_answers_is_repeated() {
    let mut runtime = RuntimeState::new();
    let mut state = NtpState::new();
    let mut round = NtpRound::new();
    let config = ntp_config_peers_from(Some("10.0.0.1"), None);
    round.query_done(&mut runtime, [10, 0, 0, 1], NtpSource::Config, [1; 8], 0, false);
    assert!(!round.is_waiting());
    assert_eq!(round.ticks_left(0, 0, HZ), None);
    let secs = round.close(&mut runtime, &mut state, &config, None, HZ, HZ);
    assert_eq!(secs, NTP_RETRY_SECS);
    assert!(!runtime.ntp_synced);
    assert_eq!(ntp_peers_snapshot(&runtime)[0].fail_count, 1);
}

// ── mDNS ─────────────────────────────────────────────────────────────────────

fn query(name: &[u8], qtype: u16, qclass: u16) -> Vec<u8> {
    let mut q = vec![0x12, 0x34, 0, 0, 0, 1, 0, 0, 0, 0, 0, 0];
    q.extend_from_slice(name);
    q.extend_from_slice(&qtype.to_be_bytes());
    q.extend_from_slice(&qclass.to_be_bytes());
    q
}

const NAME: &[u8] = b"\x08brewster\x05local\0";

#[test]
fn questions_for_the_host_are_recognised() {
    let q = query(NAME, TYPE_A, 1);
    assert_eq!(dns_name_matches_host_local(&q, 12, b"Brewster"), Some((true, 12 + NAME.len())));
    assert_eq!(dns_name_matches_host_local(&q, 12, b"other"), Some((false, 12 + NAME.len())));
    assert_eq!(dns_name_matches_host_local(&q[..15], 12, b"brewster"), None);
    let m = question_matches_hostname(&q, b"brewster").unwrap();
    assert!(!m.prefer_unicast_response);
    assert!(reply_to_group(m));
    let unicast = question_matches_hostname(&query(NAME, TYPE_ANY, 0x8001), b"brewster").unwrap();
    assert!(unicast.prefer_unicast_response);
    assert!(!reply_to_group(unicast));
    assert!(question_matches_hostname(&query(NAME, 16, 1), b"brewster").is_none());
    assert!(question_matches_hostname(&query(NAME, TYPE_A, 3), b"brewster").is_none());
    assert!(question_matches_hostname(&q[..11], b"brewster").is_none());
}

#[test]
fn a_reply_repeats_the_question() {
    let q = query(NAME, TYPE_A, 1);
    let (reply, _) = build_mdns_response(&q, b"brewster", Some([10, 0, 0, 7]), None, 512).unwrap();
    assert_eq!(&reply[..2], &[0x12, 0x34]);
    assert_eq!(&reply[2..12], &[0x84, 0, 0, 1, 0, 1, 0, 0, 0, 0]);
    assert_eq!(&reply[12..12 + NAME.len()], NAME);
    assert_eq!(&reply[reply.len() - 4..], &[10, 0, 0, 7]);
    let record = read_record(&reply, 12 + NAME.len() + 4).unwrap();
    assert_eq!(record.labels, vec![b"brewster".to_vec(), b"local".to_vec()]);
    assert_eq!(record.rtype, TYPE_A);
    assert!(build_mdns_response(&q, b"brewster", None, Some([1; 16]), 512).is_none());
    assert!(build_mdns_response(&q, b"brewster", Some([1; 4]), None, reply.len() - 1).is_none());
    let any = query(NAME, TYPE_ANY, 1);
    let (v6, _) = build_mdns_response(&any, b"brewster", None, Some([1; 16]), 512).unwrap();
    assert_eq!(read_record(&v6, 12 + NAME.len() + 4).unwrap().rtype, TYPE_AAAA);
}

#[test]
fn the_announcement_holds_the_services() {
    let packet = build_mdns_announcement(b"fridge", Some([10, 0, 0, 7]), Some([2; 16]), 1024).unwrap();
    assert_eq!(&packet[..12], &[0, 0, 0x84, 0, 0, 0, 0, 7, 0, 0, 0, 0]);
    let mut at = 12;
    let mut types = Vec::new();
    while at < packet.len() {
        let record = read_record(&packet, at).unwrap();
        types.push(record.rtype);
        at = record.data_at + record.data_len;
    }
    assert_eq!(types, [12, 12, 12, 33, 16, 1, 28]);
    assert!(build_mdns_announcement(b"fridge", None, None, 1024).is_none());
    assert!(build_mdns_announcement(b"fridge", Some([1; 4]), None, 20).is_none());
    assert!(build_mdns_announcement(&[b'a'; 64], Some([1; 4]), None, 1024).is_none());
}

#[test]
fn announced_services_are_answered() {
    let ip = Some([10, 0, 0, 7]);
    let announced = build_mdns_announcement(b"fridge", ip, None, 1024).unwrap();
    let names: [(&[u8], u16); 5] = [
        (b"\x05_http\x04_tcp\x05local\0", 12),
        (b"\x09_Brewster\x04_udp\x05local\0", 12),
        (b"\x09_services\x07_dns-sd\x04_udp\x05local\0", 255),
        (b"\x06fridge\x05_http\x04_tcp\x05local\0", 33),
        (b"\x06fridge\x05_http\x04_tcp\x05local\0", 16),
    ];
    for (name, qtype) in names {
        let q = query(name, qtype, 0x8001);
        let (reply, question) = build_service_response(&q, b"fridge", ip, None, 1024).unwrap();
        assert_eq!(reply, announced);
        assert!(question.prefer_unicast_response);
        assert_eq!(question.qtype, qtype);
    }
    assert!(question_matches_service(&query(names[0].0, 33, 1), b"fridge").is_none());
    assert!(question_matches_service(&query(names[0].0, 12, 3), b"fridge").is_none());
    assert!(question_matches_service(&query(names[3].0, 33, 1), b"other").is_none());
    assert!(question_matches_service(&query(NAME, TYPE_A, 1), b"brewster").is_none());
    assert!(build_service_response(&query(names[0].0, 12, 1), b"fridge", None, None, 1024).is_none());
}

#[test]
fn the_server_is_found_in_its_announcement() {
    let name = instance_name("cellar");
    let txt = txt_record(47890);
    let packet =
        build_mdns_packet([10, 0, 0, 2], 47890, name.as_bytes(), txt.as_bytes(), 512).unwrap();
    assert_eq!(find_server(&packet), Some(([10, 0, 0, 2], 47890)));
    let mut telemetry = TelemetryState::new();
    assert!(server_message(&mut telemetry, &packet, 3 * HZ, HZ));
    assert_eq!(server_addr(&telemetry, None, None, 3 * HZ, HZ), Some(([10, 0, 0, 2], 47890)));
    assert_eq!(find_server(&query(NAME, TYPE_A, 1)), None);
    assert!(!server_message(&mut telemetry, b"short", 0, HZ));
    assert!(build_mdns_packet([1; 4], 1, name.as_bytes(), txt.as_bytes(), 10).is_none());
}

// ── Telemetry ────────────────────────────────────────────────────────────────

#[test]
fn a_beacon_is_understood() {
    let beacon = build_beacon([192, 168, 1, 9], 47890, 8080);
    assert_eq!(parse_beacon(&beacon), Some(([192, 168, 1, 9], 47890)));
    assert_eq!(parse_beacon(&beacon[..11]), None);
    assert_eq!(parse_beacon(&build_beacon([0; 4], 47890, 8080)), None);
    assert_eq!(parse_beacon(&build_beacon([1; 4], 0, 8080)), None);
    let mut wrong = beacon;
    wrong[0] ^= 1;
    let mut state = TelemetryState::new();
    assert!(!beacon_received(&mut state, &wrong, 0, HZ));
    assert_eq!(discovered_server_ip_octets(&state), None);
    assert!(beacon_received(&mut state, &beacon, HZ, HZ));
    assert_eq!(discovered_server_ip_octets(&state), Some([192, 168, 1, 9]));
}

#[test]
fn a_silent_server_is_forgotten() {
    let mut state = TelemetryState::new();
    assert_eq!(server_addr(&state, None, None, 0, HZ), None);
    set_discovered_server(&mut state, [10, 0, 0, 2], 5000, 10 * HZ, HZ);
    assert_eq!(server_addr(&state, None, None, 40 * HZ, HZ), Some(([10, 0, 0, 2], 5000)));
    assert_eq!(server_addr(&state, None, None, 41 * HZ, HZ), None);
    assert_eq!(
        server_addr(&state, Some("10.9.9.9"), Some("6000"), 900 * HZ, HZ),
        Some(([10, 9, 9, 9], 6000)),
    );
    assert_eq!(server_addr(&state, Some("bad"), None, 20 * HZ, HZ), Some(([10, 0, 0, 2], 5000)));
}

fn context() -> PacketContext {
    PacketContext {
        hostname: device_hostname_bytes(Some("fridge")),
        uptime_s: 77,
        second: ProbeReading { temp_centi: 1875, status: 0 },
        third: ProbeReading { temp_centi: UNKNOWN_TEMPERATURE_CENTI, status: 2 },
        sensor_count: 2,
        deadband_centi: 300,
    }
}

fn snapshot() -> MetricsSnapshot {
    let mut runtime = RuntimeState::new();
    runtime.temp_centi = 2156;
    runtime.heat_on = true;
    runtime.pid_deci = 459;
    metrics_snapshot(&runtime, &StorageState::new(), 0, HZ)
}

#[test]
fn the_server_reads_what_the_device_reports() {
    let mut state = TelemetryState::new();
    set_history_clear_pending(&mut state);
    let packet = Packet::decode(&build_packet(&mut state, &snapshot(), &context())).unwrap();
    assert_eq!(&packet.hostname[..6], b"fridge");
    assert_eq!((packet.seq, packet.uptime_s), (0, 77));
    assert_eq!(packet.temps, [Some(2156), Some(1875), None]);
    assert_eq!(packet.target_centi, 2111);
    assert_eq!(packet.output_pct, 45);
    assert!(packet.heat_on && !packet.relay_on && packet.history_clear);
    assert_eq!(packet.sensor_status, [2, 0, 2]);
    assert_eq!(packet.deadband_centi, 255);
    assert_eq!(packet.device_ip, [0; 4]);
    let next = Packet::decode(&build_packet(&mut state, &snapshot(), &context())).unwrap();
    assert_eq!(next.seq, 1);
    assert!(!next.history_clear);
    packet_done(&mut state, true);
    packet_done(&mut state, false);
    packet_done(&mut state, true);
    assert_eq!(telemetry_stats(&state), (2, 1));
}

#[test]
fn telemetry_starts_and_stops_with_the_server() {
    let mut state = TelemetryState::new();
    let mut known = false;
    let server = Some(([10, 0, 0, 2], 5000));
    let idle = telemetry_tick(&mut state, &mut known, None, &snapshot(), &context());
    assert_eq!(idle.change, ServerChange::Unchanged);
    assert!(idle.send.is_none());
    let found = telemetry_tick(&mut state, &mut known, server, &snapshot(), &context());
    assert_eq!(found.change, ServerChange::Found);
    let (ip, port, bytes) = found.send.unwrap();
    assert_eq!((ip, port), ([10, 0, 0, 2], 5000));
    assert!(Packet::decode(&bytes).is_some());
    let lost = telemetry_tick(&mut state, &mut known, None, &snapshot(), &context());
    assert_eq!(lost.change, ServerChange::Lost);
    assert!(lost.send.is_none());
}

// ── Wi-Fi ────────────────────────────────────────────────────────────────────

#[test]
fn wifi_needs_a_network_name() {
    assert_eq!(credentials(None, Some("x")), None);
    assert_eq!(credentials(Some(""), Some("x")), None);
    assert_eq!(credentials(Some("net"), None), Some(("net", "")));
    assert_eq!(credentials(Some("net"), Some("pw")), Some(("net", "pw")));
    assert_eq!(scan_every_attempts(None), 6);
    assert_eq!(scan_every_attempts(Some("0")), 6);
    assert_eq!(scan_every_attempts(Some("2")), 2);
}

#[test]
fn the_connection_is_tried_again() {
    assert_eq!(controller_action(Some(false)), WifiAction::Start);
    assert_eq!(controller_action(Some(true)), WifiAction::Check);
    assert_eq!(controller_action(None), WifiAction::Wait { secs: 2 });
    assert_eq!(after_start(true), WifiAction::Check);
    assert_eq!(after_start(false), WifiAction::Wait { secs: 2 });
    assert_eq!(after_connect(), WifiAction::Wait { secs: 5 });
    let mut attempts = 0;
    let scans: Vec<bool> = (0..6)
        .map(|_| connection_action(&mut attempts, false, false, 3) == WifiAction::Connect { scan: true })
        .collect();
    assert_eq!(scans, [true, false, true, false, false, true]);
    assert_eq!(connection_action(&mut attempts, true, true, 3), WifiAction::Wait { secs: 5 });
    assert_eq!(attempts, 0);
    assert_eq!(connection_action(&mut attempts, false, true, 3), WifiAction::Connect { scan: false });
}

#[test]
fn the_address_comes_and_goes_with_the_network() {
    let mut runtime = RuntimeState::new();
    let mut log = WaitLog::new();
    config_up(&mut runtime, &mut log, Some(("10.0.0.7/24", Some([10, 0, 0, 1]))));
    assert_eq!(ip_octets(&runtime), Some([10, 0, 0, 7]));
    assert_eq!(ntp_peers_snapshot(&runtime)[0].address, [10, 0, 0, 1]);
    config_down(&mut runtime, &mut log);
    assert_eq!(ip_octets(&runtime), None);
    assert!(ntp_peers_snapshot(&runtime).is_empty());
    let reports: Vec<bool> = (0..7).map(|_| wait_timed_out(&mut runtime, &mut log, true)).collect();
    assert_eq!(reports, [true, false, false, false, false, false, true]);
    assert_eq!(NetState::from_u8(runtime.net_state), NetState::DhcpPending);
    assert!(wait_timed_out(&mut runtime, &mut log, false));
    assert_eq!(NetState::from_u8(runtime.net_state), NetState::LinkDown);
    assert!(!wait_timed_out(&mut runtime, &mut log, false));
    assert_eq!(log.ticks, 1);
    config_up(&mut runtime, &mut log, None);
    assert_eq!((log.ticks, log.last_link_up), (0, Some(false)));
    assert_eq!(ip_octets(&runtime), None);
    assert_eq!(NetState::from_u8(runtime.net_state), NetState::LinkDown);
}
