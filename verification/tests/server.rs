use brewster::server::config::{env_u16, env_u64, retention_secs, sensor_names};
use brewster::server::http::{
    device_url, history_limit, history_row, hostname_text, post_clear, post_collection,
    sensor_error_label, status_report, temperature_reply, Cell, Forwarded,
};
use brewster::server::lttb::{lttb_indices, SamplePoint};
use brewster::server::packet::Packet;
use brewster::server::persist::{
    file_text, filled_strings, readable_records, record_lines, temporary_name,
};
use brewster::server::store::{PersistedRecord, Store};
use brewster::server::udp::{datagram_received, packet_received, Session};

const S: u128 = 1_000_000_000;

fn packet(seq: u32, uptime_s: u32) -> Packet {
    Packet {
        version: 5,
        hostname: *b"fridge\0\0\0\0\0\0\0\0\0\0\0\0\0\0",
        seq,
        uptime_s,
        temps: [Some(2150), None, Some(1925)],
        target_centi: 2000,
        output_pct: 55,
        relay_on: true,
        collecting: true,
        ntp_synced: true,
        history_clear: false,
        heat_on: false,
        window_step: 3,
        on_steps: 5,
        sensor_status: [0, 9, 3],
        device_ip: [192, 168, 1, 100],
        sensor_count: 3,
        deadband_centi: 50,
        pid_p_pct: 14,
        pid_i_pct: 3,
        pid_d_pct: -2,
    }
}

#[test]
fn environment_values_have_defaults() {
    assert_eq!(env_u16(None, 7), 7);
    assert_eq!(env_u16(Some("65536"), 7), 7);
    assert_eq!(env_u16(Some("8081"), 7), 8081);
    assert_eq!(env_u64(Some("x"), 9), 9);
    assert_eq!(env_u64(Some("48"), 9), 48);
    assert_eq!(retention_secs(1440), 5_184_000);
    assert_eq!(sensor_names(Some(" keg , ,tank")), ["keg", "tank"]);
    assert_eq!(sensor_names(None), Vec::<String>::new());
}

#[test]
fn missing_packets_are_counted() {
    let mut store = Store::new(3600);
    store.insert(packet(10, 1), S);
    store.insert(packet(11, 2), 2 * S);
    store.insert(packet(15, 3), 3 * S);
    store.insert(packet(2, 4), 4 * S);
    let stats = store.telemetry_stats();
    assert_eq!(stats.packets_received, 4);
    assert_eq!(stats.packets_dropped, 3);
    assert_eq!(stats.last_seq, Some(2));
    let mut wrapped = Store::new(3600);
    wrapped.insert(packet(u32::MAX, 1), S);
    wrapped.insert(packet(0, 2), 2 * S);
    assert_eq!(wrapped.telemetry_stats().packets_dropped, 0);
}

#[test]
fn packets_are_stored_once_a_second_while_collecting() {
    let mut store = Store::new(3600);
    assert!(store.insert(packet(1, 10), S).is_some());
    assert!(store.insert(packet(2, 10), S).is_none());
    assert!(store.insert(packet(3, 11), 2 * S).is_some());
    assert!(store.insert(packet(4, 2), 3 * S).is_some());
    let mut idle = packet(5, 50);
    idle.collecting = false;
    assert!(store.insert(idle, 4 * S).is_none());
    assert_eq!(store.records.len(), 3);
    assert_eq!(store.latest().unwrap().seq, 5);
    assert!(!store.latest_with_collecting().1);
    store.set_collecting(true);
    assert!(store.latest_with_collecting().1);
    store.clear();
    assert_eq!(store.records.len(), 0);
    assert!(store.latest().is_none());
    assert_eq!(store.telemetry_stats().packets_received, 0);
}

#[test]
fn old_records_are_dropped() {
    let mut store = Store::new(10);
    for i in 0..20u32 {
        store.insert(packet(i, i), (100 + i as u128) * S);
    }
    let kept: Vec<u32> = store.records.iter().map(|r| r.packet.seq).collect();
    assert_eq!(kept, (9..20).collect::<Vec<u32>>());
}

#[test]
fn old_records_are_dropped_by_every_packet() {
    let mut store = Store::new(10);
    store.insert(packet(1, 1), 100 * S);
    store.insert(packet(2, 2), 105 * S);
    let mut idle = packet(3, 3);
    idle.collecting = false;
    assert!(store.insert(idle, 110 * S).is_none());
    assert_eq!(store.records.len(), 2);
    assert!(store.insert(idle, 110 * S + 1).is_none());
    assert_eq!(store.records.len(), 1);
    assert_eq!(store.records[0].packet.seq, 2);
    assert!(store.insert(packet(4, 2), 116 * S).is_none());
    assert_eq!(store.records.len(), 0);
    assert_eq!(store.latest().unwrap().seq, 4);
}

#[test]
fn restored_records_are_the_ones_that_were_written() {
    let mut store = Store::new(3600);
    store.insert(packet(1, 10), 1000 * S);
    store.insert(packet(2, 11), 1001 * S);
    let written = store.current_records();
    let mut again = Store::new(3600);
    assert_eq!(again.restore(written.clone(), 1002 * S), 2);
    assert_eq!(format!("{:?}", again.current_records()), format!("{written:?}"));
    assert_eq!(again.latest().unwrap().seq, 2);
    assert!(again.latest_with_collecting().1);
    let mut late = Store::new(3600);
    assert_eq!(late.restore(written, 1000 * S + 3600 * S + S), 1);
    assert_eq!(late.restore(Vec::new(), 0), 0);
}

#[test]
fn history_is_thinned_out() {
    let mut store = Store::new(1_000_000);
    for i in 0..100u32 {
        let mut p = packet(i, i);
        p.temps[0] = Some(if i == 40 { 9000 } else { 2000 });
        store.insert(p, (10 + i as u128) * S);
    }
    let (points, total, _) = store.history_data(10);
    assert_eq!(total, 100);
    assert_eq!(points.len(), 10);
    assert_eq!((points[0].seq, points[9].seq), (0, 99));
    assert!(points.iter().any(|p| p.temp_centi == Some(9000)));
    assert!(points.iter().all(|p| !p.gap_before));
    let (all, _, _) = store.history_data(100);
    assert_eq!(all.len(), 100);
    assert_eq!(Store::new(1).history_data(5).0.len(), 0);
    let (one, total, interval) = store.history_data(history_limit(Some(0)));
    assert_eq!((one.len(), one[0].seq, total, interval), (1, 99, 100, 1));
    let (none, total, interval) = store.history_data(0);
    assert_eq!((none.len(), total, interval), (0, 100, 1));
}

#[test]
fn gaps_are_marked() {
    let mut store = Store::new(1_000_000);
    store.insert(packet(1, 1), 10 * S);
    store.insert(packet(2, 2), 15 * S);
    store.insert(packet(3, 3), 21 * S);
    let (points, _, _) = store.history_data(10);
    let gaps: Vec<bool> = points.iter().map(|p| p.gap_before).collect();
    assert_eq!(gaps, [false, false, true]);
    assert_eq!(points[2].t_s, 21);
}

#[test]
fn the_sample_interval_is_the_median() {
    let mut store = Store::new(1_000_000);
    for (i, up) in [0u32, 2, 4, 6, 60].iter().enumerate() {
        store.insert(packet(i as u32, *up), (10 + *up as u128) * S);
    }
    let (_, total, interval) = store.history_data(10);
    assert_eq!(total, 5);
    assert_eq!(interval, 2);
}

#[test]
fn thinning_keeps_both_ends_and_the_peaks() {
    let curve: Vec<SamplePoint> =
        (0..50).map(|i| SamplePoint { x: i, y: if i == 33 { 500 } else { 0 } }).collect();
    let kept = lttb_indices(&curve, 6);
    assert_eq!(kept.len(), 6);
    assert_eq!((kept[0], kept[5]), (0, 49));
    assert!(kept.contains(&33));
    assert!(kept.windows(2).all(|w| w[0] < w[1]));
    assert_eq!(lttb_indices(&curve, 2), [0, 49]);
    assert_eq!(lttb_indices(&curve[..3], 10), [0, 1, 2]);
    assert_eq!(lttb_indices(&curve, 1), [49]);
    assert_eq!(lttb_indices(&curve, 0), Vec::<usize>::new());
    assert_eq!(lttb_indices(&[], 0), Vec::<usize>::new());
}

#[test]
fn thinning_keeps_a_peak_in_the_final_bucket() {
    let points = |ys: &[i16]| -> Vec<SamplePoint> {
        ys.iter().enumerate().map(|(i, y)| SamplePoint { x: i as u32, y: *y }).collect()
    };
    assert_eq!(lttb_indices(&points(&[0, 0, 10, 0, 0]), 3), [0, 2, 4]);
    assert_eq!(lttb_indices(&points(&[0, 0, -10, 0, 0]), 3), [0, 2, 4]);
    assert_eq!(lttb_indices(&points(&[5, 5, 5, 5, 5, 5, 50, 5]), 4), [0, 3, 6, 7]);
}

#[test]
fn a_written_file_is_read_back() {
    let lines = vec!["{\"t\":1}".to_string(), "{\"t\":2}".to_string()];
    let text = file_text(&lines);
    assert_eq!(text, "{\"t\":1}\n{\"t\":2}\n");
    assert_eq!(record_lines(&text), lines);
    assert_eq!(record_lines(" a \n\n\t\nb"), ["a", "b"]);
    assert_eq!(filled_strings(&vec![vec![' '], vec!['x']]), ["x"]);
    assert_eq!(temporary_name("/data/h.ndjson"), "/data/h.ndjson.tmp");
}

#[test]
fn unreadable_lines_are_counted() {
    let record: PersistedRecord = {
        let mut store = Store::new(10);
        store.insert(packet(1, 1), S).unwrap()
    };
    let (records, bad) = readable_records(&[Some(record), None, Some(record), None, None]);
    assert_eq!(records.len(), 2);
    assert_eq!(bad, 3);
}

#[test]
fn a_cleared_device_clears_the_server() {
    let mut session = Session::new();
    let mut store = Store::new(3600);
    let first = datagram_received(&mut session, &mut store, &packet(1, 1).encode(), 0, S).unwrap();
    assert!(!first.clear && first.append.is_some());
    assert!(datagram_received(&mut session, &mut store, b"BREW", 0, S).is_none());
    let mut cleared = packet(2, 2);
    cleared.history_clear = true;
    let change = datagram_received(&mut session, &mut store, &cleared.encode(), 0, 2 * S).unwrap();
    assert!(change.clear);
    assert_eq!(change.append.unwrap().seq, 2);
    assert_eq!(store.records.len(), 1);
    assert_eq!(store.telemetry_stats().packets_received, 1);
}

#[test]
fn another_session_takes_over() {
    let mut session = Session::new();
    let mut store = Store::new(3600);
    assert!(!packet_received(&mut session, &mut store, packet(1, 1), 7, S).clear);
    assert!(!packet_received(&mut session, &mut store, packet(2, 2), 7, 2 * S).clear);
    assert!(packet_received(&mut session, &mut store, packet(0, 0), 8, 3 * S).clear);
    assert_eq!(store.records.len(), 1);
    assert_eq!(session.nonce, 8);
}

#[test]
fn the_status_names_the_probes() {
    let mut store = Store::new(3600);
    let names = vec!["keg".to_string()];
    assert!(status_report(&store, "cellar", 80, &names).is_none());
    store.insert(packet(1, 1), S);
    let report = status_report(&store, "cellar", 80, &names).unwrap();
    assert_eq!((report.device.as_str(), report.hostname.as_str()), ("cellar", "fridge"));
    assert_eq!(report.ip, "192.168.1.100");
    assert_eq!(report.sensors.len(), 3);
    assert_eq!(report.sensors[0].name, "keg");
    assert_eq!(report.sensors[2].name, "probe-3");
    assert_eq!(report.sensors[1].temp_centi, None);
    assert_eq!(
        [report.sensors[0].error, report.sensors[1].error, report.sensors[2].error],
        ["none", "unknown", "crc_mismatch"],
    );
    assert!(report.collecting);
    assert_eq!(sensor_error_label(1), "bus_stuck_low");
    assert_eq!(sensor_error_label(2), "no_device");
    assert_eq!(hostname_text(b"a\0b\0\0"), "a\0b");
    assert_eq!(hostname_text(&[0xff]), "");
}

#[test]
fn history_rows_have_fourteen_cells() {
    let mut store = Store::new(3600);
    store.insert(packet(1, 1), 77 * S);
    let (points, _, _) = store.history_data(10);
    let row = history_row(&points[0]);
    assert_eq!(row[0], Cell::Number(1));
    assert_eq!(row[1], Cell::Temperature(2150));
    assert_eq!(row[2], Cell::Temperature(2000));
    assert_eq!(row[6], Cell::Number(1));
    assert_eq!(row[7], Cell::Null);
    assert_eq!(row[8], Cell::Temperature(1925));
    assert_eq!(row[11], Cell::Number(-2));
    assert_eq!(row[12], Cell::Number(77));
    assert_eq!(row[13], Cell::Number(0));
    assert_eq!(history_limit(None), 2000);
    assert_eq!(history_limit(Some(0)), 1);
    assert_eq!(history_limit(Some(99_999)), 10_000);
}

#[test]
fn requests_are_passed_on_to_the_device() {
    let mut store = Store::new(3600);
    assert_eq!(device_url(&store, 80, "/temperature"), None);
    assert_eq!(post_collection(&mut store, 80, true), None);
    assert!(store.collecting);
    store.insert(packet(1, 1), S);
    assert_eq!(
        device_url(&store, 8080, "/temperature"),
        Some("http://192.168.1.100:8080/temperature".to_string()),
    );
    let url = post_collection(&mut store, 80, false).unwrap();
    assert!(url.starts_with("http://192.168.1.100:80/"));
    assert!(!store.collecting);
    let url = post_clear(&mut store, 80).unwrap();
    assert!(url.starts_with("http://192.168.1.100:80/"));
    assert_eq!(store.records.len(), 0);
}

#[test]
fn replies_of_the_device_are_passed_back() {
    assert_eq!(temperature_reply(&Forwarded::Accepted).0, 200);
    assert_eq!(temperature_reply(&Forwarded::Unknown).0, 503);
    let refused = temperature_reply(&Forwarded::Refused("500".to_string()));
    let unreachable = temperature_reply(&Forwarded::Unreachable("timeout".to_string()));
    assert_eq!(refused.0, 502);
    assert_eq!(unreachable.0, 502);
    assert!(unreachable.1.unwrap().contains("timeout"));
}

#[test]
fn an_appended_record_is_read_last() {
    let before = file_text(&["{\"t\":1}".to_string()]);
    let after = format!("{before}{}", file_text(&["{\"t\":2}".to_string()]));
    assert_eq!(record_lines(&after), ["{\"t\":1}", "{\"t\":2}"]);
}
