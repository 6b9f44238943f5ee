//! What the status documents promise: each value stands under its own name.

use vstd::prelude::*;
use vstd::utf8::encode_utf8;
use crate::text::{bool_text, decimal, digits, fixed_point, pow10};
use super::bounded::string32;
use super::config::SensorConfig;
use super::metrics::{
    address_text, celsius_or, celsius_text, control_json, control_metrics, exposition,
    fahrenheit_or, fahrenheit_text, flag_text, heap_json, ipv4_text, millis_text, ms_or_null,
    memory_layout_json, ntp_json, ntp_metrics, peer_json, peer_labels, peer_metrics, peer_sample,
    peer_samples, peers_json,
    quoted, region_json, region_label, region_labels, region_sample, region_samples, regions_json,
    seconds_text, selected_peer,
    sensor_json, signed_ms_or_null, status_json, status_line, history_document, point_json,
    points_json, system_metrics, telemetry_json, time_or_null, usage_bar, used_percent,
    HeapRegion, HeapReport, TargetText, TelemetryReport,
};
use super::network::response::{
    active_document, collection_document, config_document, found_item, found_items, header_text,
    name_of, probe_name_document, profile_document, profile_item, profile_items,
    profiles_document, scan_document, started_document, step_item, step_items,
    temperature_document, Response,
};
use super::profile::{ActiveProfileState, ProfileStep, TempProfile};
use super::sensor::serial_text;
use super::shared::{iso8601_of, NtpSource};
use super::status::{MetricsSnapshot, NtpPeerSnapshot, PrometheusSnapshot, SensorStatus};
use super::storage::HistorySample;

verus! {

/// Whether a text stands somewhere in a document.
#[verifier::opaque]
pub open spec fn holds(document: Seq<char>, part: Seq<char>) -> bool {
    exists|at: int|
        0 <= at <= document.len() - part.len() && #[trigger] document.subrange(at, at + part.len())
            == part
}

/// A text holds itself and its end, and what a part of a document holds, the
/// document holds.
pub proof fn parts_are_held()
    ensures
        forall|a: Seq<char>| #[trigger] holds(a, a),
        forall|a: Seq<char>, b: Seq<char>, c: Seq<char>| #[trigger] holds(a + b + c, b + c),
        forall|a: Seq<char>, b: Seq<char>, part: Seq<char>|
            holds(a, part) ==> #[trigger] holds(a + b, part),
        forall|a: Seq<char>, b: Seq<char>, part: Seq<char>|
            holds(b, part) ==> #[trigger] holds(a + b, part),
{
    reveal(holds);
    assert forall|a: Seq<char>| #[trigger] holds(a, a) by {
        assert(a.subrange(0int, 0int + a.len()) =~= a);
    }
    assert forall|a: Seq<char>, b: Seq<char>, c: Seq<char>| #[trigger] holds(a + b + c, b + c) by {
        let n = a.len() as int;
        assert((a + b + c).subrange(n, n + (b + c).len()) =~= b + c);
    }
    assert forall|a: Seq<char>, b: Seq<char>, part: Seq<char>| holds(a, part) implies #[trigger] holds(
        a + b,
        part,
    ) by {
        let at = choose|at: int|
            0 <= at <= a.len() - part.len() && #[trigger] a.subrange(at, at + part.len()) == part;
        assert((a + b).subrange(at, at + part.len()) =~= a.subrange(at, at + part.len()));
    }
    assert forall|a: Seq<char>, b: Seq<char>, part: Seq<char>| holds(b, part) implies #[trigger] holds(
        a + b,
        part,
    ) by {
        let at = choose|at: int|
            0 <= at <= b.len() - part.len() && #[trigger] b.subrange(at, at + part.len()) == part;
        let n = a.len() as int;
        assert((a + b).subrange(n + at, n + at + part.len()) =~= b.subrange(at, at + part.len()));
    }
}

/// The sensor's name, temperature and state are reported, each under its name.
pub proof fn the_sensor_is_reported(hostname: Seq<char>, s: MetricsSnapshot)
    ensures
        holds(sensor_json(hostname, s), "{\n  \"device\": \""@ + hostname),
        holds(sensor_json(hostname, s), "\",\n  \"sensor\": {\n    \"ds18b20\": {\n      \"name\": \""@ + string32(s.probe_name)),
        holds(sensor_json(hostname, s), "\",\n      \"temperature_c\": "@ + celsius_or(s.temp_centi, "null"@)),
        holds(sensor_json(hostname, s), ",\n      \"temperature_f\": "@ + fahrenheit_or(s.temp_centi, "null"@)),
        holds(sensor_json(hostname, s), ",\n      \"error\": \""@ + SensorStatus::of_code(s.sensor_status_code).spec_label()),
{
    parts_are_held();
}

/// The target, the gains, the duty cycle, the place in the window, the relay and
/// the LED are reported, each under its name.
pub proof fn the_control_is_reported(s: MetricsSnapshot, target: TargetText)
    ensures
        holds(control_json(s, target), "  \"pid\": {\n    \"target_c\": "@ + target.celsius@),
        holds(control_json(s, target), ",\n    \"target_f\": "@ + target.fahrenheit@),
        holds(control_json(s, target), ",\n    \"kp\": "@ + fixed_point(false, 1400, 2)),
        holds(control_json(s, target), ",\n    \"ki\": "@ + fixed_point(false, 35, 2)),
        holds(control_json(s, target), ",\n    \"kd\": "@ + fixed_point(false, 600, 2)),
        holds(control_json(s, target), ",\n    \"output_percent\": "@ + fixed_point(false, s.pid_deci as nat, 1)),
        holds(control_json(s, target), ",\n    \"window_step\": "@ + decimal(s.pid_window_step as nat)),
        holds(control_json(s, target), ",\n    \"on_steps\": "@ + decimal(s.pid_on_steps as nat)),
        holds(control_json(s, target), ",\n    \"relay_on\": "@ + bool_text(s.relay_on)),
        holds(control_json(s, target), "\n  },\n  \"led\": {\n    \"r\": "@ + decimal(s.led_red as nat)),
        holds(control_json(s, target), ",\n    \"g\": "@ + decimal(s.led_green as nat)),
        holds(control_json(s, target), ",\n    \"b\": "@ + decimal(s.led_blue as nat)),
{
    parts_are_held();
}

/// The state of the clock and the server it follows are reported, each value
/// under its name.
pub proof fn the_clock_is_reported(s: MetricsSnapshot, peers: Seq<NtpPeerSnapshot>)
    requires
        s.ntp_synced,
    ensures
        holds(ntp_json(s, peers), "    \"ntp\": {\n      \"synced\": "@ + "true"@),
        holds(ntp_json(s, peers), ",\n      \"time\": "@ + time_or_null(s.current_ntp_time)),
        holds(ntp_json(s, peers), ",\n      \"master_address\": "@ + quoted(ipv4_text(s.master_ip@))),
        holds(ntp_json(s, peers), ",\n      \"master_source\": "@ + quoted(NtpSource::of_code(s.ntp_source_code).spec_label())),
        holds(ntp_json(s, peers), ",\n      \"sync_count\": "@ + decimal(s.ntp_sync_count as nat)),
        holds(ntp_json(s, peers), ",\n      \"last_sync_uptime_s\": "@ + decimal(s.ntp_uptime_at_sync as nat)),
{
    parts_are_held();
}

/// Of the server that the clock follows its own stratum, latency, jitter, offset
/// and counts are reported, each under its name.
pub proof fn the_master_is_reported(s: MetricsSnapshot, peers: Seq<NtpPeerSnapshot>, master: NtpPeerSnapshot)
    requires
        s.ntp_synced,
        selected_peer(peers, NtpSource::of_code(s.ntp_source_code), s.master_ip@, 0) == Some(master),
        master.has_sample,
    ensures
        holds(ntp_json(s, peers), ",\n      \"master_stratum\": "@ + decimal(master.stratum as nat)),
        holds(ntp_json(s, peers), ",\n      \"master_latency_ms\": "@ + fixed_point(false, master.latency_us as nat, 3)),
        holds(ntp_json(s, peers), ",\n      \"master_jitter_ms\": "@ + fixed_point(false, master.jitter_us as nat, 3)),
        holds(ntp_json(s, peers), ",\n      \"master_offset_ms\": "@ + signed_ms_or_null(master.offset_us)),
        holds(ntp_json(s, peers), ",\n      \"master_offset_jitter_ms\": "@ + ms_or_null(master.offset_jitter_us)),
        holds(ntp_json(s, peers), ",\n      \"master_success_count\": "@ + decimal(master.success_count as nat)),
        holds(ntp_json(s, peers), ",\n      \"master_fail_count\": "@ + decimal(master.fail_count as nat)),
{
    parts_are_held();
}

/// Nothing is reported of a server before the clock was set.
pub proof fn an_unset_clock_is_reported(s: MetricsSnapshot, peers: Seq<NtpPeerSnapshot>)
    requires
        !s.ntp_synced,
    ensures
        holds(ntp_json(s, peers), "    \"ntp\": {\n      \"synced\": "@ + "false"@),
        holds(ntp_json(s, peers), ",\n      \"master_address\": "@ + "null"@),
        holds(ntp_json(s, peers), ",\n      \"master_source\": "@ + "null"@),
        holds(ntp_json(s, peers), ",\n      \"last_sync_uptime_s\": "@ + "null"@),
        holds(ntp_json(s, peers), ",\n      \"master_stratum\": "@ + "null"@),
        holds(ntp_json(s, peers), ",\n      \"master_latency_ms\": "@ + "null"@),
        holds(ntp_json(s, peers), ",\n      \"master_jitter_ms\": "@ + "null"@),
        holds(ntp_json(s, peers), ",\n      \"master_offset_ms\": "@ + "null"@),
        holds(ntp_json(s, peers), ",\n      \"master_offset_jitter_ms\": "@ + "null"@),
        holds(ntp_json(s, peers), ",\n      \"master_success_count\": "@ + "null"@),
        holds(ntp_json(s, peers), ",\n      \"master_fail_count\": "@ + "null"@),
{
    parts_are_held();
}

/// Of a peer its own values are reported, each under its name, and whether it is
/// the one that is followed.
pub proof fn a_peer_is_reported_as_json(peer: NtpPeerSnapshot, source: NtpSource, address: Seq<u8>)
    requires
        peer.has_sample,
        peer.success_count > 0,
    ensures
        holds(peer_json(peer, source, address), "\n        {\n          \"address\": "@ + quoted(ipv4_text(peer.address@))),
        holds(peer_json(peer, source, address), ",\n          \"source\": \""@ + peer.source.spec_label()),
        holds(peer_json(peer, source, address), "\",\n          \"selected\": "@ + bool_text(peer.source == source && peer.address@ == address)),
        holds(peer_json(peer, source, address), ",\n          \"stratum\": "@ + decimal(peer.stratum as nat)),
        holds(peer_json(peer, source, address), ",\n          \"latency_ms\": "@ + fixed_point(false, peer.latency_us as nat, 3)),
        holds(peer_json(peer, source, address), ",\n          \"jitter_ms\": "@ + fixed_point(false, peer.jitter_us as nat, 3)),
        holds(peer_json(peer, source, address), ",\n          \"offset_ms\": "@ + signed_ms_or_null(peer.offset_us)),
        holds(peer_json(peer, source, address), ",\n          \"offset_jitter_ms\": "@ + ms_or_null(peer.offset_jitter_us)),
        holds(peer_json(peer, source, address), ",\n          \"success_count\": "@ + decimal(peer.success_count as nat)),
        holds(peer_json(peer, source, address), ",\n          \"fail_count\": "@ + decimal(peer.fail_count as nat)),
        holds(peer_json(peer, source, address), ",\n          \"last_sync_uptime_s\": "@ + decimal(peer.last_sync_uptime_s as nat)),
{
    parts_are_held();
}

/// The memory of the device is reported, each value under its name.
pub proof fn the_heap_is_reported(heap: HeapReport)
    ensures
        holds(heap_json(heap), "    \"heap_free_bytes\": "@ + decimal(heap.free as nat)),
        holds(heap_json(heap), ",\n    \"heap_used_bytes\": "@ + decimal(heap.used as nat)),
        holds(heap_json(heap), ",\n    \"heap\": {\n      \"size_bytes\": "@ + decimal(heap.size as nat)),
        holds(heap_json(heap), ",\n      \"current_usage_bytes\": "@ + decimal(heap.current_usage as nat)),
{
    parts_are_held();
}

/// Of a region of the memory its own values are reported, each under its name.
pub proof fn a_region_is_reported_as_json(region: HeapRegion)
    ensures
        holds(region_json(region), "\n        {\"type\":\""@ + region_label(region.kind)),
        holds(region_json(region), "\",\"size_bytes\":"@ + decimal(region.size as nat)),
        holds(region_json(region), ",\"used_bytes\":"@ + decimal(region.used as nat)),
        holds(region_json(region), ",\"free_bytes\":"@ + decimal(region.free as nat)),
        holds(region_json(region), ",\"used_percent\":"@ + decimal(used_percent(region) as nat)),
        holds(region_json(region), ",\"bar\":\""@ + usage_bar(used_percent(region))),
{
    parts_are_held();
}

/// The packets that were sent, and not sent, and where to, are reported.
pub proof fn telemetry_is_reported(t: TelemetryReport)
    ensures
        holds(telemetry_json(t), "  \"telemetry\": {\n    \"packets_sent\": "@ + decimal(t.packets_sent as nat)),
        holds(telemetry_json(t), ",\n    \"packets_failed\": "@ + decimal(t.packets_failed as nat)),
        holds(telemetry_json(t), ",\n    \"server_ip\": "@ + (match t.server_ip {
                Some(ip) => quoted(ipv4_text(ip@)),
                None => "null"@,
            })),
{
    parts_are_held();
}

/// The status document holds every part, the address, the uptime, and whether the
/// device collects.
pub proof fn the_status_holds_every_part(hostname: Seq<char>, s: MetricsSnapshot, target: TargetText, peers: Seq<NtpPeerSnapshot>, heap: HeapReport, uptime_s: u64, telemetry: TelemetryReport)
    ensures
        holds(status_json(hostname, s, target, peers, heap, uptime_s, telemetry), sensor_json(hostname, s)),
        holds(status_json(hostname, s, target, peers, heap, uptime_s, telemetry), control_json(s, target)),
        holds(status_json(hostname, s, target, peers, heap, uptime_s, telemetry), ntp_json(s, peers)),
        holds(status_json(hostname, s, target, peers, heap, uptime_s, telemetry), heap_json(heap)),
        holds(status_json(hostname, s, target, peers, heap, uptime_s, telemetry), telemetry_json(telemetry)),
        holds(status_json(hostname, s, target, peers, heap, uptime_s, telemetry), "  \"system\": {\n    \"ip\": "@ + quoted(address_text(s))),
        holds(status_json(hostname, s, target, peers, heap, uptime_s, telemetry), ",\n    \"collecting\": "@ + bool_text(s.collection_enabled)),
        holds(status_json(hostname, s, target, peers, heap, uptime_s, telemetry), "    \"uptime_s\": "@ + decimal(uptime_s as nat)),
{
    parts_are_held();
}

/// The metrics of the system are those of the device, each under its name.
pub proof fn the_system_is_measured(heap: HeapReport, uptime_s: u64)
    ensures
        holds(system_metrics(heap, uptime_s), "brewster_up"@ + " "@ + "1"@ + "\n"@),
        holds(system_metrics(heap, uptime_s), "brewster_uptime_seconds"@ + " "@ + decimal(uptime_s as nat) + "\n"@),
        holds(system_metrics(heap, uptime_s), "brewster_heap_free_bytes"@ + " "@ + decimal(heap.free as nat) + "\n"@),
        holds(system_metrics(heap, uptime_s), "brewster_heap_used_bytes"@ + " "@ + decimal(heap.used as nat) + "\n"@),
        holds(system_metrics(heap, uptime_s), "brewster_heap_size_bytes"@ + " "@ + decimal(heap.size as nat) + "\n"@),
        holds(system_metrics(heap, uptime_s), "brewster_heap_current_usage_bytes"@ + " "@ + decimal(heap.current_usage as nat) + "\n"@),
{
    parts_are_held();
}

/// The metrics of the sensor and of the target are theirs, each under its name,
/// and there is no number where there was no reading.
pub proof fn the_temperature_is_measured(s: PrometheusSnapshot)
    ensures
        holds(control_metrics(s), "brewster_sensor_temperature_valid"@ + " "@ + flag_text(s.temp_centi != i32::MIN) + "\n"@),
        holds(control_metrics(s), "brewster_sensor_temperature_celsius"@ + " "@ + celsius_or(s.temp_centi, "NaN"@) + "\n"@),
        holds(control_metrics(s), "brewster_temperature_c"@ + " "@ + celsius_or(s.temp_centi, "NaN"@) + "\n"@),
        holds(control_metrics(s), "brewster_sensor_temperature_fahrenheit"@ + " "@ + fahrenheit_or(s.temp_centi, "NaN"@) + "\n"@),
        holds(control_metrics(s), "brewster_temperature_f"@ + " "@ + fahrenheit_or(s.temp_centi, "NaN"@) + "\n"@),
        holds(control_metrics(s), "brewster_pid_target_celsius"@ + " "@ + celsius_text(s.target_centi as int) + "\n"@),
        holds(control_metrics(s), "brewster_target_temperature_c"@ + " "@ + celsius_text(s.target_centi as int) + "\n"@),
        holds(control_metrics(s), "brewster_pid_target_fahrenheit"@ + " "@ + fahrenheit_text(s.target_centi as int) + "\n"@),
        holds(control_metrics(s), "brewster_target_temperature_f"@ + " "@ + fahrenheit_text(s.target_centi as int) + "\n"@),
{
    parts_are_held();
}

/// The metrics of the control are those of its loop, each under its name.
pub proof fn the_control_is_measured(s: PrometheusSnapshot)
    ensures
        holds(control_metrics(s), "brewster_pid_kp"@ + " "@ + fixed_point(false, 140_000, 4) + "\n"@),
        holds(control_metrics(s), "brewster_pid_ki"@ + " "@ + fixed_point(false, 3_500, 4) + "\n"@),
        holds(control_metrics(s), "brewster_pid_kd"@ + " "@ + fixed_point(false, 60_000, 4) + "\n"@),
        holds(control_metrics(s), "brewster_pid_output_percent"@ + " "@ + fixed_point(false, s.pid_deci as nat, 1) + "\n"@),
        holds(control_metrics(s), "brewster_pid_window_step"@ + " "@ + decimal(s.pid_window_step as nat) + "\n"@),
        holds(control_metrics(s), "brewster_pid_on_steps"@ + " "@ + decimal(s.pid_on_steps as nat) + "\n"@),
        holds(control_metrics(s), "brewster_relay_on"@ + " "@ + flag_text(s.relay_on) + "\n"@),
{
    parts_are_held();
}

/// The metrics of the clock are its own, each under its name.
pub proof fn the_clock_is_measured(s: PrometheusSnapshot, peers: Seq<NtpPeerSnapshot>)
    requires
        s.ntp_synced,
    ensures
        holds(ntp_metrics(s, peers), "brewster_ntp_synced"@ + " "@ + "1"@ + "\n"@),
        holds(ntp_metrics(s, peers), "brewster_ntp_sync_total"@ + " "@ + decimal(s.ntp_sync_count as nat) + "\n"@),
        holds(ntp_metrics(s, peers), "brewster_ntp_last_sync_uptime_seconds"@ + " "@ + decimal(s.ntp_uptime_at_sync as nat) + "\n"@),
{
    parts_are_held();
}

/// The metrics of the server that is followed are its own, each under its name.
pub proof fn the_master_is_measured(s: PrometheusSnapshot, peers: Seq<NtpPeerSnapshot>, master: NtpPeerSnapshot)
    requires
        s.ntp_synced,
        selected_peer(peers, NtpSource::of_code(s.ntp_source_code), s.master_ip@, 0) == Some(master),
        master.has_sample,
    ensures
        holds(ntp_metrics(s, peers), "brewster_ntp_master_stratum"@ + " "@ + decimal(master.stratum as nat) + "\n"@),
        holds(ntp_metrics(s, peers), "brewster_ntp_master_latency_seconds"@ + " "@ + seconds_text(master.latency_us as int) + "\n"@),
        holds(ntp_metrics(s, peers), "brewster_ntp_master_latency_ms"@ + " "@ + millis_text(master.latency_us as int) + "\n"@),
        holds(ntp_metrics(s, peers), "brewster_ntp_master_jitter_seconds"@ + " "@ + seconds_text(master.jitter_us as int) + "\n"@),
        holds(ntp_metrics(s, peers), "brewster_ntp_master_jitter_ms"@ + " "@ + millis_text(master.jitter_us as int) + "\n"@),
        holds(ntp_metrics(s, peers), "brewster_ntp_master_success_total"@ + " "@ + decimal(master.success_count as nat) + "\n"@),
        holds(ntp_metrics(s, peers), "brewster_ntp_master_fail_total"@ + " "@ + decimal(master.fail_count as nat) + "\n"@),
{
    parts_are_held();
}

/// How far the clock was off from the server that is followed is measured, each
/// value under its name.
pub proof fn the_masters_offset_is_measured(s: PrometheusSnapshot, peers: Seq<NtpPeerSnapshot>, master: NtpPeerSnapshot, offset: i32, jitter: u32)
    requires
        selected_peer(peers, NtpSource::of_code(s.ntp_source_code), s.master_ip@, 0) == Some(master),
        master.offset_us == Some(offset),
        master.offset_jitter_us == Some(jitter),
    ensures
        holds(ntp_metrics(s, peers), "brewster_ntp_master_offset_seconds"@ + " "@ + seconds_text(offset as int) + "\n"@),
        holds(ntp_metrics(s, peers), "brewster_ntp_master_offset_ms"@ + " "@ + millis_text(offset as int) + "\n"@),
        holds(ntp_metrics(s, peers), "brewster_ntp_master_offset_jitter_seconds"@ + " "@ + seconds_text(jitter as int) + "\n"@),
        holds(ntp_metrics(s, peers), "brewster_ntp_master_offset_jitter_ms"@ + " "@ + millis_text(jitter as int) + "\n"@),
{
    parts_are_held();
}

/// The metrics of a peer are its own, each under its name.
pub proof fn a_peer_is_measured(peer: NtpPeerSnapshot, selected: bool)
    requires
        peer.has_sample,
    ensures
        holds(peer_sample(peer, selected), "brewster_ntp_peer_success_total"@ + "{"@ + peer_labels(peer, selected) + "} "@ + decimal(peer.success_count as nat) + "\n"@),
        holds(peer_sample(peer, selected), "brewster_ntp_peer_fail_total"@ + "{"@ + peer_labels(peer, selected) + "} "@ + decimal(peer.fail_count as nat) + "\n"@),
        holds(peer_sample(peer, selected), "brewster_ntp_peer_jitter_seconds"@ + "{"@ + peer_labels(peer, selected) + "} "@ + seconds_text(peer.jitter_us as int) + "\n"@),
        holds(peer_sample(peer, selected), "brewster_ntp_peer_last_sync_uptime_seconds"@ + "{"@ + peer_labels(peer, selected) + "} "@ + decimal(peer.last_sync_uptime_s as nat) + "\n"@),
        holds(peer_sample(peer, selected), "brewster_ntp_peer_latency_seconds"@ + "{"@ + peer_labels(peer, selected) + "} "@ + seconds_text(peer.latency_us as int) + "\n"@),
{
    parts_are_held();
}

/// The metrics of a region of the memory are its own, each under its name.
pub proof fn a_region_is_measured(index: nat, region: HeapRegion)
    ensures
        holds(region_sample(index, region), "brewster_heap_region_size_bytes"@ + "{"@ + region_labels(index, region.kind) + "} "@ + decimal(region.size as nat) + "\n"@),
        holds(region_sample(index, region), "brewster_heap_region_used_bytes"@ + "{"@ + region_labels(index, region.kind) + "} "@ + decimal(region.used as nat) + "\n"@),
        holds(region_sample(index, region), "brewster_heap_region_free_bytes"@ + "{"@ + region_labels(index, region.kind) + "} "@ + decimal(region.free as nat) + "\n"@),
        holds(region_sample(index, region), "brewster_heap_region_used_percent"@ + "{"@ + region_labels(index, region.kind) + "} "@ + decimal(used_percent(region) as nat) + "\n"@),
{
    parts_are_held();
}

/// The metrics of the device hold those of the system, the control, the clock and
/// its peers.
pub proof fn the_metrics_hold_every_part(s: PrometheusSnapshot, peers: Seq<NtpPeerSnapshot>, heap: HeapReport, uptime_s: u64)
    ensures
        holds(exposition(s, peers, heap, uptime_s), system_metrics(heap, uptime_s)),
        holds(exposition(s, peers, heap, uptime_s), control_metrics(s)),
        holds(exposition(s, peers, heap, uptime_s), ntp_metrics(s, peers)),
        holds(exposition(s, peers, heap, uptime_s), peer_metrics(peers, NtpSource::of_code(s.ntp_source_code), s.master_ip@)),
{
    parts_are_held();
}

/// The header of a reply gives its status, its type, and the length of its body in
/// bytes.
pub proof fn a_header_gives_the_length(r: Response)
    ensures
        holds(header_text(r), "HTTP/1.1 "@ + r.status_line@),
        holds(header_text(r), "\r\nContent-Type: "@ + r.content_type@),
        holds(header_text(r), "\r\nContent-Length: "@ + decimal(encode_utf8(r.body.text()).len())),
{
    parts_are_held();
}

/// The feature flags are served as they are, each under its name.
pub proof fn flags_are_served_under_their_names(http: bool, prometheus: bool)
    ensures
        holds(config_document(http, prometheus), "{\n  \"http_server\": "@ + bool_text(http)),
        holds(config_document(http, prometheus), ",\n  \"prometheus\": "@ + bool_text(prometheus)),
{
    parts_are_held();
}

/// The reply to a switch of collection says what it was switched to.
pub proof fn collection_is_served_as_it_is(enabled: bool)
    ensures
        holds(collection_document(enabled), "{\n  \"ok\": true,\n  \"collecting\": "@ + bool_text(enabled)),
{
    parts_are_held();
}

/// The reply to a new target gives it in both units, each under its name.
pub proof fn a_target_is_served_under_its_names(target: TargetText)
    ensures
        holds(temperature_document(target), "{\n  \"ok\": true,\n  \"temperature_c\": "@ + target.celsius@),
        holds(temperature_document(target), ",\n  \"temperature_f\": "@ + target.fahrenheit@),
{
    parts_are_held();
}

/// The running profile is served with its step, its target and its hold, each
/// under its name.
pub proof fn a_running_profile_is_served(s: ActiveProfileState)
    ensures
        holds(active_document(Some(s)), "{\n  \"active\": true,\n  \"name\": \""@ + s.name@),
        holds(active_document(Some(s)), "\",\n  \"step_index\": "@ + decimal(s.step_index as nat)),
        holds(active_document(Some(s)), ",\n  \"total_steps\": "@ + decimal(s.total_steps as nat)),
        holds(active_document(Some(s)), ",\n  \"step_target_c\": "@ + celsius_text(s.step_target_centi as int)),
        holds(active_document(Some(s)), ",\n  \"step_target_f\": "@ + fahrenheit_text(s.step_target_centi as int)),
        holds(active_document(Some(s)), ",\n  \"step_hold_secs\": "@ + decimal(s.step_hold_secs as nat)),
        holds(active_document(Some(s)), ",\n  \"at_target\": "@ + bool_text(s.at_target)),
        holds(active_document(Some(s)), ",\n  \"hold_elapsed_secs\": "@ + decimal(s.hold_elapsed_secs as nat)),
{
    parts_are_held();
}

/// A stored profile is served with its slot, its name and its steps.
pub proof fn a_stored_profile_is_served(slot: nat, p: TempProfile)
    ensures
        holds(profile_document(slot, p), "{\n  \"ok\": true,\n  \"slot\": "@ + decimal(slot)),
        holds(profile_document(slot, p), ",\n  \"name\": \""@ + p.name@),
        holds(profile_document(slot, p), "\",\n  \"steps\": ["@ + step_items(p.steps@)),
{
    parts_are_held();
}

/// A step is served with its target in both units and its hold, each under its
/// name.
pub proof fn a_step_is_served_under_its_names(step: ProfileStep)
    ensures
        holds(step_item(step), "\n    { \"target_c\": "@ + celsius_text(step.target_centi as int)),
        holds(step_item(step), ", \"target_f\": "@ + fahrenheit_text(step.target_centi as int)),
        holds(step_item(step), ", \"hold_secs\": "@ + decimal(step.hold_secs as nat)),
{
    parts_are_held();
}

/// A profile is listed with its slot, its name and the number of its steps.
pub proof fn a_listed_profile_is_served(slot: nat, p: TempProfile)
    ensures
        holds(profile_item(slot, p), "\n    { \"slot\": "@ + decimal(slot)),
        holds(profile_item(slot, p), ", \"name\": \""@ + p.name@),
        holds(profile_item(slot, p), "\", \"steps\": "@ + decimal(p.steps@.len())),
{
    parts_are_held();
}

/// The reply to the start of a profile gives its name and its first target.
pub proof fn a_started_profile_is_served(name: Seq<char>, target_centi: i32)
    ensures
        holds(started_document(name, target_centi), "{\n  \"ok\": true,\n  \"name\": \""@ + name),
        holds(started_document(name, target_centi), "\",\n  \"step\": 0,\n  \"target_c\": "@ + celsius_text(target_centi as int)),
{
    parts_are_held();
}

/// The reply to a new probe name gives the name.
pub proof fn a_probe_name_is_served(name: Seq<char>)
    ensures
        holds(probe_name_document(name), "{\n  \"ok\": true,\n  \"probe_name\": \""@ + name),
{
    parts_are_held();
}

/// The history is served with the number of all records and a minute from one to
/// the next.
pub proof fn history_is_served_with_its_count(points: Seq<HistorySample>, total_samples: u32)
    ensures
        holds(history_document(points, total_samples), "{\n  \"sample_interval_s\": "@ + decimal(60)),
        holds(history_document(points, total_samples), ",\n  \"total_samples\": "@ + decimal(total_samples as nat)),
        holds(history_document(points, total_samples), ",\n  \"points\": ["@ + points_json(points)),
{
    parts_are_held();
}

/// A point of the history is served with its values in their columns.
pub proof fn a_point_is_served_in_its_columns(p: HistorySample)
    ensures
        holds(point_json(p), "\n    ["@ + decimal(p.seq as nat) + ","@ + celsius_text(p.temp_centi as int) + ","@ + celsius_text(p.target_centi as int) + ","@ + fixed_point(false, 10 * p.output_percent as nat, 1) + ","@ + decimal(p.window_step as nat) + ","@ + decimal(p.on_steps as nat) + ","@),
{
    parts_are_held();
}

/// The status line gives the temperature in both units, the target and the
/// uptime.
pub proof fn the_console_tells_the_readings(s: MetricsSnapshot, target: TargetText, uptime_s: u64, heap_free: usize)
    requires
        s.temp_centi != i32::MIN,
    ensures
        holds(status_line(s, target, uptime_s, heap_free), " temp="@ + celsius_text(s.temp_centi as int)),
        holds(status_line(s, target, uptime_s, heap_free), "C/"@ + fahrenheit_text(s.temp_centi as int)),
        holds(status_line(s, target, uptime_s, heap_free), " target="@ + target.celsius@ + "C/"@ + target.fahrenheit@ + "F"@),
        holds(status_line(s, target, uptime_s, heap_free), " sensor="@ + SensorStatus::of_code(s.sensor_status_code).spec_label()),
        holds(status_line(s, target, uptime_s, heap_free), " uptime="@ + decimal(uptime_s as nat)),
        holds(status_line(s, target, uptime_s, heap_free), " heap_free="@ + decimal(heap_free as nat)),
        holds(status_line(s, target, uptime_s, heap_free), " pid="@ + fixed_point(false, s.pid_deci as nat, 1)),
        holds(status_line(s, target, uptime_s, heap_free), " led=("@ + decimal(s.led_red as nat)),
        s.relay_on ==> holds(status_line(s, target, uptime_s, heap_free), "% relay="@ + "on"@),
        !s.relay_on ==> holds(status_line(s, target, uptime_s, heap_free), "% relay="@ + "off"@),
{
    parts_are_held();
}

/// The status line gives the fault where there is no temperature, and the target.
pub proof fn the_console_tells_a_fault(s: MetricsSnapshot, target: TargetText, uptime_s: u64, heap_free: usize)
    requires
        s.temp_centi == i32::MIN,
    ensures
        holds(status_line(s, target, uptime_s, heap_free), " sensor="@ + SensorStatus::of_code(s.sensor_status_code).spec_label()),
        holds(status_line(s, target, uptime_s, heap_free), " target="@ + target.celsius@ + "C/"@ + target.fahrenheit@ + "F"@),
        holds(status_line(s, target, uptime_s, heap_free), " heap_free="@ + decimal(heap_free as nat)),
{
    parts_are_held();
}

/// Every peer is measured, and marked where it is the one that is followed.
pub proof fn every_peer_is_measured(
    peers: Seq<NtpPeerSnapshot>,
    source: NtpSource,
    address: Seq<u8>,
    i: int,
)
    requires
        0 <= i < peers.len(),
    ensures
        holds(
            peer_samples(peers, source, address),
            peer_sample(peers[i], peers[i].source == source && peers[i].address@ == address),
        ),
    decreases peers.len(),
{
    parts_are_held();
    if i < peers.len() - 1 {
        every_peer_is_measured(peers.drop_last(), source, address, i);
        assert(peers.drop_last()[i] == peers[i]);
    } else {
        assert(peers.last() == peers[i]);
    }
}

/// The server that is followed is the first of the peers with its source and
/// address.
pub proof fn the_master_is_the_first_of_its_address(
    peers: Seq<NtpPeerSnapshot>,
    source: NtpSource,
    address: Seq<u8>,
    from: int,
    i: int,
)
    requires
        0 <= from <= i < peers.len(),
        peers[i].source == source,
        peers[i].address@ == address,
        forall|k: int|
            from <= k < i ==> (#[trigger] peers[k]).source != source || peers[k].address@ != address,
    ensures
        selected_peer(peers, source, address, from) == Some(peers[i]),
    decreases i - from,
{
    if from < i {
        assert(peers[from].source != source || peers[from].address@ != address);
        the_master_is_the_first_of_its_address(peers, source, address, from + 1, i);
    }
}

/// How much of a region is used is its share in whole percent, and its bar has
/// a block filled for each whole ten percent and ten blocks in all.
pub proof fn a_bar_shows_the_share(region: HeapRegion)
    requires
        0 < region.size,
        region.used <= region.size,
        region.used * 100 <= usize::MAX,
    ensures
        used_percent(region) * region.size <= region.used * 100 < (used_percent(region) + 1)
            * region.size,
        usage_bar(used_percent(region)).len() == 10,
        forall|i: int|
            0 <= i < 10 ==> (#[trigger] usage_bar(used_percent(region))[i] == '#' <==> 10 * (i + 1)
                <= used_percent(region)),
{
    let n = region.used * 100;
    let q = n / region.size as int;
    assert(0 <= q <= 100 && q * region.size <= n < (q + 1) * region.size) by (nonlinear_arith)
        requires
            region.size > 0,
            0 <= n <= region.size * 100,
            q == n / region.size as int,
    ;
}

/// A temperature in degrees Fahrenheit is nine fifths of the one in degrees
/// Celsius and 32, to the nearest hundredth, `m` hundredths without the sign.
pub proof fn fahrenheit_is_nine_fifths_and_32(centi: int, m: nat)
    requires
        ({
            let fifths = 9 * centi + 5 * 3200;
            let size = if fifths < 0 {
                -fifths
            } else {
                fifths
            };
            10 * m - 5 <= 2 * size < 10 * m + 5
        }),
    ensures
        fahrenheit_text(centi) == fixed_point(9 * centi + 16000 < 0, m, 2),
{
}

/// A temperature in degrees Celsius is that of its hundredths, with a sign below
/// zero, and there is a word for none.
pub proof fn celsius_is_the_hundredths(centi: i32, missing: Seq<char>)
    ensures
        celsius_text(centi as int) == fixed_point(
            centi < 0,
            (if centi < 0 {
                -centi
            } else {
                centi as int
            }) as nat,
            2,
        ),
        centi == i32::MIN ==> celsius_or(centi, missing) == missing && fahrenheit_or(centi, missing)
            == missing,
        centi != i32::MIN ==> celsius_or(centi, missing) == celsius_text(centi as int)
            && fahrenheit_or(centi, missing) == fahrenheit_text(centi as int),
{
}

/// A fixed-point number has its sign, its whole part, a dot and as many decimal
/// places as asked for, the digits of which go on where the whole part ends.
pub proof fn a_fixed_point_number_is_its_magnitude(negative: bool, m: nat)
    ensures
        fixed_point(negative, m, 1) == (if negative {
            "-"@
        } else {
            ""@
        }) + decimal(m / 10) + "."@ + digits(m, 1),
        fixed_point(negative, m, 2) == (if negative {
            "-"@
        } else {
            ""@
        }) + decimal(m / 100) + "."@ + digits(m, 2),
        fixed_point(negative, m, 3) == (if negative {
            "-"@
        } else {
            ""@
        }) + decimal(m / 1000) + "."@ + digits(m, 3),
{
    powers_of_ten();
    remainders(m);
    three_digits(m);
    three_digits(m % 10);
    three_digits(m % 100);
    three_digits(m % 1000);
    assert(digits(m % 10, 1) == digits(m, 1));
    assert(digits(m % 100, 2) == digits(m, 2));
    assert(digits(m % 1000, 3) == digits(m, 3));
}

proof fn remainders(m: nat)
    ensures
        m % 10 % 10 == m % 10,
        m % 100 % 10 == m % 10,
        m % 100 / 10 % 10 == m / 10 % 10,
        m % 1000 % 10 == m % 10,
        m % 1000 / 10 % 10 == m / 10 % 10,
        m % 1000 / 100 % 10 == m / 100 % 10,
{
    let (a, b, c, d) = (m % 10, m / 10 % 10, m / 100 % 10, m / 1000);
    assert(m == a + 10 * (m / 10));
    assert(m / 10 == b + 10 * (m / 10 / 10));
    assert(m / 10 / 10 == m / 100);
    assert(m / 100 == c + 10 * (m / 100 / 10));
    assert(m / 100 / 10 == m / 1000);
    assert(m == a + 10 * b + 100 * c + 1000 * d);
    assert(m % 100 == a + 10 * b);
    assert(m % 1000 == a + 10 * b + 100 * c);
    assert((a + 10 * b) / 10 == b && (a + 10 * b) % 10 == a);
    assert((a + 10 * b + 100 * c) / 100 == c);
    assert((a + 10 * b + 100 * c) / 10 == b + 10 * c);
    assert((a + 10 * b + 100 * c) % 10 == a);
    assert((b + 10 * c) % 10 == b);
}

proof fn powers_of_ten()
    ensures
        pow10(1) == 10,
        pow10(2) == 100,
        pow10(3) == 1000,
{
    reveal_with_fuel(pow10, 4);
}

/// The last digits of a number, from the hundreds on.
pub proof fn three_digits(n: nat)
    ensures
        digits(n, 1) == seq![(48 + n % 10) as char],
        digits(n, 2) == seq![(48 + n / 10 % 10) as char, (48 + n % 10) as char],
        digits(n, 3) == seq![
            (48 + n / 100 % 10) as char,
            (48 + n / 10 % 10) as char,
            (48 + n % 10) as char,
        ],
{
    let (a, b, c) = ((48 + n % 10) as char, (48 + n / 10 % 10) as char, (48 + n / 100 % 10) as char);
    assert(n / 10 / 10 == n / 100);
    one_more_digit(n / 100, 0);
    one_more_digit(n / 10, 0);
    one_more_digit(n, 0);
    one_more_digit(n / 10, 1);
    one_more_digit(n, 1);
    one_more_digit(n, 2);
    let none = Seq::<char>::empty();
    assert(none.push(a) =~= seq![a] && none.push(b) =~= seq![b] && none.push(c) =~= seq![c]);
    assert(seq![b].push(a) =~= seq![b, a]);
    assert(seq![c].push(b) =~= seq![c, b]);
    assert(seq![c, b].push(a) =~= seq![c, b, a]);
}

proof fn one_more_digit(n: nat, width: nat)
    ensures
        digits(n, width + 1) == digits(n / 10, width).push((48 + n % 10) as char),
        digits(n, 0) == Seq::<char>::empty(),
{
}

/// The status document holds what it says of every peer.
pub proof fn every_peer_is_reported_as_json(
    peers: Seq<NtpPeerSnapshot>,
    source: NtpSource,
    address: Seq<u8>,
    i: int,
)
    requires
        0 <= i < peers.len(),
    ensures
        holds(peers_json(peers, source, address), peer_json(peers[i], source, address)),
    decreases peers.len(),
{
    parts_are_held();
    if i < peers.len() - 1 {
        every_peer_is_reported_as_json(peers.drop_last(), source, address, i);
        assert(peers.drop_last()[i] == peers[i]);
    } else {
        assert(peers.last() == peers[i]);
    }
}

/// The status document holds what it says of every region of the memory.
pub proof fn every_region_is_reported_as_json(
    regions: Seq<Option<HeapRegion>>,
    i: int,
    region: HeapRegion,
)
    requires
        0 <= i < regions.len(),
        regions[i] == Some(region),
    ensures
        holds(regions_json(regions), region_json(region)),
        holds(memory_layout_json(regions), region_json(region)),
    decreases regions.len(),
{
    parts_are_held();
    if i < regions.len() - 1 {
        every_region_is_reported_as_json(regions.drop_last(), i, region);
        assert(regions.drop_last()[i] == regions[i]);
    } else {
        assert(regions.last() == regions[i]);
    }
}

/// Every region of the memory is measured under its place in the list.
pub proof fn every_region_is_measured(
    regions: Seq<Option<HeapRegion>>,
    i: int,
    region: HeapRegion,
)
    requires
        0 <= i < regions.len(),
        regions[i] == Some(region),
    ensures
        holds(region_samples(regions), region_sample(i as nat, region)),
    decreases regions.len(),
{
    parts_are_held();
    if i < regions.len() - 1 {
        every_region_is_measured(regions.drop_last(), i, region);
        assert(regions.drop_last()[i] == regions[i]);
    } else {
        assert(regions.last() == regions[i]);
    }
}

/// Every stored profile is listed under its slot, and the document says so.
pub proof fn every_stored_profile_is_listed(
    slots: Seq<Option<TempProfile>>,
    i: int,
    p: TempProfile,
)
    requires
        0 <= i < slots.len(),
        slots[i] == Some(p),
    ensures
        holds(profile_items(slots), profile_item(i as nat, p)),
        holds(profiles_document(slots), profile_item(i as nat, p)),
    decreases slots.len(),
{
    parts_are_held();
    if i < slots.len() - 1 {
        every_stored_profile_is_listed(slots.drop_last(), i, p);
        assert(slots.drop_last()[i] == slots[i]);
    } else {
        assert(slots.last() == slots[i]);
    }
}

/// Every step of a profile is served, in the document of the profile too.
#[verifier::rlimit(40)]
pub proof fn every_step_is_served(slot: nat, p: TempProfile, steps: Seq<ProfileStep>, i: int)
    requires
        0 <= i < steps.len(),
    ensures
        holds(step_items(steps), step_item(steps[i])),
        p.steps@ == steps ==> holds(profile_document(slot, p), step_item(steps[i])),
    decreases steps.len(),
{
    parts_are_held();
    if i < steps.len() - 1 {
        every_step_is_served(slot, p, steps.drop_last(), i);
        assert(steps.drop_last()[i] == steps[i]);
    } else {
        assert(steps.last() == steps[i]);
    }
    assert(holds(step_items(steps), step_item(steps[i])));
}

/// Every device that a scan found is listed, with its serial number and its
/// name where one is configured for it.
#[verifier::rlimit(40)]
pub proof fn every_found_device_is_listed(
    sensors: Seq<SensorConfig>,
    scan: Seq<[u8; 8]>,
    last_scan_uptime_s: u32,
    i: int,
)
    requires
        0 <= i < scan.len(),
    ensures
        holds(found_items(sensors, scan), found_item(sensors, scan[i])),
        holds(
            scan_document(sensors, scan, last_scan_uptime_s),
            found_item(sensors, scan[i]),
        ),
        holds(
            scan_document(sensors, scan, last_scan_uptime_s),
            "{\n  \"ok\": true,\n  \"last_scan_uptime_s\": "@ + decimal(last_scan_uptime_s as nat),
        ),
        holds(
            found_item(sensors, scan[i]),
            "\n    { \"serial\": \""@ + serial_text(scan[i]@),
        ),
        name_of(sensors, scan[i]@, 0) matches Some(name) ==> holds(
            found_item(sensors, scan[i]),
            "\", \"name\": \""@ + name,
        ),
        name_of(sensors, scan[i]@, 0) is None ==> holds(
            found_item(sensors, scan[i]),
            "\", \"name\": null }"@,
        ),
    decreases scan.len(),
{
    parts_are_held();
    if i < scan.len() - 1 {
        every_found_device_is_listed(sensors, scan.drop_last(), last_scan_uptime_s, i);
        assert(scan.drop_last()[i] == scan[i]);
    } else {
        assert(scan.last() == scan[i]);
    }
}

/// Every point of the history is served.
pub proof fn every_point_is_served(points: Seq<HistorySample>, i: int)
    requires
        0 <= i < points.len(),
    ensures
        holds(points_json(points), point_json(points[i])),
    decreases points.len(),
{
    parts_are_held();
    if i < points.len() - 1 {
        every_point_is_served(points.drop_last(), i);
        assert(points.drop_last()[i] == points[i]);
    } else {
        assert(points.last() == points[i]);
    }
}

/// Times are written in milliseconds with three places or in seconds with six,
/// with a sign below zero, and as `null` where there are none.
pub proof fn times_are_written_with_their_sign(us: i32, n: u32)
    ensures
        us >= 0 ==> {
            &&& millis_text(us as int) == fixed_point(false, us as nat, 3)
            &&& seconds_text(us as int) == fixed_point(false, us as nat, 6)
            &&& signed_ms_or_null(Some(us)) == fixed_point(false, us as nat, 3)
        },
        us < 0 ==> {
            &&& millis_text(us as int) == fixed_point(true, (-us) as nat, 3)
            &&& seconds_text(us as int) == fixed_point(true, (-us) as nat, 6)
            &&& signed_ms_or_null(Some(us)) == fixed_point(true, (-us) as nat, 3)
        },
        ms_or_null(Some(n)) == fixed_point(false, n as nat, 3),
        ms_or_null(None) == "null"@ && signed_ms_or_null(None) == "null"@,
        time_or_null(Some(n)) == "\""@ + iso8601_of(n) + "\""@,
        time_or_null(None) == "null"@,
{
}

} // verus!
