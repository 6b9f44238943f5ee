//! Status documents: JSON for the dashboard, text for the console, Prometheus
//! metrics for collection.
//!
//! Numbers are written from integers: temperatures from hundredths of a
//! degree, times from microseconds, duty cycles from tenths of a percent. Only
//! the target temperature to one decimal place is handed in as text.

use vstd::prelude::*;
use vstd::slice::slice_subrange;
use crate::bytes::bytes_equal;
use crate::text::{
    all_digits, append_chars, append_decimal, append_fixed, bool_str, bool_text, decimal,
    decimal_read_back, find, find_chars, find_from_bounds, fixed_point, is_digit, split,
    split_of_part, to_chars,
};
use super::bounded::{string32, string32_str};
use super::config::{PID_KD, PID_KI, PID_KP};
use super::shared::{ipv4_of, iso8601_of, unix_to_iso8601, NtpSource};
use super::status::{
    sensor_status_label, MetricsSnapshot, NetState, NtpPeerSnapshot, PrometheusSnapshot,
    SensorStatus, UNKNOWN_TEMPERATURE_CENTI,
};
use super::storage::{HistorySample, HISTORY_SAMPLE_INTERVAL_SECS};

verus! {

/// The memory that a heap region lies in.
#[derive(Clone, Copy, Debug, PartialEq, Eq, Structural)]
pub enum RegionKind {
    Internal,
    External,
    Unknown,
}

/// One region of the heap, in bytes.
#[derive(Clone, Copy, Debug, PartialEq, Eq, Structural)]
pub struct HeapRegion {
    pub kind: RegionKind,
    pub size: usize,
    pub used: usize,
    pub free: usize,
}

/// The state of the heap, in bytes.
pub struct HeapReport {
    pub free: usize,
    pub used: usize,
    pub size: usize,
    pub current_usage: usize,
    pub regions: Vec<Option<HeapRegion>>,
}

/// The target temperature to one decimal place.
pub struct TargetText {
    pub celsius: String,
    pub fahrenheit: String,
}

/// What the telemetry sender did since boot.
pub struct TelemetryReport {
    pub packets_sent: u32,
    pub packets_failed: u32,
    pub server_ip: Option<[u8; 4]>,
}

// ── Values ───────────────────────────────────────────────────────────────────

/// An IPv4 address in dotted decimal.
pub open spec fn ipv4_text(ip: Seq<u8>) -> Seq<char> {
    decimal(ip[0] as nat) + "."@ + decimal(ip[1] as nat) + "."@ + decimal(ip[2] as nat) + "."@
        + decimal(ip[3] as nat)
}

/// An address that was written reads as the same address.
pub proof fn ipv4_read_back(ip: Seq<u8>)
    requires
        ip.len() == 4,
    ensures
        ipv4_of(ipv4_text(ip)) == Some(ip),
{
    let a = decimal(ip[0] as nat);
    let b = decimal(ip[1] as nat);
    let c = decimal(ip[2] as nat);
    let d = decimal(ip[3] as nat);
    decimal_read_back(ip[0] as nat, 255);
    decimal_read_back(ip[1] as nat, 255);
    decimal_read_back(ip[2] as nat, 255);
    decimal_read_back(ip[3] as nat, 255);
    reveal_strlit(".");
    let none = Seq::<char>::empty();
    dot_starts_a_part(none, a);
    let one = a + "."@;
    assert(none + a + "."@ == one);
    dot_starts_a_part(one, b);
    dot_starts_a_part(one + b + "."@, c);
    split_of_part(one + b + "."@ + c + "."@, d, '.');
    assert(split(none, '.') == seq![none]);
    let parts = split(ipv4_text(ip), '.');
    assert(none + a == a && none + b == b && none + c == c && none + d == d);
    assert(parts == seq![a, b, c, d]);
    assert(ipv4_of(ipv4_text(ip))->0 == ip);
}

/// A dot after digits ends a part and starts an empty one.
proof fn dot_starts_a_part(s: Seq<char>, part: Seq<char>)
    requires
        all_digits(part),
    ensures
        !part.contains('.'),
        split(s + part + "."@, '.') == split(s, '.').drop_last().push(
            split(s, '.').last() + part,
        ).push(Seq::empty()),
{
    reveal_strlit(".");
    assert forall|i: int| 0 <= i < part.len() implies part[i] != '.' by {
        assert(is_digit(part[i]));
    }
    split_of_part(s, part, '.');
    assert((s + part + "."@).drop_last() == s + part);
}

/// Text in double quotes.
pub open spec fn quoted(s: Seq<char>) -> Seq<char> {
    "\""@ + s + "\""@
}

/// A number, or `null`.
pub open spec fn number_or_null(v: Option<u32>) -> Seq<char> {
    match v {
        Some(n) => decimal(n as nat),
        None => "null"@,
    }
}

/// Microseconds in milliseconds with three decimal places, or `null`.
pub open spec fn ms_or_null(v: Option<u32>) -> Seq<char> {
    match v {
        Some(us) => fixed_point(false, us as nat, 3),
        None => "null"@,
    }
}

/// The size of a number without its sign.
pub open spec fn magnitude(v: int) -> nat {
    if v < 0 {
        (-v) as nat
    } else {
        v as nat
    }
}

/// Signed microseconds in milliseconds with three decimal places, or `null`.
pub open spec fn signed_ms_or_null(v: Option<i32>) -> Seq<char> {
    match v {
        Some(us) => fixed_point(us < 0, magnitude(us as int), 3),
        None => "null"@,
    }
}

/// Hundredths of a degree Celsius, in degrees Celsius.
pub open spec fn celsius_text(centi: int) -> Seq<char> {
    fixed_point(centi < 0, magnitude(centi), 2)
}

/// Hundredths of a degree Celsius, in degrees Fahrenheit rounded to two
/// decimal places: nine fifths and 32 degrees.
pub open spec fn fahrenheit_text(centi: int) -> Seq<char> {
    let fifths = 9 * centi + 16000;
    fixed_point(fifths < 0, (2 * magnitude(fifths) + 5) / 10, 2)
}

/// A number as a string.
pub fn number(n: u64) -> (r: String)
    ensures
        r@ == decimal(n as nat),
{
    let mut out: String = String::new();
    append_decimal(&mut out, n);
    assert(out@ == decimal(n as nat));
    out
}

/// A fixed-point number as a string.
fn fixed(negative: bool, units: u64, width: u8) -> (r: String)
    requires
        width <= 6,
    ensures
        r@ == fixed_point(negative, units as nat, width as nat),
{
    let mut out: String = String::new();
    append_fixed(&mut out, negative, units, width);
    assert(out@ == fixed_point(negative, units as nat, width as nat));
    out
}

/// A signed fixed-point number as a string.
fn signed_fixed(v: i64, width: u8) -> (r: String)
    requires
        width <= 6,
        v > i64::MIN,
    ensures
        r@ == fixed_point(v < 0, magnitude(v as int), width as nat),
{
    let units: u64 = if v < 0 {
        (-v) as u64
    } else {
        v as u64
    };
    fixed(v < 0, units, width)
}

/// Degrees Celsius as a string.
pub fn celsius(centi: i32) -> (r: String)
    ensures
        r@ == celsius_text(centi as int),
{
    signed_fixed(centi as i64, 2)
}

/// Degrees Fahrenheit as a string.
pub fn fahrenheit(centi: i32) -> (r: String)
    ensures
        r@ == fahrenheit_text(centi as int),
{
    let fifths: i64 = 9 * centi as i64 + 16_000;
    let units: u64 = if fifths < 0 {
        (-fifths) as u64
    } else {
        fifths as u64
    };
    fixed(fifths < 0, (2 * units + 5) / 10, 2)
}

/// An IPv4 address as a string.
pub fn fmt_ip(octets: [u8; 4]) -> (r: String)
    ensures
        r@ == ipv4_text(octets@),
{
    let mut out: String = number(octets[0] as u64);
    out.append(".");
    append_decimal(&mut out, octets[1] as u64);
    out.append(".");
    append_decimal(&mut out, octets[2] as u64);
    out.append(".");
    append_decimal(&mut out, octets[3] as u64);
    out
}

fn write_ipv4(out: &mut String, octets: [u8; 4])
    ensures
        final(out)@ == old(out)@ + ipv4_text(octets@),
{
    out.append(fmt_ip(octets).as_str());
}

fn quote(s: &str) -> (r: String)
    ensures
        r@ == quoted(s@),
{
    let mut out: String = "\"".to_owned();
    out.append(s);
    out.append("\"");
    out
}

fn append_json_quoted_ipv4(out: &mut String, octets: [u8; 4])
    ensures
        final(out)@ == old(out)@ + quoted(ipv4_text(octets@)),
{
    out.append(quote(fmt_ip(octets).as_str()).as_str());
}

fn append_json_optional_u32(out: &mut String, value: Option<u32>)
    ensures
        final(out)@ == old(out)@ + number_or_null(value),
{
    match value {
        Some(v) => append_decimal(out, v as u64),
        None => out.append("null"),
    }
}

fn append_json_optional_ms3_from_us(out: &mut String, value_us: Option<u32>)
    ensures
        final(out)@ == old(out)@ + ms_or_null(value_us),
{
    match value_us {
        Some(us) => append_fixed(out, false, us as u64, 3),
        None => out.append("null"),
    }
}

fn append_json_optional_ms3_from_signed_us(out: &mut String, value_us: Option<i32>)
    ensures
        final(out)@ == old(out)@ + signed_ms_or_null(value_us),
{
    match value_us {
        Some(us) => out.append(signed_fixed(us as i64, 3).as_str()),
        None => out.append("null"),
    }
}

// ── JSON ─────────────────────────────────────────────────────────────────────

/// A value where a condition holds.
pub open spec fn given<T>(condition: bool, value: T) -> Option<T> {
    if condition {
        Some(value)
    } else {
        None
    }
}

/// Whether a peer is the one with this source and address.
pub open spec fn is_selected(peer: NtpPeerSnapshot, source: NtpSource, address: Seq<u8>) -> bool {
    peer.source == source && peer.address@ == address
}

/// The first peer at or after `from` with this source and address.
pub open spec fn selected_peer(
    peers: Seq<NtpPeerSnapshot>,
    source: NtpSource,
    address: Seq<u8>,
    from: int,
) -> Option<NtpPeerSnapshot>
    decreases peers.len() - from,
{
    if from < 0 || from >= peers.len() {
        None
    } else if is_selected(peers[from], source, address) {
        Some(peers[from])
    } else {
        selected_peer(peers, source, address, from + 1)
    }
}

fn peer_is_selected(peer: &NtpPeerSnapshot, source: NtpSource, address: [u8; 4]) -> (r: bool)
    ensures
        r == is_selected(*peer, source, address@),
{
    peer.source == source && bytes_equal(&peer.address, &address)
}

fn find_selected_peer(peers: &[NtpPeerSnapshot], source: NtpSource, address: [u8; 4]) -> (r: Option<
    NtpPeerSnapshot,
>)
    ensures
        r == selected_peer(peers@, source, address@, 0),
{
    let mut i: usize = 0;
    while i < peers.len()
        invariant
            i <= peers@.len(),
            selected_peer(peers@, source, address@, 0) == selected_peer(
                peers@,
                source,
                address@,
                i as int,
            ),
        decreases peers@.len() - i,
    {
        if peer_is_selected(&peers[i], source, address) {
            return Some(peers[i]);
        }
        i = i + 1;
    }
    None
}

/// A peer in the JSON document.
pub open spec fn peer_json(
    peer: NtpPeerSnapshot,
    selected_source: NtpSource,
    selected_address: Seq<u8>,
) -> Seq<char> {
    "\n        {\n          \"address\": "@ + quoted(ipv4_text(peer.address@))
        + ",\n          \"source\": \""@ + peer.source.spec_label()
        + "\",\n          \"selected\": "@ + bool_text(
        is_selected(peer, selected_source, selected_address),
    ) + ",\n          \"stratum\": "@ + number_or_null(given(peer.has_sample, peer.stratum as u32))
        + ",\n          \"latency_ms\": "@ + ms_or_null(given(peer.has_sample, peer.latency_us))
        + ",\n          \"jitter_ms\": "@ + ms_or_null(given(peer.has_sample, peer.jitter_us))
        + ",\n          \"offset_ms\": "@ + signed_ms_or_null(peer.offset_us)
        + ",\n          \"offset_jitter_ms\": "@ + ms_or_null(peer.offset_jitter_us)
        + ",\n          \"success_count\": "@ + decimal(peer.success_count as nat)
        + ",\n          \"fail_count\": "@ + decimal(peer.fail_count as nat)
        + ",\n          \"last_sync_uptime_s\": "@ + number_or_null(
        given(peer.success_count > 0, peer.last_sync_uptime_s),
    ) + "\n        }"@
}

fn ntp_peer_json(peer: NtpPeerSnapshot, selected_source: NtpSource, selected_address: [u8; 4]) -> (r:
    String)
    ensures
        r@ == peer_json(peer, selected_source, selected_address@),
{
    let selected: bool = peer_is_selected(&peer, selected_source, selected_address);
    let mut out: String = "\n        {\n          \"address\": ".to_owned();
    append_json_quoted_ipv4(&mut out, peer.address);
    out.append(",\n          \"source\": \"");
    out.append(peer.source.label());
    out.append("\",\n          \"selected\": ");
    out.append(bool_str(selected));
    out.append(",\n          \"stratum\": ");
    append_json_optional_u32(
        &mut out,
        if peer.has_sample {
            Some(peer.stratum as u32)
        } else {
            None
        },
    );
    out.append(",\n          \"latency_ms\": ");
    append_json_optional_ms3_from_us(
        &mut out,
        if peer.has_sample {
            Some(peer.latency_us)
        } else {
            None
        },
    );
    out.append(",\n          \"jitter_ms\": ");
    append_json_optional_ms3_from_us(
        &mut out,
        if peer.has_sample {
            Some(peer.jitter_us)
        } else {
            None
        },
    );
    out.append(",\n          \"offset_ms\": ");
    append_json_optional_ms3_from_signed_us(&mut out, peer.offset_us);
    out.append(",\n          \"offset_jitter_ms\": ");
    append_json_optional_ms3_from_us(&mut out, peer.offset_jitter_us);
    out.append(",\n          \"success_count\": ");
    append_decimal(&mut out, peer.success_count as u64);
    out.append(",\n          \"fail_count\": ");
    append_decimal(&mut out, peer.fail_count as u64);
    out.append(",\n          \"last_sync_uptime_s\": ");
    append_json_optional_u32(
        &mut out,
        if peer.success_count > 0 {
            Some(peer.last_sync_uptime_s)
        } else {
            None
        },
    );
    out.append("\n        }");
    out
}

/// The peers in the JSON document, between commas.
pub open spec fn peers_json(
    peers: Seq<NtpPeerSnapshot>,
    selected_source: NtpSource,
    selected_address: Seq<u8>,
) -> Seq<char>
    decreases peers.len(),
{
    if peers.len() == 0 {
        Seq::empty()
    } else {
        let before = peers_json(peers.drop_last(), selected_source, selected_address);
        before + (if peers.len() > 1 {
            ","@
        } else {
            ""@
        }) + peer_json(peers.last(), selected_source, selected_address)
    }
}

fn ntp_peers_json(
    peers: &[NtpPeerSnapshot],
    selected_source: NtpSource,
    selected_address: [u8; 4],
) -> (r: String)
    ensures
        r@ == peers_json(peers@, selected_source, selected_address@),
{
    let mut out: String = String::new();
    let mut i: usize = 0;
    assert(peers@.take(0) == Seq::<NtpPeerSnapshot>::empty());
    while i < peers.len()
        invariant
            i <= peers@.len(),
            out@ == peers_json(peers@.take(i as int), selected_source, selected_address@),
        decreases peers@.len() - i,
    {
        assert(peers@.take(i + 1).drop_last() == peers@.take(i as int));
        out.append(
            if i > 0 {
                ","
            } else {
                ""
            },
        );
        out.append(ntp_peer_json(peers[i], selected_source, selected_address).as_str());
        i = i + 1;
    }
    assert(peers@.take(i as int) == peers@);
    out
}

/// The name of a kind of memory.
pub open spec fn region_label(kind: RegionKind) -> Seq<char> {
    match kind {
        RegionKind::Internal => "internal"@,
        RegionKind::External => "external"@,
        RegionKind::Unknown => "unknown"@,
    }
}

fn region_str(kind: RegionKind) -> (r: &'static str)
    ensures
        r@ == region_label(kind),
{
    match kind {
        RegionKind::Internal => "internal",
        RegionKind::External => "external",
        RegionKind::Unknown => "unknown",
    }
}

/// A product held within the range of sizes.
pub open spec fn capped_product(a: int, b: int) -> int {
    if a * b <= usize::MAX {
        a * b
    } else {
        usize::MAX as int
    }
}

/// How much of a region is used, in percent rounded down.
pub open spec fn used_percent(region: HeapRegion) -> int {
    if region.size == 0 {
        0
    } else {
        capped_product(region.used as int, 100) / region.size as int
    }
}

/// A character several times over.
pub open spec fn repeated(c: char, n: nat) -> Seq<char> {
    Seq::new(n, |i: int| c)
}

/// A bar of ten blocks, one filled for each ten percent used.
pub open spec fn usage_bar(percent: int) -> Seq<char> {
    let blocks = capped_product(percent, 10) / 100;
    repeated('#', blocks as nat) + repeated(
        '-',
        (if blocks < 10 {
            10 - blocks
        } else {
            0
        }) as nat,
    )
}

fn product_capped(a: usize, b: usize) -> (r: usize)
    ensures
        r == capped_product(a as int, b as int),
{
    match a.checked_mul(b) {
        Some(v) => v,
        None => usize::MAX,
    }
}

fn region_used_percent(region: HeapRegion) -> (r: usize)
    ensures
        r == used_percent(region),
{
    if region.size == 0 {
        0
    } else {
        product_capped(region.used, 100) / region.size
    }
}

fn bar_str(percent: usize) -> (r: String)
    ensures
        r@ == usage_bar(percent as int),
{
    let blocks: usize = product_capped(percent, 10) / 100;
    let mut out: String = String::new();
    let mut i: usize = 0;
    while i < blocks
        invariant
            i <= blocks,
            out@ == repeated('#', i as nat),
        decreases blocks - i,
    {
        out.push('#');
        i = i + 1;
    }
    let mut k: usize = blocks;
    while k < 10
        invariant
            blocks <= k,
            out@ == repeated('#', blocks as nat) + repeated('-', (k - blocks) as nat),
            k <= 10 || k == blocks,
        decreases 10 - k,
    {
        out.push('-');
        k = k + 1;
    }
    out
}

/// A heap region in the JSON document.
pub open spec fn region_json(region: HeapRegion) -> Seq<char> {
    "\n        {\"type\":\""@ + region_label(region.kind) + "\",\"size_bytes\":"@ + decimal(
        region.size as nat,
    ) + ",\"used_bytes\":"@ + decimal(region.used as nat) + ",\"free_bytes\":"@ + decimal(
        region.free as nat,
    ) + ",\"used_percent\":"@ + decimal(used_percent(region) as nat) + ",\"bar\":\""@ + usage_bar(
        used_percent(region),
    ) + "\"}"@
}

fn heap_region_json(region: HeapRegion) -> (r: String)
    ensures
        r@ == region_json(region),
{
    let percent: usize = region_used_percent(region);
    let mut out: String = "\n        {\"type\":\"".to_owned();
    out.append(region_str(region.kind));
    out.append("\",\"size_bytes\":");
    append_decimal(&mut out, region.size as u64);
    out.append(",\"used_bytes\":");
    append_decimal(&mut out, region.used as u64);
    out.append(",\"free_bytes\":");
    append_decimal(&mut out, region.free as u64);
    out.append(",\"used_percent\":");
    append_decimal(&mut out, percent as u64);
    out.append(",\"bar\":\"");
    out.append(bar_str(percent).as_str());
    out.append("\"}");
    out
}

/// Whether any region is there.
pub open spec fn any_region(regions: Seq<Option<HeapRegion>>) -> bool
    decreases regions.len(),
{
    regions.len() > 0 && (regions.last() is Some || any_region(regions.drop_last()))
}

/// The heap regions in the JSON document, between commas.
pub open spec fn regions_json(regions: Seq<Option<HeapRegion>>) -> Seq<char>
    decreases regions.len(),
{
    if regions.len() == 0 {
        Seq::empty()
    } else {
        let before = regions_json(regions.drop_last());
        match regions.last() {
            Some(region) => before + (if any_region(regions.drop_last()) {
                ","@
            } else {
                ""@
            }) + region_json(region),
            None => before,
        }
    }
}

/// The list of heap regions in the JSON document, with its closing bracket.
pub open spec fn memory_layout_json(regions: Seq<Option<HeapRegion>>) -> Seq<char> {
    regions_json(regions) + (if any_region(regions) {
        "\n      "@
    } else {
        ""@
    }) + "]\n"@
}

fn heap_layout_json(regions: &[Option<HeapRegion>]) -> (r: String)
    ensures
        r@ == memory_layout_json(regions@),
{
    let mut out: String = String::new();
    let mut first: bool = true;
    let mut i: usize = 0;
    assert(regions@.take(0) == Seq::<Option<HeapRegion>>::empty());
    while i < regions.len()
        invariant
            i <= regions@.len(),
            out@ == regions_json(regions@.take(i as int)),
            first == !any_region(regions@.take(i as int)),
        decreases regions@.len() - i,
    {
        assert(regions@.take(i + 1).drop_last() == regions@.take(i as int));
        if let Some(region) = regions[i] {
            out.append(
                if !first {
                    ","
                } else {
                    ""
                },
            );
            out.append(heap_region_json(region).as_str());
            first = false;
        }
        i = i + 1;
    }
    assert(regions@.take(i as int) == regions@);
    out.append(
        if !first {
            "\n      "
        } else {
            ""
        },
    );
    out.append("]\n");
    out
}

/// A temperature in degrees Celsius, or a word where there is none.
pub open spec fn celsius_or(centi: i32, missing: Seq<char>) -> Seq<char> {
    if centi == UNKNOWN_TEMPERATURE_CENTI {
        missing
    } else {
        celsius_text(centi as int)
    }
}

/// A temperature in degrees Fahrenheit, or a word where there is none.
pub open spec fn fahrenheit_or(centi: i32, missing: Seq<char>) -> Seq<char> {
    if centi == UNKNOWN_TEMPERATURE_CENTI {
        missing
    } else {
        fahrenheit_text(centi as int)
    }
}

fn celsius_or_str(centi: i32, missing: &str) -> (r: String)
    ensures
        r@ == celsius_or(centi, missing@),
{
    if centi == UNKNOWN_TEMPERATURE_CENTI {
        missing.to_owned()
    } else {
        celsius(centi)
    }
}

fn fahrenheit_or_str(centi: i32, missing: &str) -> (r: String)
    ensures
        r@ == fahrenheit_or(centi, missing@),
{
    if centi == UNKNOWN_TEMPERATURE_CENTI {
        missing.to_owned()
    } else {
        fahrenheit(centi)
    }
}

/// The device's address, or what stands in for it.
pub open spec fn address_text(s: MetricsSnapshot) -> Seq<char> {
    if s.ip_valid {
        ipv4_text(s.ip_octets@)
    } else {
        match NetState::of_code(s.net_state_code) {
            NetState::LinkDown => "Error(link_down)"@,
            NetState::DhcpPending => "Error(dhcp_pending)"@,
            _ => "Error"@,
        }
    }
}

fn address_str(s: &MetricsSnapshot) -> (r: String)
    ensures
        r@ == address_text(*s),
{
    if s.ip_valid {
        fmt_ip(s.ip_octets)
    } else {
        match NetState::from_u8(s.net_state_code) {
            NetState::LinkDown => "Error(link_down)".to_owned(),
            NetState::DhcpPending => "Error(dhcp_pending)".to_owned(),
            _ => "Error".to_owned(),
        }
    }
}

/// The sensor part of the JSON document.
pub open spec fn sensor_json(hostname: Seq<char>, s: MetricsSnapshot) -> Seq<char> {
    "{\n  \"device\": \""@ + hostname
        + "\",\n  \"sensor\": {\n    \"ds18b20\": {\n      \"name\": \""@ + string32(s.probe_name)
        + "\",\n      \"temperature_c\": "@ + celsius_or(s.temp_centi, "null"@)
        + ",\n      \"temperature_f\": "@ + fahrenheit_or(s.temp_centi, "null"@)
        + ",\n      \"error\": \""@ + SensorStatus::of_code(s.sensor_status_code).spec_label()
        + "\"\n    }\n  },\n"@
}

fn sensor_json_str(hostname: &str, s: &MetricsSnapshot) -> (r: String)
    ensures
        r@ == sensor_json(hostname@, *s),
{
    let mut out: String = "{\n  \"device\": \"".to_owned();
    out.append(hostname);
    out.append("\",\n  \"sensor\": {\n    \"ds18b20\": {\n      \"name\": \"");
    out.append(string32_str(&s.probe_name));
    out.append("\",\n      \"temperature_c\": ");
    out.append(celsius_or_str(s.temp_centi, "null").as_str());
    out.append(",\n      \"temperature_f\": ");
    out.append(fahrenheit_or_str(s.temp_centi, "null").as_str());
    out.append(",\n      \"error\": \"");
    out.append(sensor_status_label(s.sensor_status_code));
    out.append("\"\n    }\n  },\n");
    out
}

/// The control part of the JSON document: PID, relay and LED.
pub open spec fn control_json(s: MetricsSnapshot, target: TargetText) -> Seq<char> {
    "  \"pid\": {\n    \"target_c\": "@ + target.celsius@ + ",\n    \"target_f\": "@
        + target.fahrenheit@ + ",\n    \"kp\": "@ + fixed_point(false, PID_KP as nat / 100, 2)
        + ",\n    \"ki\": "@ + fixed_point(false, PID_KI as nat / 100, 2) + ",\n    \"kd\": "@
        + fixed_point(false, PID_KD as nat / 100, 2) + ",\n    \"output_percent\": "@ + fixed_point(
        false,
        s.pid_deci as nat,
        1,
    ) + ",\n    \"window_step\": "@ + decimal(s.pid_window_step as nat)
        + ",\n    \"on_steps\": "@ + decimal(s.pid_on_steps as nat) + ",\n    \"relay_on\": "@
        + bool_text(s.relay_on) + "\n  },\n  \"led\": {\n    \"r\": "@ + decimal(
        s.led_red as nat,
    ) + ",\n    \"g\": "@ + decimal(s.led_green as nat) + ",\n    \"b\": "@ + decimal(
        s.led_blue as nat,
    ) + "\n  },\n"@
}

fn control_json_str(s: &MetricsSnapshot, target: &TargetText) -> (r: String)
    ensures
        r@ == control_json(*s, *target),
{
    let mut out: String = "  \"pid\": {\n    \"target_c\": ".to_owned();
    out.append(target.celsius.as_str());
    out.append(",\n    \"target_f\": ");
    out.append(target.fahrenheit.as_str());
    out.append(",\n    \"kp\": ");
    append_fixed(&mut out, false, PID_KP / 100, 2);
    out.append(",\n    \"ki\": ");
    append_fixed(&mut out, false, PID_KI / 100, 2);
    out.append(",\n    \"kd\": ");
    append_fixed(&mut out, false, PID_KD / 100, 2);
    out.append(",\n    \"output_percent\": ");
    append_fixed(&mut out, false, s.pid_deci as u64, 1);
    out.append(",\n    \"window_step\": ");
    append_decimal(&mut out, s.pid_window_step as u64);
    out.append(",\n    \"on_steps\": ");
    append_decimal(&mut out, s.pid_on_steps as u64);
    out.append(",\n    \"relay_on\": ");
    out.append(bool_str(s.relay_on));
    out.append("\n  },\n  \"led\": {\n    \"r\": ");
    append_decimal(&mut out, s.led_red as u64);
    out.append(",\n    \"g\": ");
    append_decimal(&mut out, s.led_green as u64);
    out.append(",\n    \"b\": ");
    append_decimal(&mut out, s.led_blue as u64);
    out.append("\n  },\n");
    out
}

/// A time in ISO 8601 in quotes, or `null`.
pub open spec fn time_or_null(secs: Option<u32>) -> Seq<char> {
    match secs {
        Some(t) => quoted(iso8601_of(t)),
        None => "null"@,
    }
}

fn time_or_null_str(secs: Option<u32>) -> (r: String)
    ensures
        r@ == time_or_null(secs),
{
    match secs {
        Some(t) => quote(unix_to_iso8601(t).as_str()),
        None => "null".to_owned(),
    }
}

/// Text in quotes where a condition holds, `null` otherwise.
pub open spec fn quoted_or_null(condition: bool, s: Seq<char>) -> Seq<char> {
    if condition {
        quoted(s)
    } else {
        "null"@
    }
}

fn quoted_or_null_str(condition: bool, s: &str) -> (r: String)
    ensures
        r@ == quoted_or_null(condition, s@),
{
    if condition {
        quote(s)
    } else {
        "null".to_owned()
    }
}

/// The NTP part of the JSON document.
pub open spec fn ntp_json(s: MetricsSnapshot, peers: Seq<NtpPeerSnapshot>) -> Seq<char> {
    let source = NtpSource::of_code(s.ntp_source_code);
    let master = selected_peer(peers, source, s.master_ip@, 0);
    let sampled = s.ntp_synced && master is Some && master->0.has_sample;
    "    \"ntp\": {\n      \"synced\": "@ + bool_text(s.ntp_synced) + ",\n      \"time\": "@
        + time_or_null(s.current_ntp_time) + ",\n      \"master_address\": "@ + quoted_or_null(
        s.ntp_synced,
        ipv4_text(s.master_ip@),
    ) + ",\n      \"master_source\": "@ + quoted_or_null(s.ntp_synced, source.spec_label())
        + ",\n      \"sync_count\": "@ + decimal(s.ntp_sync_count as nat)
        + ",\n      \"last_sync_uptime_s\": "@ + number_or_null(
        given(s.ntp_synced, s.ntp_uptime_at_sync),
    ) + ",\n      \"master_stratum\": "@ + number_or_null(
        given(sampled, master->0.stratum as u32),
    ) + ",\n      \"master_latency_ms\": "@ + ms_or_null(given(sampled, master->0.latency_us))
        + ",\n      \"master_jitter_ms\": "@ + ms_or_null(given(sampled, master->0.jitter_us))
        + ",\n      \"master_offset_ms\": "@ + signed_ms_or_null(
        if s.ntp_synced && master is Some {
            master->0.offset_us
        } else {
            None
        },
    ) + ",\n      \"master_offset_jitter_ms\": "@ + ms_or_null(
        if s.ntp_synced && master is Some {
            master->0.offset_jitter_us
        } else {
            None
        },
    ) + ",\n      \"master_success_count\": "@ + number_or_null(
        given(s.ntp_synced && master is Some, master->0.success_count),
    ) + ",\n      \"master_fail_count\": "@ + number_or_null(
        given(s.ntp_synced && master is Some, master->0.fail_count),
    ) + ",\n      \"peers\": ["@ + peers_json(peers, source, s.master_ip@)
        + "\n      ]\n    },\n"@
}

/// The selected peer where the clock is synced and there is one.
fn synced_master(s: &MetricsSnapshot, peers: &[NtpPeerSnapshot]) -> (r: Option<NtpPeerSnapshot>)
    ensures
        r == (if s.ntp_synced {
            selected_peer(peers@, NtpSource::of_code(s.ntp_source_code), s.master_ip@, 0)
        } else {
            None
        }),
{
    if s.ntp_synced {
        find_selected_peer(peers, NtpSource::from_u8(s.ntp_source_code), s.master_ip)
    } else {
        None
    }
}

fn ntp_json_str(s: &MetricsSnapshot, peers: &[NtpPeerSnapshot]) -> (r: String)
    ensures
        r@ == ntp_json(*s, peers@),
{
    let source: NtpSource = NtpSource::from_u8(s.ntp_source_code);
    let master: Option<NtpPeerSnapshot> = synced_master(s, peers);
    let mut stratum: Option<u32> = None;
    let mut latency_us: Option<u32> = None;
    let mut jitter_us: Option<u32> = None;
    let mut offset_us: Option<i32> = None;
    let mut offset_jitter_us: Option<u32> = None;
    let mut success_count: Option<u32> = None;
    let mut fail_count: Option<u32> = None;
    if let Some(peer) = master {
        if peer.has_sample {
            stratum = Some(peer.stratum as u32);
            latency_us = Some(peer.latency_us);
            jitter_us = Some(peer.jitter_us);
        }
        offset_us = peer.offset_us;
        offset_jitter_us = peer.offset_jitter_us;
        success_count = Some(peer.success_count);
        fail_count = Some(peer.fail_count);
    }
    let mut out: String = "    \"ntp\": {\n      \"synced\": ".to_owned();
    out.append(bool_str(s.ntp_synced));
    out.append(",\n      \"time\": ");
    out.append(time_or_null_str(s.current_ntp_time).as_str());
    out.append(",\n      \"master_address\": ");
    out.append(quoted_or_null_str(s.ntp_synced, fmt_ip(s.master_ip).as_str()).as_str());
    out.append(",\n      \"master_source\": ");
    out.append(quoted_or_null_str(s.ntp_synced, source.label()).as_str());
    out.append(",\n      \"sync_count\": ");
    append_decimal(&mut out, s.ntp_sync_count as u64);
    out.append(",\n      \"last_sync_uptime_s\": ");
    append_json_optional_u32(
        &mut out,
        if s.ntp_synced {
            Some(s.ntp_uptime_at_sync)
        } else {
            None
        },
    );
    out.append(",\n      \"master_stratum\": ");
    append_json_optional_u32(&mut out, stratum);
    out.append(",\n      \"master_latency_ms\": ");
    append_json_optional_ms3_from_us(&mut out, latency_us);
    out.append(",\n      \"master_jitter_ms\": ");
    append_json_optional_ms3_from_us(&mut out, jitter_us);
    out.append(",\n      \"master_offset_ms\": ");
    append_json_optional_ms3_from_signed_us(&mut out, offset_us);
    out.append(",\n      \"master_offset_jitter_ms\": ");
    append_json_optional_ms3_from_us(&mut out, offset_jitter_us);
    out.append(",\n      \"master_success_count\": ");
    append_json_optional_u32(&mut out, success_count);
    out.append(",\n      \"master_fail_count\": ");
    append_json_optional_u32(&mut out, fail_count);
    out.append(",\n      \"peers\": [");
    out.append(ntp_peers_json(peers, source, s.master_ip).as_str());
    out.append("\n      ]\n    },\n");
    out
}

/// The heap part of the JSON document.
pub open spec fn heap_json(heap: HeapReport) -> Seq<char> {
    "    \"heap_free_bytes\": "@ + decimal(heap.free as nat) + ",\n    \"heap_used_bytes\": "@
        + decimal(heap.used as nat) + ",\n    \"heap\": {\n      \"size_bytes\": "@ + decimal(
        heap.size as nat,
    ) + ",\n      \"current_usage_bytes\": "@ + decimal(heap.current_usage as nat)
        + ",\n      \"max_usage_bytes\": null,\n      \"total_freed_bytes\": null,\n      \"total_allocated_bytes\": null,\n      \"memory_layout\": ["@
        + memory_layout_json(heap.regions@) + "    }\n"@
}

fn heap_json_str(heap: &HeapReport) -> (r: String)
    ensures
        r@ == heap_json(*heap),
{
    let mut out: String = "    \"heap_free_bytes\": ".to_owned();
    append_decimal(&mut out, heap.free as u64);
    out.append(",\n    \"heap_used_bytes\": ");
    append_decimal(&mut out, heap.used as u64);
    out.append(",\n    \"heap\": {\n      \"size_bytes\": ");
    append_decimal(&mut out, heap.size as u64);
    out.append(",\n      \"current_usage_bytes\": ");
    append_decimal(&mut out, heap.current_usage as u64);
    out.append(
        ",\n      \"max_usage_bytes\": null,\n      \"total_freed_bytes\": null,\n      \"total_allocated_bytes\": null,\n      \"memory_layout\": [",
    );
    out.append(heap_layout_json(heap.regions.as_slice()).as_str());
    out.append("    }\n");
    out
}

/// The telemetry part of the JSON document.
pub open spec fn telemetry_json(t: TelemetryReport) -> Seq<char> {
    "  \"telemetry\": {\n    \"packets_sent\": "@ + decimal(t.packets_sent as nat)
        + ",\n    \"packets_failed\": "@ + decimal(t.packets_failed as nat)
        + ",\n    \"server_ip\": "@ + (match t.server_ip {
        Some(ip) => quoted(ipv4_text(ip@)),
        None => "null"@,
    }) + "\n  }\n}\n"@
}

fn telemetry_json_str(t: &TelemetryReport) -> (r: String)
    ensures
        r@ == telemetry_json(*t),
{
    let mut out: String = "  \"telemetry\": {\n    \"packets_sent\": ".to_owned();
    append_decimal(&mut out, t.packets_sent as u64);
    out.append(",\n    \"packets_failed\": ");
    append_decimal(&mut out, t.packets_failed as u64);
    out.append(",\n    \"server_ip\": ");
    match t.server_ip {
        Some(ip) => append_json_quoted_ipv4(&mut out, ip),
        None => out.append("null"),
    }
    out.append("\n  }\n}\n");
    out
}

/// The JSON status document.
pub open spec fn status_json(
    hostname: Seq<char>,
    s: MetricsSnapshot,
    target: TargetText,
    peers: Seq<NtpPeerSnapshot>,
    heap: HeapReport,
    uptime_s: u64,
    telemetry: TelemetryReport,
) -> Seq<char> {
    sensor_json(hostname, s) + control_json(s, target) + "  \"system\": {\n    \"ip\": "@ + quoted(
        address_text(s),
    ) + ",\n    \"collecting\": "@ + bool_text(s.collection_enabled) + ",\n"@ + ntp_json(s, peers)
        + "    \"uptime_s\": "@ + decimal(uptime_s as nat) + ",\n"@ + heap_json(heap) + "  },\n"@
        + telemetry_json(telemetry)
}

/// Writes the device state as JSON.
pub fn json(
    hostname: &str,
    snapshot: &MetricsSnapshot,
    target: &TargetText,
    peers: &[NtpPeerSnapshot],
    heap: &HeapReport,
    uptime_s: u64,
    telemetry: &TelemetryReport,
) -> (r: String)
    ensures
        r@ == status_json(
            hostname@,
            *snapshot,
            *target,
            peers@,
            *heap,
            uptime_s,
            *telemetry,
        ),
{
    let mut out: String = sensor_json_str(hostname, snapshot);
    out.append(control_json_str(snapshot, target).as_str());
    out.append("  \"system\": {\n    \"ip\": ");
    out.append(quote(address_str(snapshot).as_str()).as_str());
    out.append(",\n    \"collecting\": ");
    out.append(bool_str(snapshot.collection_enabled));
    out.append(",\n");
    out.append(ntp_json_str(snapshot, peers).as_str());
    out.append("    \"uptime_s\": ");
    append_decimal(&mut out, uptime_s);
    out.append(",\n");
    out.append(heap_json_str(heap).as_str());
    out.append("  },\n");
    out.append(telemetry_json_str(telemetry).as_str());
    out
}

// ── History ──────────────────────────────────────────────────────────────────

/// A point in the history document.
pub open spec fn point_json(p: HistorySample) -> Seq<char> {
    "\n    ["@ + decimal(p.seq as nat) + ","@ + celsius_text(p.temp_centi as int) + ","@
        + celsius_text(p.target_centi as int) + ","@ + fixed_point(
        false,
        10 * p.output_percent as nat,
        1,
    ) + ","@ + decimal(p.window_step as nat) + ","@ + decimal(p.on_steps as nat) + ","@ + (
    if p.relay_on {
        "1"@
    } else {
        "0"@
    }) + "]"@
}

/// The points in the history document, between commas.
pub open spec fn points_json(points: Seq<HistorySample>) -> Seq<char>
    decreases points.len(),
{
    if points.len() == 0 {
        Seq::empty()
    } else {
        points_json(points.drop_last()) + (if points.len() > 1 {
            ","@
        } else {
            ""@
        }) + point_json(points.last())
    }
}

/// The history document.
pub open spec fn history_document(points: Seq<HistorySample>, total_samples: u32) -> Seq<char> {
    "{\n  \"sample_interval_s\": "@ + decimal(HISTORY_SAMPLE_INTERVAL_SECS as nat)
        + ",\n  \"total_samples\": "@ + decimal(total_samples as nat) + ",\n  \"points\": ["@
        + points_json(points) + "\n  ]\n}\n"@
}

fn point_json_str(p: &HistorySample) -> (r: String)
    ensures
        r@ == point_json(*p),
{
    let mut out: String = "\n    [".to_owned();
    append_decimal(&mut out, p.seq as u64);
    out.append(",");
    out.append(celsius(p.temp_centi as i32).as_str());
    out.append(",");
    out.append(celsius(p.target_centi as i32).as_str());
    out.append(",");
    append_fixed(&mut out, false, 10 * p.output_percent as u64, 1);
    out.append(",");
    append_decimal(&mut out, p.window_step as u64);
    out.append(",");
    append_decimal(&mut out, p.on_steps as u64);
    out.append(",");
    out.append(
        if p.relay_on {
            "1"
        } else {
            "0"
        },
    );
    out.append("]");
    out
}

/// Writes the device history as JSON.
pub fn history_json(points: &[HistorySample], total_samples: u32) -> (r: String)
    ensures
        r@ == history_document(points@, total_samples),
{
    let mut list: String = String::new();
    let mut i: usize = 0;
    assert(points@.take(0) == Seq::<HistorySample>::empty());
    while i < points.len()
        invariant
            i <= points@.len(),
            list@ == points_json(points@.take(i as int)),
        decreases points@.len() - i,
    {
        assert(points@.take(i + 1).drop_last() == points@.take(i as int));
        list.append(
            if i > 0 {
                ","
            } else {
                ""
            },
        );
        list.append(point_json_str(&points[i]).as_str());
        i = i + 1;
    }
    assert(points@.take(i as int) == points@);
    let mut out: String = "{\n  \"sample_interval_s\": ".to_owned();
    append_decimal(&mut out, HISTORY_SAMPLE_INTERVAL_SECS as u64);
    out.append(",\n  \"total_samples\": ");
    append_decimal(&mut out, total_samples as u64);
    out.append(",\n  \"points\": [");
    out.append(list.as_str());
    out.append("\n  ]\n}\n");
    out
}

// ── Text ─────────────────────────────────────────────────────────────────────

/// The target temperature in the status line.
pub open spec fn target_line(target: TargetText) -> Seq<char> {
    " target="@ + target.celsius@ + "C/"@ + target.fahrenheit@ + "F"@
}

/// The output, relay and LED in the status line.
pub open spec fn output_line(s: MetricsSnapshot) -> Seq<char> {
    " pid="@ + fixed_point(false, s.pid_deci as nat, 1) + "% relay="@ + (if s.relay_on {
        "on"@
    } else {
        "off"@
    }) + " led=("@ + decimal(s.led_red as nat) + ", "@ + decimal(s.led_green as nat) + ", "@
        + decimal(s.led_blue as nat) + ")"@
}

/// The status line.
pub open spec fn status_line(
    s: MetricsSnapshot,
    target: TargetText,
    uptime_s: u64,
    heap_free: usize,
) -> Seq<char> {
    let label = SensorStatus::of_code(s.sensor_status_code).spec_label();
    let head = "status: ip="@ + address_text(s) + " probe="@ + string32(s.probe_name);
    let body = if s.temp_centi == UNKNOWN_TEMPERATURE_CENTI {
        head + " sensor="@ + label + target_line(target) + output_line(s)
    } else {
        head + " temp="@ + celsius_text(s.temp_centi as int) + "C/"@ + fahrenheit_text(
            s.temp_centi as int,
        ) + "F"@ + target_line(target) + " sensor="@ + label + output_line(s) + " uptime="@
            + decimal(uptime_s as nat) + "s"@
    };
    body + " heap_free="@ + decimal(heap_free as nat) + "B"@
}

fn target_line_str(target: &TargetText) -> (r: String)
    ensures
        r@ == target_line(*target),
{
    let mut out: String = " target=".to_owned();
    out.append(target.celsius.as_str());
    out.append("C/");
    out.append(target.fahrenheit.as_str());
    out.append("F");
    out
}

fn output_line_str(s: &MetricsSnapshot) -> (r: String)
    ensures
        r@ == output_line(*s),
{
    let mut out: String = " pid=".to_owned();
    append_fixed(&mut out, false, s.pid_deci as u64, 1);
    out.append("% relay=");
    out.append(
        if s.relay_on {
            "on"
        } else {
            "off"
        },
    );
    out.append(" led=(");
    append_decimal(&mut out, s.led_red as u64);
    out.append(", ");
    append_decimal(&mut out, s.led_green as u64);
    out.append(", ");
    append_decimal(&mut out, s.led_blue as u64);
    out.append(")");
    out
}

/// Writes the device state as one line of text.
pub fn text(snapshot: &MetricsSnapshot, target: &TargetText, uptime_s: u64, heap_free: usize) -> (r:
    String)
    ensures
        r@ == status_line(*snapshot, *target, uptime_s, heap_free),
{
    let label: &str = sensor_status_label(snapshot.sensor_status_code);
    let mut out: String = "status: ip=".to_owned();
    out.append(address_str(snapshot).as_str());
    out.append(" probe=");
    out.append(string32_str(&snapshot.probe_name));
    if snapshot.temp_centi == UNKNOWN_TEMPERATURE_CENTI {
        out.append(" sensor=");
        out.append(label);
        out.append(target_line_str(target).as_str());
        out.append(output_line_str(snapshot).as_str());
    } else {
        out.append(" temp=");
        out.append(celsius(snapshot.temp_centi).as_str());
        out.append("C/");
        out.append(fahrenheit(snapshot.temp_centi).as_str());
        out.append("F");
        out.append(target_line_str(target).as_str());
        out.append(" sensor=");
        out.append(label);
        out.append(output_line_str(snapshot).as_str());
        out.append(" uptime=");
        append_decimal(&mut out, uptime_s);
        out.append("s");
    }
    out.append(" heap_free=");
    append_decimal(&mut out, heap_free as u64);
    out.append("B");
    out
}

// ── Prometheus ───────────────────────────────────────────────────────────────

/// The header of a metric family.
pub open spec fn family(name: Seq<char>, help: Seq<char>, kind: Seq<char>) -> Seq<char> {
    "# HELP "@ + name + " "@ + help + "\n# TYPE "@ + name + " "@ + kind + "\n"@
}

/// One sample of a metric.
pub open spec fn sample(name: Seq<char>, value: Seq<char>) -> Seq<char> {
    name + " "@ + value + "\n"@
}

/// A gauge with its one sample.
pub open spec fn gauge(name: Seq<char>, help: Seq<char>, value: Seq<char>) -> Seq<char> {
    family(name, help, "gauge"@) + sample(name, value)
}

/// A gauge with its one sample where there is one.
pub open spec fn gauge_if(name: Seq<char>, help: Seq<char>, value: Option<Seq<char>>) -> Seq<char> {
    family(name, help, "gauge"@) + (match value {
        Some(v) => sample(name, v),
        None => ""@,
    })
}

/// One sample of a metric with labels.
pub open spec fn labelled(name: Seq<char>, labels: Seq<char>, value: Seq<char>) -> Seq<char> {
    name + "{"@ + labels + "} "@ + value + "\n"@
}

/// `1` or `0`.
pub open spec fn flag_text(b: bool) -> Seq<char> {
    if b {
        "1"@
    } else {
        "0"@
    }
}

fn family_str(name: &str, help: &str, kind: &str) -> (r: String)
    ensures
        r@ == family(name@, help@, kind@),
{
    let mut out: String = "# HELP ".to_owned();
    out.append(name);
    out.append(" ");
    out.append(help);
    out.append("\n# TYPE ");
    out.append(name);
    out.append(" ");
    out.append(kind);
    out.append("\n");
    out
}

fn sample_str(name: &str, value: &str) -> (r: String)
    ensures
        r@ == sample(name@, value@),
{
    let mut out: String = name.to_owned();
    out.append(" ");
    out.append(value);
    out.append("\n");
    out
}

fn gauge_str(name: &str, help: &str, value: &str) -> (r: String)
    ensures
        r@ == gauge(name@, help@, value@),
{
    let mut out: String = family_str(name, help, "gauge");
    out.append(sample_str(name, value).as_str());
    out
}

/// The text of an optional string.
pub open spec fn opt_text(value: Option<String>) -> Option<Seq<char>> {
    match value {
        Some(v) => Some(v@),
        None => None,
    }
}

fn gauge_if_str(name: &str, help: &str, value: Option<String>) -> (r: String)
    ensures
        r@ == gauge_if(name@, help@, opt_text(value)),
{
    let mut out: String = family_str(name, help, "gauge");
    match value {
        Some(v) => out.append(sample_str(name, v.as_str()).as_str()),
        None => out.append(""),
    }
    out
}

fn labelled_str(name: &str, labels: &str, value: &str) -> (r: String)
    ensures
        r@ == labelled(name@, labels@, value@),
{
    let mut out: String = name.to_owned();
    out.append("{");
    out.append(labels);
    out.append("} ");
    out.append(value);
    out.append("\n");
    out
}

fn flag_str(b: bool) -> (r: &'static str)
    ensures
        r@ == flag_text(b),
{
    if b {
        "1"
    } else {
        "0"
    }
}

/// Microseconds in seconds with six decimal places.
pub open spec fn seconds_text(us: int) -> Seq<char> {
    fixed_point(us < 0, magnitude(us), 6)
}

/// Microseconds in milliseconds with three decimal places.
pub open spec fn millis_text(us: int) -> Seq<char> {
    fixed_point(us < 0, magnitude(us), 3)
}

fn seconds_str(us: i64) -> (r: String)
    requires
        us > i64::MIN,
    ensures
        r@ == seconds_text(us as int),
{
    signed_fixed(us, 6)
}

fn millis_str(us: i64) -> (r: String)
    requires
        us > i64::MIN,
    ensures
        r@ == millis_text(us as int),
{
    signed_fixed(us, 3)
}

/// The labels of a heap region.
pub open spec fn region_labels(index: nat, kind: RegionKind) -> Seq<char> {
    "region=\""@ + decimal(index) + "\",type=\""@ + region_label(kind) + "\""@
}

fn region_labels_str(index: usize, kind: RegionKind) -> (r: String)
    ensures
        r@ == region_labels(index as nat, kind),
{
    let mut out: String = "region=\"".to_owned();
    append_decimal(&mut out, index as u64);
    out.append("\",type=\"");
    out.append(region_str(kind));
    out.append("\"");
    out
}

/// The samples of one heap region.
pub open spec fn region_sample(index: nat, region: HeapRegion) -> Seq<char> {
    let labels = region_labels(index, region.kind);
    labelled("brewster_heap_region_size_bytes"@, labels, decimal(region.size as nat)) + labelled(
        "brewster_heap_region_used_bytes"@,
        labels,
        decimal(region.used as nat),
    ) + labelled("brewster_heap_region_free_bytes"@, labels, decimal(region.free as nat))
        + labelled(
        "brewster_heap_region_used_percent"@,
        labels,
        decimal(used_percent(region) as nat),
    )
}

fn region_sample_str(index: usize, region: HeapRegion) -> (r: String)
    ensures
        r@ == region_sample(index as nat, region),
{
    let labels: String = region_labels_str(index, region.kind);
    let percent: usize = region_used_percent(region);
    let mut out: String = labelled_str(
        "brewster_heap_region_size_bytes",
        labels.as_str(),
        number(region.size as u64).as_str(),
    );
    out.append(
        labelled_str(
            "brewster_heap_region_used_bytes",
            labels.as_str(),
            number(region.used as u64).as_str(),
        ).as_str(),
    );
    out.append(
        labelled_str(
            "brewster_heap_region_free_bytes",
            labels.as_str(),
            number(region.free as u64).as_str(),
        ).as_str(),
    );
    out.append(
        labelled_str(
            "brewster_heap_region_used_percent",
            labels.as_str(),
            number(percent as u64).as_str(),
        ).as_str(),
    );
    out
}

/// The samples of the heap regions, each under its place in the list.
pub open spec fn region_samples(regions: Seq<Option<HeapRegion>>) -> Seq<char>
    decreases regions.len(),
{
    if regions.len() == 0 {
        Seq::empty()
    } else {
        let before = region_samples(regions.drop_last());
        match regions.last() {
            Some(region) => before + region_sample((regions.len() - 1) as nat, region),
            None => before,
        }
    }
}

fn region_samples_str(regions: &[Option<HeapRegion>]) -> (r: String)
    ensures
        r@ == region_samples(regions@),
{
    let mut out: String = String::new();
    let mut i: usize = 0;
    assert(regions@.take(0) == Seq::<Option<HeapRegion>>::empty());
    while i < regions.len()
        invariant
            i <= regions@.len(),
            out@ == region_samples(regions@.take(i as int)),
        decreases regions@.len() - i,
    {
        assert(regions@.take(i + 1).drop_last() == regions@.take(i as int));
        if let Some(region) = regions[i] {
            out.append(region_sample_str(i, region).as_str());
        }
        i = i + 1;
    }
    assert(regions@.take(i as int) == regions@);
    out
}

/// The uptime and heap metrics.
pub open spec fn system_metrics(heap: HeapReport, uptime_s: u64) -> Seq<char> {
    gauge("brewster_up"@, "Firmware heartbeat metric."@, "1"@)
        + gauge("brewster_uptime_seconds"@, "Device uptime in seconds."@, decimal(uptime_s as nat))
        + gauge("brewster_heap_free_bytes"@, "Free heap in bytes."@, decimal(heap.free as nat))
        + gauge("brewster_heap_used_bytes"@, "Used heap in bytes."@, decimal(heap.used as nat))
        + gauge("brewster_heap_size_bytes"@, "Total configured heap size in bytes."@, decimal(heap.size as nat))
        + gauge("brewster_heap_current_usage_bytes"@, "Current heap usage in bytes (aggregated)."@, decimal(heap.current_usage as nat))
        + gauge("brewster_heap_max_usage_bytes"@, "Peak heap usage in bytes (NaN if unavailable)."@, "NaN"@)
        + gauge("brewster_heap_total_freed_bytes"@, "Total freed heap bytes since boot (NaN if unavailable)."@, "NaN"@)
        + gauge("brewster_heap_total_allocated_bytes"@, "Total allocated heap bytes since boot (NaN if unavailable)."@, "NaN"@)
        + family("brewster_heap_region_size_bytes"@, "Heap region size in bytes."@, "gauge"@)
        + family("brewster_heap_region_used_bytes"@, "Heap region used bytes."@, "gauge"@)
        + family("brewster_heap_region_free_bytes"@, "Heap region free bytes."@, "gauge"@)
        + family("brewster_heap_region_used_percent"@, "Heap region used percent."@, "gauge"@)
        + region_samples(heap.regions@)
}

fn system_metrics_str(heap: &HeapReport, uptime_s: u64) -> (r: String)
    ensures
        r@ == system_metrics(*heap, uptime_s),
{
    let mut out: String = gauge_str("brewster_up", "Firmware heartbeat metric.", "1");
    out.append(gauge_str("brewster_uptime_seconds", "Device uptime in seconds.", number(uptime_s).as_str()).as_str());
    out.append(gauge_str("brewster_heap_free_bytes", "Free heap in bytes.", number(heap.free as u64).as_str()).as_str());
    out.append(gauge_str("brewster_heap_used_bytes", "Used heap in bytes.", number(heap.used as u64).as_str()).as_str());
    out.append(gauge_str("brewster_heap_size_bytes", "Total configured heap size in bytes.", number(heap.size as u64).as_str()).as_str());
    out.append(gauge_str("brewster_heap_current_usage_bytes", "Current heap usage in bytes (aggregated).", number(heap.current_usage as u64).as_str()).as_str());
    out.append(gauge_str("brewster_heap_max_usage_bytes", "Peak heap usage in bytes (NaN if unavailable).", "NaN").as_str());
    out.append(gauge_str("brewster_heap_total_freed_bytes", "Total freed heap bytes since boot (NaN if unavailable).", "NaN").as_str());
    out.append(gauge_str("brewster_heap_total_allocated_bytes", "Total allocated heap bytes since boot (NaN if unavailable).", "NaN").as_str());
    out.append(family_str("brewster_heap_region_size_bytes", "Heap region size in bytes.", "gauge").as_str());
    out.append(family_str("brewster_heap_region_used_bytes", "Heap region used bytes.", "gauge").as_str());
    out.append(family_str("brewster_heap_region_free_bytes", "Heap region free bytes.", "gauge").as_str());
    out.append(family_str("brewster_heap_region_used_percent", "Heap region used percent.", "gauge").as_str());
    out.append(region_samples_str(heap.regions.as_slice()).as_str());
    out
}

/// The sensor and control metrics.
pub open spec fn control_metrics(s: PrometheusSnapshot) -> Seq<char> {
    gauge("brewster_sensor_temperature_valid"@, "1 when a valid sensor reading is present."@, flag_text(s.temp_centi != UNKNOWN_TEMPERATURE_CENTI))
        + family("brewster_sensor_info"@, "Sensor metadata including configured probe name."@, "gauge"@)
        + labelled("brewster_sensor_info"@, "name=\""@ + string32(s.probe_name) + "\""@, "1"@)
        + gauge("brewster_sensor_temperature_celsius"@, "Sensor temperature in Celsius."@, celsius_or(s.temp_centi, "NaN"@))
        + gauge("brewster_sensor_temperature_fahrenheit"@, "Sensor temperature in Fahrenheit."@, fahrenheit_or(s.temp_centi, "NaN"@))
        + gauge("brewster_temperature_c"@, "Alias for sensor temperature in Celsius."@, celsius_or(s.temp_centi, "NaN"@))
        + gauge("brewster_temperature_f"@, "Alias for sensor temperature in Fahrenheit."@, fahrenheit_or(s.temp_centi, "NaN"@))
        + gauge("brewster_pid_target_celsius"@, "PID target setpoint in Celsius."@, celsius_text(s.target_centi as int))
        + gauge("brewster_pid_target_fahrenheit"@, "PID target setpoint in Fahrenheit."@, fahrenheit_text(s.target_centi as int))
        + gauge("brewster_target_temperature_c"@, "Alias for PID target in Celsius."@, celsius_text(s.target_centi as int))
        + gauge("brewster_target_temperature_f"@, "Alias for PID target in Fahrenheit."@, fahrenheit_text(s.target_centi as int))
        + gauge("brewster_pid_kp"@, "PID proportional gain."@, fixed_point(false, PID_KP as nat, 4))
        + gauge("brewster_pid_ki"@, "PID integral gain."@, fixed_point(false, PID_KI as nat, 4))
        + gauge("brewster_pid_kd"@, "PID derivative gain."@, fixed_point(false, PID_KD as nat, 4))
        + gauge("brewster_pid_output_percent"@, "PID output duty cycle percent."@, fixed_point(false, s.pid_deci as nat, 1))
        + gauge("brewster_pid_window_step"@, "Current PID window step index."@, decimal(s.pid_window_step as nat))
        + gauge("brewster_pid_on_steps"@, "Current PID on-steps in window."@, decimal(s.pid_on_steps as nat))
        + gauge("brewster_relay_on"@, "1 when heater relay is on."@, flag_text(s.relay_on))
}

fn control_metrics_str(s: &PrometheusSnapshot) -> (r: String)
    ensures
        r@ == control_metrics(*s),
{
    let mut probe_label: String = "name=\"".to_owned();
    probe_label.append(string32_str(&s.probe_name));
    probe_label.append("\"");
    let mut out: String = gauge_str("brewster_sensor_temperature_valid", "1 when a valid sensor reading is present.", flag_str(s.temp_centi != UNKNOWN_TEMPERATURE_CENTI));
    out.append(family_str("brewster_sensor_info", "Sensor metadata including configured probe name.", "gauge").as_str());
    out.append(labelled_str("brewster_sensor_info", probe_label.as_str(), "1").as_str());
    out.append(gauge_str("brewster_sensor_temperature_celsius", "Sensor temperature in Celsius.", celsius_or_str(s.temp_centi, "NaN").as_str()).as_str());
    out.append(gauge_str("brewster_sensor_temperature_fahrenheit", "Sensor temperature in Fahrenheit.", fahrenheit_or_str(s.temp_centi, "NaN").as_str()).as_str());
    out.append(gauge_str("brewster_temperature_c", "Alias for sensor temperature in Celsius.", celsius_or_str(s.temp_centi, "NaN").as_str()).as_str());
    out.append(gauge_str("brewster_temperature_f", "Alias for sensor temperature in Fahrenheit.", fahrenheit_or_str(s.temp_centi, "NaN").as_str()).as_str());
    out.append(gauge_str("brewster_pid_target_celsius", "PID target setpoint in Celsius.", celsius(s.target_centi).as_str()).as_str());
    out.append(gauge_str("brewster_pid_target_fahrenheit", "PID target setpoint in Fahrenheit.", fahrenheit(s.target_centi).as_str()).as_str());
    out.append(gauge_str("brewster_target_temperature_c", "Alias for PID target in Celsius.", celsius(s.target_centi).as_str()).as_str());
    out.append(gauge_str("brewster_target_temperature_f", "Alias for PID target in Fahrenheit.", fahrenheit(s.target_centi).as_str()).as_str());
    out.append(gauge_str("brewster_pid_kp", "PID proportional gain.", fixed(false, PID_KP, 4).as_str()).as_str());
    out.append(gauge_str("brewster_pid_ki", "PID integral gain.", fixed(false, PID_KI, 4).as_str()).as_str());
    out.append(gauge_str("brewster_pid_kd", "PID derivative gain.", fixed(false, PID_KD, 4).as_str()).as_str());
    out.append(gauge_str("brewster_pid_output_percent", "PID output duty cycle percent.", fixed(false, s.pid_deci as u64, 1).as_str()).as_str());
    out.append(gauge_str("brewster_pid_window_step", "Current PID window step index.", number(s.pid_window_step as u64).as_str()).as_str());
    out.append(gauge_str("brewster_pid_on_steps", "Current PID on-steps in window.", number(s.pid_on_steps as u64).as_str()).as_str());
    out.append(gauge_str("brewster_relay_on", "1 when heater relay is on.", flag_str(s.relay_on)).as_str());
    out
}

/// The identity of the NTP master, once there is one.
pub open spec fn master_info(s: PrometheusSnapshot) -> Seq<char> {
    if s.ntp_synced {
        labelled(
            "brewster_ntp_master_info"@,
            "source=\""@ + NtpSource::of_code(s.ntp_source_code).spec_label() + "\",address=\""@
                + ipv4_text(s.master_ip@) + "\""@,
            "1"@,
        )
    } else {
        ""@
    }
}

fn master_info_str(s: &PrometheusSnapshot) -> (r: String)
    ensures
        r@ == master_info(*s),
{
    if s.ntp_synced {
        let mut labels: String = "source=\"".to_owned();
        labels.append(NtpSource::from_u8(s.ntp_source_code).label());
        labels.append("\",address=\"");
        labels.append(fmt_ip(s.master_ip).as_str());
        labels.append("\"");
        labelled_str("brewster_ntp_master_info", labels.as_str(), "1")
    } else {
        "".to_owned()
    }
}

/// The NTP metrics of the device and its master.
pub open spec fn ntp_metrics(s: PrometheusSnapshot, peers: Seq<NtpPeerSnapshot>) -> Seq<char> {
    let master = selected_peer(peers, NtpSource::of_code(s.ntp_source_code), s.master_ip@, 0);
    let sampled = s.ntp_synced && master is Some && master->0.has_sample;
    gauge("brewster_ntp_synced"@, "1 when NTP time is currently synchronized."@, flag_text(s.ntp_synced))
        + family("brewster_ntp_sync_total"@, "Number of successful NTP sync events."@, "counter"@)
        + sample("brewster_ntp_sync_total"@, decimal(s.ntp_sync_count as nat))
        + gauge_if("brewster_ntp_last_sync_uptime_seconds"@, "Uptime in seconds when the current NTP anchor was recorded."@, given(s.ntp_synced, decimal(s.ntp_uptime_at_sync as nat)))
        + family("brewster_ntp_master_info"@, "Selected NTP master identity."@, "gauge"@)
        + master_info(s)
        + gauge_if("brewster_ntp_master_stratum"@, "Current selected NTP stratum."@, given(sampled, decimal(master->0.stratum as nat)))
        + gauge_if("brewster_ntp_master_latency_seconds"@, "Current selected NTP RTT estimate in seconds."@, given(sampled, seconds_text(master->0.latency_us as int)))
        + gauge_if("brewster_ntp_master_latency_ms"@, "Current selected NTP RTT estimate in milliseconds."@, given(sampled, millis_text(master->0.latency_us as int)))
        + gauge_if("brewster_ntp_master_jitter_seconds"@, "Current selected NTP jitter estimate in seconds."@, given(sampled, seconds_text(master->0.jitter_us as int)))
        + gauge_if("brewster_ntp_master_jitter_ms"@, "Current selected NTP jitter estimate in milliseconds."@, given(sampled, millis_text(master->0.jitter_us as int)))
        + gauge_if("brewster_ntp_master_offset_seconds"@, "Current selected NTP offset in seconds."@, given(master is Some && master->0.offset_us is Some, seconds_text(master->0.offset_us->0 as int)))
        + gauge_if("brewster_ntp_master_offset_ms"@, "Current selected NTP offset in milliseconds."@, given(master is Some && master->0.offset_us is Some, millis_text(master->0.offset_us->0 as int)))
        + gauge_if("brewster_ntp_master_offset_jitter_seconds"@, "Current selected NTP offset jitter in seconds."@, given(master is Some && master->0.offset_jitter_us is Some, seconds_text(master->0.offset_jitter_us->0 as int)))
        + gauge_if("brewster_ntp_master_offset_jitter_ms"@, "Current selected NTP offset jitter in milliseconds."@, given(master is Some && master->0.offset_jitter_us is Some, millis_text(master->0.offset_jitter_us->0 as int)))
        + gauge_if("brewster_ntp_master_success_total"@, "Success count for the currently selected NTP master peer."@, given(master is Some, decimal(master->0.success_count as nat)))
        + gauge_if("brewster_ntp_master_fail_total"@, "Failure count for the currently selected NTP master peer."@, given(master is Some, decimal(master->0.fail_count as nat)))
}

fn ntp_metrics_str(s: &PrometheusSnapshot, peers: &[NtpPeerSnapshot]) -> (r: String)
    ensures
        r@ == ntp_metrics(*s, peers@),
{
    let master: Option<NtpPeerSnapshot> = find_selected_peer(
        peers,
        NtpSource::from_u8(s.ntp_source_code),
        s.master_ip,
    );
    let mut sampled: Option<NtpPeerSnapshot> = None;
    let mut offset_us: Option<i32> = None;
    let mut offset_jitter_us: Option<u32> = None;
    if let Some(peer) = master {
        if s.ntp_synced && peer.has_sample {
            sampled = Some(peer);
        }
        offset_us = peer.offset_us;
        offset_jitter_us = peer.offset_jitter_us;
    }
    let mut out: String = gauge_str("brewster_ntp_synced", "1 when NTP time is currently synchronized.", flag_str(s.ntp_synced));
    out.append(family_str("brewster_ntp_sync_total", "Number of successful NTP sync events.", "counter").as_str());
    out.append(sample_str("brewster_ntp_sync_total", number(s.ntp_sync_count as u64).as_str()).as_str());
    out.append(gauge_if_str("brewster_ntp_last_sync_uptime_seconds", "Uptime in seconds when the current NTP anchor was recorded.", if s.ntp_synced { Some(number(s.ntp_uptime_at_sync as u64)) } else { None }).as_str());
    out.append(family_str("brewster_ntp_master_info", "Selected NTP master identity.", "gauge").as_str());
    out.append(master_info_str(s).as_str());
    out.append(gauge_if_str("brewster_ntp_master_stratum", "Current selected NTP stratum.", match sampled { Some(p) => Some(number(p.stratum as u64)), None => None }).as_str());
    out.append(gauge_if_str("brewster_ntp_master_latency_seconds", "Current selected NTP RTT estimate in seconds.", match sampled { Some(p) => Some(seconds_str(p.latency_us as i64)), None => None }).as_str());
    out.append(gauge_if_str("brewster_ntp_master_latency_ms", "Current selected NTP RTT estimate in milliseconds.", match sampled { Some(p) => Some(millis_str(p.latency_us as i64)), None => None }).as_str());
    out.append(gauge_if_str("brewster_ntp_master_jitter_seconds", "Current selected NTP jitter estimate in seconds.", match sampled { Some(p) => Some(seconds_str(p.jitter_us as i64)), None => None }).as_str());
    out.append(gauge_if_str("brewster_ntp_master_jitter_ms", "Current selected NTP jitter estimate in milliseconds.", match sampled { Some(p) => Some(millis_str(p.jitter_us as i64)), None => None }).as_str());
    out.append(gauge_if_str("brewster_ntp_master_offset_seconds", "Current selected NTP offset in seconds.", match offset_us { Some(v) => Some(seconds_str(v as i64)), None => None }).as_str());
    out.append(gauge_if_str("brewster_ntp_master_offset_ms", "Current selected NTP offset in milliseconds.", match offset_us { Some(v) => Some(millis_str(v as i64)), None => None }).as_str());
    out.append(gauge_if_str("brewster_ntp_master_offset_jitter_seconds", "Current selected NTP offset jitter in seconds.", match offset_jitter_us { Some(v) => Some(seconds_str(v as i64)), None => None }).as_str());
    out.append(gauge_if_str("brewster_ntp_master_offset_jitter_ms", "Current selected NTP offset jitter in milliseconds.", match offset_jitter_us { Some(v) => Some(millis_str(v as i64)), None => None }).as_str());
    out.append(gauge_if_str("brewster_ntp_master_success_total", "Success count for the currently selected NTP master peer.", match master { Some(p) => Some(number(p.success_count as u64)), None => None }).as_str());
    out.append(gauge_if_str("brewster_ntp_master_fail_total", "Failure count for the currently selected NTP master peer.", match master { Some(p) => Some(number(p.fail_count as u64)), None => None }).as_str());
    out
}

/// The labels of an NTP peer.
pub open spec fn peer_labels(peer: NtpPeerSnapshot, selected: bool) -> Seq<char> {
    "source=\""@ + peer.source.spec_label() + "\",address=\""@ + ipv4_text(peer.address@)
        + "\",selected=\""@ + bool_text(selected) + "\""@
}

fn peer_labels_str(peer: &NtpPeerSnapshot, selected: bool) -> (r: String)
    ensures
        r@ == peer_labels(*peer, selected),
{
    let mut out: String = "source=\"".to_owned();
    out.append(peer.source.label());
    out.append("\",address=\"");
    write_ipv4(&mut out, peer.address);
    out.append("\",selected=\"");
    out.append(bool_str(selected));
    out.append("\"");
    out
}

/// A sample with labels where there is a value.
pub open spec fn labelled_if(
    name: Seq<char>,
    labels: Seq<char>,
    value: Option<Seq<char>>,
) -> Seq<char> {
    match value {
        Some(v) => labelled(name, labels, v),
        None => ""@,
    }
}

fn labelled_if_str(name: &str, labels: &str, value: Option<String>) -> (r: String)
    ensures
        r@ == labelled_if(name@, labels@, opt_text(value)),
{
    match value {
        Some(v) => labelled_str(name, labels, v.as_str()),
        None => "".to_owned(),
    }
}

/// The samples of one NTP peer.
pub open spec fn peer_sample(peer: NtpPeerSnapshot, selected: bool) -> Seq<char> {
    let labels = peer_labels(peer, selected);
    labelled("brewster_ntp_peer_success_total"@, labels, decimal(peer.success_count as nat))
        + labelled("brewster_ntp_peer_fail_total"@, labels, decimal(peer.fail_count as nat))
        + labelled_if("brewster_ntp_peer_jitter_seconds"@, labels, given(peer.has_sample, seconds_text(peer.jitter_us as int)))
        + labelled_if("brewster_ntp_peer_last_sync_uptime_seconds"@, labels, given(peer.has_sample, decimal(peer.last_sync_uptime_s as nat)))
        + labelled_if("brewster_ntp_peer_latency_seconds"@, labels, given(peer.has_sample, seconds_text(peer.latency_us as int)))
        + labelled_if("brewster_ntp_peer_offset_seconds"@, labels, given(peer.offset_us is Some, seconds_text(peer.offset_us->0 as int)))
        + labelled_if("brewster_ntp_peer_offset_jitter_seconds"@, labels, given(peer.offset_jitter_us is Some, seconds_text(peer.offset_jitter_us->0 as int)))
}

fn peer_sample_str(peer: &NtpPeerSnapshot, selected: bool) -> (r: String)
    ensures
        r@ == peer_sample(*peer, selected),
{
    let labels: String = peer_labels_str(peer, selected);
    let mut out: String = labelled_str("brewster_ntp_peer_success_total", labels.as_str(), number(peer.success_count as u64).as_str());
    out.append(labelled_str("brewster_ntp_peer_fail_total", labels.as_str(), number(peer.fail_count as u64).as_str()).as_str());
    out.append(labelled_if_str("brewster_ntp_peer_jitter_seconds", labels.as_str(), if peer.has_sample { Some(seconds_str(peer.jitter_us as i64)) } else { None }).as_str());
    out.append(labelled_if_str("brewster_ntp_peer_last_sync_uptime_seconds", labels.as_str(), if peer.has_sample { Some(number(peer.last_sync_uptime_s as u64)) } else { None }).as_str());
    out.append(labelled_if_str("brewster_ntp_peer_latency_seconds", labels.as_str(), if peer.has_sample { Some(seconds_str(peer.latency_us as i64)) } else { None }).as_str());
    out.append(labelled_if_str("brewster_ntp_peer_offset_seconds", labels.as_str(), match peer.offset_us { Some(v) => Some(seconds_str(v as i64)), None => None }).as_str());
    out.append(labelled_if_str("brewster_ntp_peer_offset_jitter_seconds", labels.as_str(), match peer.offset_jitter_us { Some(v) => Some(seconds_str(v as i64)), None => None }).as_str());
    out
}

/// The samples of the NTP peers.
pub open spec fn peer_samples(
    peers: Seq<NtpPeerSnapshot>,
    source: NtpSource,
    address: Seq<u8>,
) -> Seq<char>
    decreases peers.len(),
{
    if peers.len() == 0 {
        Seq::empty()
    } else {
        peer_samples(peers.drop_last(), source, address) + peer_sample(
            peers.last(),
            is_selected(peers.last(), source, address),
        )
    }
}

fn peer_samples_str(peers: &[NtpPeerSnapshot], source: NtpSource, address: [u8; 4]) -> (r: String)
    ensures
        r@ == peer_samples(peers@, source, address@),
{
    let mut out: String = String::new();
    let mut i: usize = 0;
    assert(peers@.take(0) == Seq::<NtpPeerSnapshot>::empty());
    while i < peers.len()
        invariant
            i <= peers@.len(),
            out@ == peer_samples(peers@.take(i as int), source, address@),
        decreases peers@.len() - i,
    {
        assert(peers@.take(i + 1).drop_last() == peers@.take(i as int));
        let selected: bool = peer_is_selected(&peers[i], source, address);
        out.append(peer_sample_str(&peers[i], selected).as_str());
        i = i + 1;
    }
    assert(peers@.take(i as int) == peers@);
    out
}

/// The metrics of all NTP peers.
pub open spec fn peer_metrics(peers: Seq<NtpPeerSnapshot>, source: NtpSource, address: Seq<u8>) -> Seq<char> {
    family("brewster_ntp_peer_success_total"@, "NTP successes per peer."@, "counter"@)
        + family("brewster_ntp_peer_fail_total"@, "NTP failures per peer."@, "counter"@)
        + family("brewster_ntp_peer_latency_seconds"@, "Latest latency per peer in seconds."@, "gauge"@)
        + family("brewster_ntp_peer_jitter_seconds"@, "Latest latency jitter per peer in seconds."@, "gauge"@)
        + family("brewster_ntp_peer_offset_seconds"@, "Latest offset per peer in seconds."@, "gauge"@)
        + family("brewster_ntp_peer_offset_jitter_seconds"@, "Latest offset jitter per peer in seconds."@, "gauge"@)
        + family("brewster_ntp_peer_last_sync_uptime_seconds"@, "Uptime in seconds of the latest successful sync per peer."@, "gauge"@)
        + peer_samples(peers, source, address)
}

fn peer_metrics_str(peers: &[NtpPeerSnapshot], source: NtpSource, address: [u8; 4]) -> (r: String)
    ensures
        r@ == peer_metrics(peers@, source, address@),
{
    let mut out: String = family_str("brewster_ntp_peer_success_total", "NTP successes per peer.", "counter");
    out.append(family_str("brewster_ntp_peer_fail_total", "NTP failures per peer.", "counter").as_str());
    out.append(family_str("brewster_ntp_peer_latency_seconds", "Latest latency per peer in seconds.", "gauge").as_str());
    out.append(family_str("brewster_ntp_peer_jitter_seconds", "Latest latency jitter per peer in seconds.", "gauge").as_str());
    out.append(family_str("brewster_ntp_peer_offset_seconds", "Latest offset per peer in seconds.", "gauge").as_str());
    out.append(family_str("brewster_ntp_peer_offset_jitter_seconds", "Latest offset jitter per peer in seconds.", "gauge").as_str());
    out.append(family_str("brewster_ntp_peer_last_sync_uptime_seconds", "Uptime in seconds of the latest successful sync per peer.", "gauge").as_str());
    out.append(peer_samples_str(peers, source, address).as_str());
    out
}

/// A text with every occurrence of `from`, taken from left to right, replaced
/// by `to`.
pub open spec fn replaced(s: Seq<char>, from: Seq<char>, to: Seq<char>) -> Seq<char>
    decreases s.len(),
{
    match find(s, from) {
        Some(i) => if from.len() > 0 && 0 <= i && i + from.len() <= s.len() {
            s.take(i) + to + replaced(s.skip(i + from.len()), from, to)
        } else {
            s
        },
        None => s,
    }
}

/// Replaces every occurrence of `from`, taken from left to right, by `to`.
pub fn replace(s: &[char], from: &[char], to: &[char]) -> (r: String)
    requires
        from@.len() > 0,
    ensures
        r@ == replaced(s@, from@, to@),
{
    let mut out: String = String::new();
    let mut rest: &[char] = s;
    assert(out@ + replaced(rest@, from@, to@) == replaced(s@, from@, to@));
    loop
        invariant
            from@.len() > 0,
            out@ + replaced(rest@, from@, to@) == replaced(s@, from@, to@),
        decreases rest@.len(),
    {
        match find_chars(rest, from) {
            Some(i) => {
                let n: usize = rest.len();
                let head: &[char] = slice_subrange(rest, 0, i);
                let tail: &[char] = slice_subrange(rest, i + from.len(), n);
                assert(head@ == rest@.take(i as int));
                assert(tail@ == rest@.skip(i + from@.len()));
                assert(out@ + (head@ + to@ + replaced(tail@, from@, to@)) == out@ + head@ + to@
                    + replaced(tail@, from@, to@));
                append_chars(&mut out, head);
                append_chars(&mut out, to);
                rest = tail;
            },
            None => {
                append_chars(&mut out, rest);
                return out;
            },
        }
    }
}

/// Replacing a text by itself changes nothing.
pub proof fn replaced_by_itself(s: Seq<char>, from: Seq<char>)
    ensures
        replaced(s, from, from) == s,
    decreases s.len(),
{
    find_from_bounds(s, from, 0);
    if let Some(i) = find(s, from) {
        if from.len() > 0 {
            replaced_by_itself(s.skip(i + from.len()), from);
            assert(s.take(i) + from + s.skip(i + from.len()) =~= s);
        }
    }
}

/// The Prometheus document before the metrics are named after the device.
pub open spec fn exposition(
    s: PrometheusSnapshot,
    peers: Seq<NtpPeerSnapshot>,
    heap: HeapReport,
    uptime_s: u64,
) -> Seq<char> {
    system_metrics(heap, uptime_s) + control_metrics(s) + ntp_metrics(s, peers) + peer_metrics(
        peers,
        NtpSource::of_code(s.ntp_source_code),
        s.master_ip@,
    )
}

fn exposition_str(
    s: &PrometheusSnapshot,
    peers: &[NtpPeerSnapshot],
    heap: &HeapReport,
    uptime_s: u64,
) -> (r: String)
    ensures
        r@ == exposition(*s, peers@, *heap, uptime_s),
{
    let source: NtpSource = NtpSource::from_u8(s.ntp_source_code);
    let mut out: String = system_metrics_str(heap, uptime_s);
    out.append(control_metrics_str(s).as_str());
    out.append(ntp_metrics_str(s, peers).as_str());
    out.append(peer_metrics_str(peers, source, s.master_ip).as_str());
    out
}

/// Names the metrics of a document after the device.
fn named_after(text: &str, hostname: &str) -> (r: String)
    ensures
        r@ == replaced(text@, "brewster_"@, hostname@ + "_"@),
{
    let mut prefix: String = hostname.to_owned();
    prefix.append("_");
    proof {
        reveal_strlit("brewster_");
    }
    replace(
        to_chars(text).as_slice(),
        to_chars("brewster_").as_slice(),
        to_chars(prefix.as_str()).as_slice(),
    )
}

/// Writes the device state as Prometheus metrics, named after the device.
pub fn prometheus(
    hostname: &str,
    snapshot: &PrometheusSnapshot,
    peers: &[NtpPeerSnapshot],
    heap: &HeapReport,
    uptime_s: u64,
) -> (r: String)
    ensures
        r@ == replaced(
            exposition(*snapshot, peers@, *heap, uptime_s),
            "brewster_"@,
            hostname@ + "_"@,
        ),
{
    named_after(exposition_str(snapshot, peers, heap, uptime_s).as_str(), hostname)
}

/// A device with the default name keeps the metrics' own names.
pub proof fn default_name_keeps_metric_names(
    s: PrometheusSnapshot,
    peers: Seq<NtpPeerSnapshot>,
    heap: HeapReport,
    uptime_s: u64,
)
    ensures
        replaced(exposition(s, peers, heap, uptime_s), "brewster_"@, "brewster"@ + "_"@)
            == exposition(s, peers, heap, uptime_s),
{
    reveal_strlit("brewster");
    reveal_strlit("_");
    reveal_strlit("brewster_");
    assert("brewster"@ + "_"@ =~= "brewster_"@);
    replaced_by_itself(exposition(s, peers, heap, uptime_s), "brewster_"@);
}

/// Every occurrence of a piece is replaced, one at the very end too: what stands
/// before the first one stays, and what follows is treated in the same way.
/// Text without the piece stays as it is.
pub proof fn every_occurrence_is_replaced(
    before: Seq<char>,
    after: Seq<char>,
    from: Seq<char>,
    to: Seq<char>,
)
    requires
        from.len() > 0,
        find(before + from + after, from) == Some(before.len() as int),
    ensures
        replaced(before + from + after, from, to) == before + to + replaced(after, from, to),
        find(after, from) is None ==> replaced(after, from, to) == after,
{
    let s = before + from + after;
    assert(s.take(before.len() as int) == before);
    assert(s.skip((before.len() + from.len()) as int) == after);
}

} // verus!
