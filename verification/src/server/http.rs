//! What the server's HTTP interface reports, and what it forwards to the
//! device.
//!
//! A report holds plain values. Temperatures are in hundredths of a degree.

use vstd::prelude::*;
use vstd::slice::slice_subrange;
use crate::bytes::{utf8_chars, utf8_text};
use crate::firmware::metrics::{fmt_ip, ipv4_text};
use crate::firmware::status::SensorStatus;
use crate::text::{append_decimal, decimal, to_string};
use super::packet::Packet;
use super::persist::string_texts;
use super::store::{after_clear, HistoryPoint, Store, StoreView};

verus! {

pub const HISTORY_DEFAULT_POINTS: usize = 2000;

pub const HISTORY_MAX_POINTS: usize = 10000;

// ── Status ───────────────────────────────────────────────────────────────────

/// What is reported of a probe.
pub struct SensorReport {
    pub index: u8,
    pub name: String,
    pub temp_centi: Option<i16>,
    pub error: &'static str,
}

/// What is reported of the device.
pub struct StatusReport {
    pub device: String,
    pub hostname: String,
    pub sensors: Vec<SensorReport>,
    pub control_probe_index: u8,
    pub packet: Packet,
    pub ip: String,
    pub device_http_port: u16,
    pub collecting: bool,
    pub packets_dropped: u64,
}

/// The name of a sensor status code of the device.
pub open spec fn error_label(code: u8) -> Seq<char> {
    if code == 0 {
        "none"@
    } else if code == 1 {
        "bus_stuck_low"@
    } else if code == 2 {
        "no_device"@
    } else if code == 3 {
        "crc_mismatch"@
    } else {
        "unknown"@
    }
}

/// The name of a sensor status code of the device.
pub fn sensor_error_label(code: u8) -> (r: &'static str)
    ensures
        r@ == error_label(code),
{
    if code == 0 {
        "none"
    } else if code == 1 {
        "bus_stuck_low"
    } else if code == 2 {
        "no_device"
    } else if code == 3 {
        "crc_mismatch"
    } else {
        "unknown"
    }
}

/// The name of a probe: the configured one, or its number.
pub open spec fn probe_name(names: Seq<Seq<char>>, i: int) -> Seq<char> {
    if i < names.len() {
        names[i]
    } else {
        "probe-"@ + decimal((i + 1) as nat)
    }
}

fn probe_name_str(names: &[String], i: usize) -> (r: String)
    requires
        i < 3,
    ensures
        r@ == probe_name(string_texts(names@), i as int),
{
    if i < names.len() {
        assert(string_texts(names@)[i as int] == names@[i as int]@);
        return names[i].clone();
    }
    let mut out: String = "probe-".to_owned();
    append_decimal(&mut out, (i + 1) as u64);
    out
}

/// Text without zero characters at its end.
pub open spec fn without_padding(s: Seq<char>) -> Seq<char>
    decreases s.len(),
{
    if s.len() > 0 && s.last() == '\0' {
        without_padding(s.drop_last())
    } else {
        s
    }
}

/// The host name in a packet: empty where it is no UTF-8.
pub open spec fn hostname_of(bytes: Seq<u8>) -> Seq<char> {
    match utf8_text(bytes) {
        Some(text) => without_padding(text),
        None => Seq::empty(),
    }
}

/// Reads the host name in a packet.
pub fn hostname_text(bytes: &[u8]) -> (r: String)
    ensures
        r@ == hostname_of(bytes@),
{
    match utf8_chars(bytes) {
        Some(text) => {
            let mut n: usize = text.len();
            assert(text@.take(n as int) == text@);
            while n > 0 && text[n - 1] == '\0'
                invariant
                    n <= text@.len(),
                    without_padding(text@) == without_padding(text@.take(n as int)),
                decreases n,
            {
                assert(text@.take(n as int).drop_last() == text@.take(n - 1));
                n = n - 1;
            }
            let kept: &[char] = slice_subrange(text.as_slice(), 0, n);
            assert(kept@ == text@.take(n as int));
            to_string(kept)
        },
        None => String::new(),
    }
}

/// The number of probes that are reported.
pub open spec fn reported_probes(p: Packet) -> int {
    if p.sensor_count > 3 {
        3
    } else {
        p.sensor_count as int
    }
}

/// Whether reports are those of the probes of a packet.
pub open spec fn are_sensors(list: Seq<SensorReport>, p: Packet, names: Seq<Seq<char>>) -> bool {
    list.len() == reported_probes(p) && forall|i: int|
        0 <= i < list.len() ==> is_sensor(#[trigger] list[i], p, names, i)
}

/// Whether a report is that of probe number `i`.
pub open spec fn is_sensor(s: SensorReport, p: Packet, names: Seq<Seq<char>>, i: int) -> bool {
    &&& s.index == i
    &&& s.name@ == probe_name(names, i)
    &&& s.temp_centi == p.temps@[i]
    &&& s.error@ == error_label(p.sensor_status@[i])
}

fn sensor_reports(p: &Packet, names: &[String]) -> (r: Vec<SensorReport>)
    ensures
        are_sensors(r@, *p, string_texts(names@)),
{
    let n: usize = if p.sensor_count > 3 {
        3
    } else {
        p.sensor_count as usize
    };
    let mut out: Vec<SensorReport> = Vec::new();
    let mut i: usize = 0;
    while i < n
        invariant
            i <= n <= 3,
            out@.len() == i,
            forall|k: int|
                0 <= k < i ==> is_sensor(#[trigger] out@[k], *p, string_texts(names@), k),
        decreases n - i,
    {
        out.push(
            SensorReport {
                index: i as u8,
                name: probe_name_str(names, i),
                temp_centi: p.temps[i],
                error: sensor_error_label(p.sensor_status[i]),
            },
        );
        i = i + 1;
    }
    out
}

/// Reports the device, once a packet of it was received.
pub fn status_report(store: &Store, device_name: &str, device_http_port: u16, names: &[String]) -> (r:
    Option<StatusReport>)
    ensures
        match r {
            Some(s) => {
                &&& store@.latest == Some(s.packet)
                &&& s.device@ == device_name@
                &&& s.hostname@ == hostname_of(s.packet.hostname@)
                &&& are_sensors(s.sensors@, s.packet, string_texts(names@))
                &&& s.control_probe_index == 0
                &&& s.ip@ == ipv4_text(s.packet.device_ip@)
                &&& s.device_http_port == device_http_port
                &&& s.collecting == store@.collecting
                &&& s.packets_dropped == store@.packets_dropped
            },
            None => store@.latest is None,
        },
{
    let (latest, collecting): (Option<Packet>, bool) = store.latest_with_collecting();
    match latest {
        Some(packet) => Some(
            StatusReport {
                device: device_name.to_owned(),
                hostname: hostname_text(&packet.hostname),
                sensors: sensor_reports(&packet, names),
                control_probe_index: 0,
                packet,
                ip: fmt_ip(packet.device_ip),
                device_http_port,
                collecting,
                packets_dropped: store.telemetry_stats().packets_dropped,
            },
        ),
        None => None,
    }
}

// ── History ──────────────────────────────────────────────────────────────────

/// The number of points that a request asks for: at least 1, at most 10000,
/// and 2000 where it does not say.
pub fn history_limit(points: Option<usize>) -> (r: usize)
    ensures
        r == (match points {
            Some(n) => if n < 1 {
                1
            } else if n > HISTORY_MAX_POINTS {
                HISTORY_MAX_POINTS
            } else {
                n
            },
            None => HISTORY_DEFAULT_POINTS,
        }),
        1 <= r <= 10_000,
        points is None ==> r == 2_000,
        points matches Some(n) ==> (1 <= n <= 10_000 ==> r == n) && (n > r ==> r == 10_000) && (n
            < r ==> r == 1),
{
    match points {
        Some(n) => if n < 1 {
            1
        } else if n > HISTORY_MAX_POINTS {
            HISTORY_MAX_POINTS
        } else {
            n
        },
        None => HISTORY_DEFAULT_POINTS,
    }
}

/// A value in a row of the history.
#[derive(Clone, Copy, Debug, PartialEq, Eq, Structural)]
pub enum Cell {
    Number(i128),
    /// A temperature in hundredths of a degree.
    Temperature(i16),
    Null,
}

/// A temperature, or nothing.
pub open spec fn temp_cell(temp: Option<i16>) -> Cell {
    match temp {
        Some(centi) => Cell::Temperature(centi),
        None => Cell::Null,
    }
}

/// One for true and zero for false.
pub open spec fn bit_cell(b: bool) -> Cell {
    if b {
        Cell::Number(1)
    } else {
        Cell::Number(0)
    }
}

fn temp_value(temp: Option<i16>) -> (r: Cell)
    ensures
        r == temp_cell(temp),
{
    match temp {
        Some(centi) => Cell::Temperature(centi),
        None => Cell::Null,
    }
}

fn bit_value(b: bool) -> (r: Cell)
    ensures
        r == bit_cell(b),
{
    if b {
        Cell::Number(1)
    } else {
        Cell::Number(0)
    }
}

/// A point as the row that the dashboard expects.
pub fn history_row(p: &HistoryPoint) -> (r: [Cell; 14])
    ensures
        r@ == seq![
            Cell::Number(p.seq as i128),
            temp_cell(p.temp_centi),
            Cell::Temperature(p.target_centi),
            Cell::Number(p.output_pct as i128),
            Cell::Number(p.window_step as i128),
            Cell::Number(p.on_steps as i128),
            bit_cell(p.relay_on),
            temp_cell(p.extra_temps@[0]),
            temp_cell(p.extra_temps@[1]),
            Cell::Number(p.pid_p_pct as i128),
            Cell::Number(p.pid_i_pct as i128),
            Cell::Number(p.pid_d_pct as i128),
            Cell::Number(p.t_s as i128),
            bit_cell(p.gap_before),
        ],
{
    let r: [Cell; 14] = [
        Cell::Number(p.seq as i128),
        temp_value(p.temp_centi),
        Cell::Temperature(p.target_centi),
        Cell::Number(p.output_pct as i128),
        Cell::Number(p.window_step as i128),
        Cell::Number(p.on_steps as i128),
        bit_value(p.relay_on),
        temp_value(p.extra_temps[0]),
        temp_value(p.extra_temps[1]),
        Cell::Number(p.pid_p_pct as i128),
        Cell::Number(p.pid_i_pct as i128),
        Cell::Number(p.pid_d_pct as i128),
        Cell::Number(p.t_s as i128),
        bit_value(p.gap_before),
    ];
    r
}

// ── Forwarding ───────────────────────────────────────────────────────────────

/// Where a request to the device goes.
pub open spec fn url_text(ip: Seq<u8>, port: u16, path: Seq<char>) -> Seq<char> {
    "http://"@ + ipv4_text(ip) + ":"@ + decimal(port as nat) + path
}

/// Where a request to the device goes, once its address is known from a packet.
pub open spec fn device_url_of(s: StoreView, port: u16, path: Seq<char>) -> Option<Seq<char>> {
    match s.latest {
        Some(p) => Some(url_text(p.device_ip@, port, path)),
        None => None,
    }
}

/// An optional string as text.
pub open spec fn text_view(s: Option<String>) -> Option<Seq<char>> {
    match s {
        Some(v) => Some(v@),
        None => None,
    }
}

/// Where a request to the device goes.
pub fn device_url(store: &Store, port: u16, path: &str) -> (r: Option<String>)
    ensures
        text_view(r) == device_url_of(store@, port, path@),
{
    match store.latest() {
        Some(packet) => {
            let ip: String = fmt_ip(packet.device_ip);
            let mut out: String = "http://".to_owned();
            out.append(ip.as_str());
            out.append(":");
            append_decimal(&mut out, port as u64);
            out.append(path);
            Some(out)
        },
        None => None,
    }
}

/// Clears the history. Returns where the device is told to do the same.
pub fn post_clear(store: &mut Store, device_http_port: u16) -> (r: Option<String>)
    ensures
        final(store)@ == after_clear(old(store)@),
        text_view(r) == device_url_of(old(store)@, device_http_port, "/history/clear"@),
{
    let url: Option<String> = device_url(store, device_http_port, "/history/clear");
    store.clear();
    url
}

/// Starts or stops collection. Returns where the device is told to do the same.
pub fn post_collection(store: &mut Store, device_http_port: u16, enabled: bool) -> (r: Option<String>)
    ensures
        final(store)@ == (StoreView { collecting: enabled, ..old(store)@ }),
        text_view(r) == device_url_of(
            old(store)@,
            device_http_port,
            if enabled {
                "/collection/start"@
            } else {
                "/collection/stop"@
            },
        ),
{
    store.set_collecting(enabled);
    if enabled {
        device_url(store, device_http_port, "/collection/start")
    } else {
        device_url(store, device_http_port, "/collection/stop")
    }
}

/// What became of a request to the device.
pub enum Forwarded {
    /// No packet was received yet, so its address is not known.
    Unknown,
    Accepted,
    /// It replied with this status.
    Refused(String),
    /// It could not be reached, for this reason.
    Unreachable(String),
}

/// The status code and the error with which a new target temperature is
/// answered.
pub open spec fn forward_reply(f: Forwarded) -> (u16, Option<Seq<char>>) {
    match f {
        Forwarded::Unknown => (
            503,
            Some("no telemetry received yet — device IP unknown"@),
        ),
        Forwarded::Accepted => (200, None),
        Forwarded::Refused(status) => (502, Some("device replied "@ + status@)),
        Forwarded::Unreachable(error) => (502, Some("could not reach device: "@ + error@)),
    }
}

/// The status code and the error with which a new target temperature is
/// answered, once it was forwarded to the device or not.
pub fn temperature_reply(f: &Forwarded) -> (r: (u16, Option<String>))
    ensures
        r.0 == forward_reply(*f).0,
        text_view(r.1) == forward_reply(*f).1,
{
    match f {
        Forwarded::Unknown => (
            503,
            Some("no telemetry received yet — device IP unknown".to_owned()),
        ),
        Forwarded::Accepted => (200, None),
        Forwarded::Refused(status) => {
            let mut text: String = "device replied ".to_owned();
            text.append(status.as_str());
            (502, Some(text))
        },
        Forwarded::Unreachable(error) => {
            let mut text: String = "could not reach device: ".to_owned();
            text.append(error.as_str());
            (502, Some(text))
        },
    }
}

/// Every probe of the device is reported in its order, with its own
/// temperature and state, under its configured name or its number.
pub proof fn every_probe_is_reported(
    list: Seq<SensorReport>,
    p: Packet,
    names: Seq<Seq<char>>,
    i: int,
)
    requires
        are_sensors(list, p, names),
        p.sensor_count <= 3,
        0 <= i < p.sensor_count,
    ensures
        list.len() == p.sensor_count,
        list[i].index == i,
        list[i].temp_centi == p.temps@[i],
        i < names.len() ==> list[i].name@ == names[i],
        i >= names.len() ==> list[i].name@ == "probe-"@ + decimal((i + 1) as nat),
        p.sensor_status@[i] == 0 <==> list[i].error@ == "none"@,
        p.sensor_status@[i] == 1 ==> list[i].error@ == "bus_stuck_low"@,
        p.sensor_status@[i] == 2 ==> list[i].error@ == "no_device"@,
        p.sensor_status@[i] == 3 ==> list[i].error@ == "crc_mismatch"@,
        p.sensor_status@[i] > 3 ==> list[i].error@ == "unknown"@,
{
    assert(is_sensor(list[i], p, names, i));
    reveal_strlit("none");
    reveal_strlit("bus_stuck_low");
    reveal_strlit("no_device");
    reveal_strlit("crc_mismatch");
    reveal_strlit("unknown");
    assert("none"@.len() == 4 && "bus_stuck_low"@.len() == 13 && "no_device"@.len() == 9
        && "crc_mismatch"@.len() == 12 && "unknown"@.len() == 7);
}

/// A host name is read without the zeros that fill up its field.
pub proof fn a_host_name_is_read_without_its_padding(name: Seq<char>, padding: nat)
    requires
        name.len() == 0 || name.last() != '\0',
    ensures
        without_padding(name + Seq::new(padding, |i: int| '\0')) == name,
    decreases padding,
{
    let padded = name + Seq::new(padding, |i: int| '\0');
    if padding == 0 {
        assert(padded =~= name);
    } else {
        a_host_name_is_read_without_its_padding(name, (padding - 1) as nat);
        assert(padded.drop_last() =~= name + Seq::new((padding - 1) as nat, |i: int| '\0'));
        assert(padded.last() == '\0');
    }
}

/// A cell tells its value: a temperature or nothing, one for true and zero for
/// false.
pub proof fn cells_tell_their_values(temp: Option<i16>, flag: bool)
    ensures
        temp matches Some(centi) ==> temp_cell(temp) == Cell::Temperature(centi),
        temp is None ==> temp_cell(temp) == Cell::Null,
        bit_cell(flag) == Cell::Number(
            if flag {
                1
            } else {
                0
            },
        ),
{
}

/// A request goes to the device of the last packet, and nowhere before there
/// was one.
pub proof fn requests_go_to_the_last_device(s: StoreView, port: u16, path: Seq<char>)
    ensures
        s.latest is None <==> device_url_of(s, port, path) is None,
        s.latest matches Some(p) ==> device_url_of(s, port, path) == Some(
            "http://"@ + ipv4_text(p.device_ip@) + ":"@ + decimal(port as nat) + path,
        ),
{
}

/// A target is reported as set only where the device has accepted it.
pub proof fn only_an_accepted_target_is_reported(f: Forwarded)
    ensures
        f is Accepted <==> forward_reply(f).0 == 200,
        f is Accepted <==> forward_reply(f).1 is None,
        f is Unknown <==> forward_reply(f).0 == 503,
        f is Refused || f is Unreachable <==> forward_reply(f).0 == 502,
{
}

/// The server names the faults of a probe as the device does.
pub proof fn faults_are_named_as_the_device_names_them(status: SensorStatus)
    ensures
        error_label(status.spec_code()) == status.spec_label(),
{
}

} // verus!
