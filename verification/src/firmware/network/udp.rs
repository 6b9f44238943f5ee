//! Telemetry to the LAN server, and how the server is found.
//!
//! The server's address is the configured one, if there is one. Otherwise it
//! is the one that was last heard of, in a broadcast beacon or over mDNS, for
//! as long as that was no more than 30 seconds ago.

use vstd::prelude::*;
use crate::bytes::{bytes_equal, bytes_start_with, get_u16_le, read_u16_le};
use crate::server::packet::{
    fields_of, is_packet, packet_bytes, packet_read_back, Packet, PACKET_SIZE, PACKET_VERSION,
    TEMP_NONE,
};
use crate::text::starts_with;
use crate::firmware::config::{server_port, udp_server_port, HOSTNAME_MAX_LEN};
use crate::firmware::shared::{ipv4_of, parse_ipv4_octets};
use crate::firmware::status::{
    uptime_of, uptime_seconds, MetricsSnapshot, UNKNOWN_TEMPERATURE_CENTI,
};

verus! {

/// The port on which beacons arrive.
pub const DISCOVERY_PORT: u16 = 47889;

/// `BRWS` in ASCII.
pub const BEACON_MAGIC: [u8; 4] = [0x42, 0x52, 0x57, 0x53];

pub const BEACON_SIZE: usize = 12;

/// The port from which telemetry is sent.
pub const LOCAL_TELEMETRY_PORT: u16 = 47891;

/// How long a server counts as found after it was last heard of.
pub const DISCOVERY_EXPIRY_S: u32 = 30;

/// What the telemetry sender remembers.
pub struct TelemetryState {
    /// The server that was found; all zero before that.
    pub discovered_ip: [u8; 4],
    pub discovered_port: u16,
    /// The uptime at which it was last heard of.
    pub discovered_uptime_s: u32,
    /// The number of the next packet.
    pub seq: u32,
    pub sent: u32,
    pub failed: u32,
    /// The next packet says that the history was cleared.
    pub history_clear_pending: bool,
}

impl TelemetryState {
    /// The state at boot.
    pub fn new() -> (s: Self)
        ensures
            s.discovered_ip@ == seq![0u8, 0, 0, 0],
            s.discovered_port == 0 && s.discovered_uptime_s == 0,
            s.seq == 0 && s.sent == 0 && s.failed == 0,
            !s.history_clear_pending,
    {
        TelemetryState {
            discovered_ip: [0, 0, 0, 0],
            discovered_port: 0,
            discovered_uptime_s: 0,
            seq: 0,
            sent: 0,
            failed: 0,
            history_clear_pending: false,
        }
    }
}

// ── Discovery ────────────────────────────────────────────────────────────────

/// Records a server that was heard of.
pub fn set_discovered_server(
    state: &mut TelemetryState,
    ip: [u8; 4],
    port: u16,
    now_ticks: u64,
    tick_hz: u64,
)
    requires
        tick_hz > 0,
    ensures
        *final(state) == (TelemetryState {
            discovered_ip: ip,
            discovered_port: port,
            discovered_uptime_s: uptime_of(now_ticks, tick_hz),
            ..*old(state)
        }),
{
    state.discovered_ip = ip;
    state.discovered_port = port;
    state.discovered_uptime_s = uptime_seconds(now_ticks, tick_hz);
}

/// Whether an address is all zero.
pub open spec fn unspecified(ip: Seq<u8>) -> bool {
    ip == seq![0u8, 0, 0, 0]
}

fn is_unspecified(ip: &[u8; 4]) -> (r: bool)
    ensures
        r == unspecified(ip@),
{
    let zero: [u8; 4] = [0, 0, 0, 0];
    assert(zero@ == seq![0u8, 0, 0, 0]);
    bytes_equal(ip, &zero)
}

/// Seconds from one uptime to a later one, where the counter may have wrapped.
pub open spec fn seconds_since(now_s: u32, then_s: u32) -> int {
    (now_s - then_s) % 0x1_0000_0000
}

/// The server that was found, unless it has been silent for too long.
pub open spec fn found_server(state: TelemetryState, now_s: u32) -> Option<(Seq<u8>, u16)> {
    if unspecified(state.discovered_ip@) || state.discovered_port == 0 || seconds_since(
        now_s,
        state.discovered_uptime_s,
    ) > DISCOVERY_EXPIRY_S {
        None
    } else {
        Some((state.discovered_ip@, state.discovered_port))
    }
}

/// The server that telemetry goes to. A configured address has priority and
/// does not expire.
pub open spec fn server_of(
    state: TelemetryState,
    config_ip: Option<&str>,
    config_port: Option<&str>,
    now_s: u32,
) -> Option<(Seq<u8>, u16)> {
    match config_ip {
        Some(s) => match ipv4_of(s@) {
            Some(ip) => Some((ip, server_port(config_port) as u16)),
            None => found_server(state, now_s),
        },
        None => found_server(state, now_s),
    }
}

/// An address and a port as mathematical values.
pub open spec fn address_view(r: Option<([u8; 4], u16)>) -> Option<(Seq<u8>, u16)> {
    match r {
        Some(a) => Some((a.0@, a.1)),
        None => None,
    }
}

/// Finds out where telemetry goes to.
pub fn server_addr(
    state: &TelemetryState,
    config_ip: Option<&str>,
    config_port: Option<&str>,
    now_ticks: u64,
    tick_hz: u64,
) -> (r: Option<([u8; 4], u16)>)
    requires
        tick_hz > 0,
    ensures
        address_view(r) == server_of(
            *state,
            config_ip,
            config_port,
            uptime_of(now_ticks, tick_hz),
        ),
{
    if let Some(s) = config_ip {
        if let Some(octets) = parse_ipv4_octets(s) {
            return Some((octets, udp_server_port(config_port)));
        }
    }
    if is_unspecified(&state.discovered_ip) || state.discovered_port == 0 {
        return None;
    }
    let now_s: u32 = uptime_seconds(now_ticks, tick_hz);
    if now_s.wrapping_sub(state.discovered_uptime_s) > DISCOVERY_EXPIRY_S {
        return None;
    }
    Some((state.discovered_ip, state.discovered_port))
}

/// The address of the server that was found, however long ago.
pub fn discovered_server_ip_octets(state: &TelemetryState) -> (r: Option<[u8; 4]>)
    ensures
        r == (if unspecified(state.discovered_ip@) {
            None
        } else {
            Some(state.discovered_ip)
        }),
{
    if is_unspecified(&state.discovered_ip) {
        None
    } else {
        Some(state.discovered_ip)
    }
}

/// The server that a beacon announces: its address after the magic, then its
/// telemetry port. Neither may be zero.
pub open spec fn beacon_of(datagram: Seq<u8>) -> Option<(Seq<u8>, u16)> {
    if datagram.len() < BEACON_SIZE || !starts_with(datagram, BEACON_MAGIC@) || unspecified(
        datagram.subrange(4, 8),
    ) || get_u16_le(datagram, 8) == 0 {
        None
    } else {
        Some((datagram.subrange(4, 8), get_u16_le(datagram, 8)))
    }
}

/// Reads a beacon.
pub fn parse_beacon(datagram: &[u8]) -> (r: Option<([u8; 4], u16)>)
    ensures
        address_view(r) == beacon_of(datagram@),
{
    if datagram.len() < BEACON_SIZE {
        return None;
    }
    let magic: [u8; 4] = BEACON_MAGIC;
    if !bytes_start_with(datagram, &magic) {
        return None;
    }
    let ip: [u8; 4] = [datagram[4], datagram[5], datagram[6], datagram[7]];
    assert(ip@ == datagram@.subrange(4, 8));
    let port: u16 = read_u16_le(datagram, 8);
    if is_unspecified(&ip) || port == 0 {
        return None;
    }
    Some((ip, port))
}

/// Takes in a datagram on the discovery port. Returns whether it was a beacon.
pub fn beacon_received(state: &mut TelemetryState, datagram: &[u8], now_ticks: u64, tick_hz: u64) -> (r:
    bool)
    requires
        tick_hz > 0,
    ensures
        r == beacon_of(datagram@) is Some,
        match beacon_of(datagram@) {
            Some(server) => {
                &&& final(state).discovered_ip@ == server.0
                &&& *final(state) == (TelemetryState {
                    discovered_ip: final(state).discovered_ip,
                    discovered_port: server.1,
                    discovered_uptime_s: uptime_of(now_ticks, tick_hz),
                    ..*old(state)
                })
            },
            None => *final(state) == *old(state),
        },
{
    match parse_beacon(datagram) {
        Some((ip, port)) => {
            set_discovered_server(state, ip, port, now_ticks, tick_hz);
            true
        },
        None => false,
    }
}

/// A server that was heard of gets telemetry for the next 30 seconds, and not
/// after that, unless an address is configured.
pub proof fn server_is_kept_for_a_while(state: TelemetryState, now_s: u32)
    requires
        !unspecified(state.discovered_ip@),
        state.discovered_port != 0,
    ensures
        server_of(state, None, None, now_s) is Some <==> seconds_since(
            now_s,
            state.discovered_uptime_s,
        ) <= DISCOVERY_EXPIRY_S,
        server_of(state, None, None, state.discovered_uptime_s) == Some(
            (state.discovered_ip@, state.discovered_port),
        ),
{
}

// ── Counters ─────────────────────────────────────────────────────────────────

/// Has the next packet say that the history was cleared.
pub fn set_history_clear_pending(state: &mut TelemetryState)
    ensures
        *final(state) == (TelemetryState { history_clear_pending: true, ..*old(state) }),
{
    state.history_clear_pending = true;
}

/// Counts a packet that was sent, or that was not.
pub fn packet_done(state: &mut TelemetryState, sent: bool)
    ensures
        *final(state) == (if sent {
            TelemetryState { sent: ((old(state).sent + 1) % 0x1_0000_0000) as u32, ..*old(state) }
        } else {
            TelemetryState {
                failed: ((old(state).failed + 1) % 0x1_0000_0000) as u32,
                ..*old(state)
            }
        }),
{
    if sent {
        state.sent = state.sent.wrapping_add(1);
    } else {
        state.failed = state.failed.wrapping_add(1);
    }
}

/// The packets sent and the packets not sent since boot.
pub fn telemetry_stats(state: &TelemetryState) -> (r: (u32, u32))
    ensures
        r == (state.sent, state.failed),
{
    (state.sent, state.failed)
}

// ── Packets ──────────────────────────────────────────────────────────────────

/// A further probe.
#[derive(Clone, Copy, Debug, PartialEq, Eq, Structural)]
pub struct ProbeReading {
    pub temp_centi: i32,
    pub status: u8,
}

/// What a packet reports besides the snapshot.
pub struct PacketContext {
    pub hostname: [u8; HOSTNAME_MAX_LEN],
    pub uptime_s: u32,
    pub second: ProbeReading,
    pub third: ProbeReading,
    pub sensor_count: usize,
    pub deadband_centi: u32,
}

/// A value, or the nearest one within limits.
pub open spec fn limited(v: int, low: int, high: int) -> int {
    if v < low {
        low
    } else if v > high {
        high
    } else {
        v
    }
}

/// A temperature as a packet reports it.
pub open spec fn reported_temp(centi: i32) -> Option<i16> {
    if centi == UNKNOWN_TEMPERATURE_CENTI {
        None
    } else {
        Some(limited(centi as int, i16::MIN as int, TEMP_NONE - 1) as i16)
    }
}

/// Whether a packet reports the state of the device.
pub open spec fn is_report(
    p: Packet,
    state: TelemetryState,
    s: MetricsSnapshot,
    context: PacketContext,
) -> bool {
    &&& p.version == PACKET_VERSION
    &&& p.hostname@ == context.hostname@
    &&& p.seq == state.seq
    &&& p.uptime_s == context.uptime_s
    &&& p.temps@ == seq![
        reported_temp(s.temp_centi),
        reported_temp(context.second.temp_centi),
        reported_temp(context.third.temp_centi),
    ]
    &&& p.target_centi == limited(s.target_centi as int, i16::MIN as int, i16::MAX as int)
    &&& p.output_pct == s.pid_deci as int / 10 % 256
    &&& p.relay_on == s.relay_on
    &&& p.collecting == s.collection_enabled
    &&& p.ntp_synced == s.ntp_synced
    &&& p.history_clear == state.history_clear_pending
    &&& p.heat_on == s.heat_on
    &&& p.window_step == s.pid_window_step
    &&& p.on_steps == s.pid_on_steps
    &&& p.sensor_status@ == seq![s.sensor_status_code, context.second.status, context.third.status]
    &&& p.device_ip@ == (if s.ip_valid {
        s.ip_octets@
    } else {
        seq![0u8, 0, 0, 0]
    })
    &&& p.sensor_count == limited(context.sensor_count as int, 0, 3)
    &&& p.deadband_centi == limited(context.deadband_centi as int, 0, 255)
    &&& p.pid_p_pct == s.pid_p_pct
    &&& p.pid_i_pct == s.pid_i_pct
    &&& p.pid_d_pct == s.pid_d_pct
}

fn limit(v: i32, low: i32, high: i32) -> (r: i32)
    requires
        low <= high,
    ensures
        r == limited(v as int, low as int, high as int),
        low <= r <= high,
{
    if v < low {
        low
    } else if v > high {
        high
    } else {
        v
    }
}

fn report_temp(centi: i32) -> (r: Option<i16>)
    ensures
        r == reported_temp(centi),
{
    if centi == UNKNOWN_TEMPERATURE_CENTI {
        None
    } else {
        Some(limit(centi, i16::MIN as i32, TEMP_NONE as i32 - 1) as i16)
    }
}

/// The report of the device's state.
fn report(state: &TelemetryState, s: &MetricsSnapshot, context: &PacketContext) -> (p: Packet)
    ensures
        is_report(p, *state, *s, *context),
{
    let temps: [Option<i16>; 3] = [
        report_temp(s.temp_centi),
        report_temp(context.second.temp_centi),
        report_temp(context.third.temp_centi),
    ];
    let sensor_status: [u8; 3] = [s.sensor_status_code, context.second.status, context.third.status];
    let device_ip: [u8; 4] = if s.ip_valid {
        s.ip_octets
    } else {
        [0, 0, 0, 0]
    };
    let sensor_count: u8 = if context.sensor_count > 3 {
        3
    } else {
        context.sensor_count as u8
    };
    let deadband_centi: u8 = if context.deadband_centi > 255 {
        255
    } else {
        context.deadband_centi as u8
    };
    Packet {
        version: PACKET_VERSION,
        hostname: context.hostname,
        seq: state.seq,
        uptime_s: context.uptime_s,
        temps,
        target_centi: limit(s.target_centi, i16::MIN as i32, i16::MAX as i32) as i16,
        output_pct: (s.pid_deci / 10 % 256) as u8,
        relay_on: s.relay_on,
        collecting: s.collection_enabled,
        ntp_synced: s.ntp_synced,
        history_clear: state.history_clear_pending,
        heat_on: s.heat_on,
        window_step: s.pid_window_step,
        on_steps: s.pid_on_steps,
        sensor_status,
        device_ip,
        sensor_count,
        deadband_centi,
        pid_p_pct: s.pid_p_pct,
        pid_i_pct: s.pid_i_pct,
        pid_d_pct: s.pid_d_pct,
    }
}

/// Builds the next telemetry packet. It takes the next number, and only it
/// says that the history was cleared.
pub fn build_packet(state: &mut TelemetryState, snapshot: &MetricsSnapshot, context: &PacketContext) -> (r:
    [u8; PACKET_SIZE])
    ensures
        exists|p: Packet| #[trigger]
            is_report(p, *old(state), *snapshot, *context) && r@ == packet_bytes(p),
        *final(state) == (TelemetryState {
            seq: ((old(state).seq + 1) % 0x1_0000_0000) as u32,
            history_clear_pending: false,
            ..*old(state)
        }),
{
    let packet: Packet = report(state, snapshot, context);
    state.seq = state.seq.wrapping_add(1);
    state.history_clear_pending = false;
    assert(is_report(packet, *old(state), *snapshot, *context));
    packet.encode()
}

/// What the server reads from a packet is what the device reported.
pub proof fn report_is_read(
    p: Packet,
    state: TelemetryState,
    s: MetricsSnapshot,
    context: PacketContext,
    q: Packet,
)
    requires
        is_report(p, state, s, context),
        context.sensor_count >= 1,
    ensures
        is_packet(packet_bytes(p)),
        fields_of(p, packet_bytes(p)),
        fields_of(q, packet_bytes(p)) ==> is_report(q, state, s, context),
{
    packet_read_back(p);
}

// ── Ticks ────────────────────────────────────────────────────────────────────

/// What changed about the server since the last tick.
#[derive(Clone, Copy, Debug, PartialEq, Eq, Structural)]
pub enum ServerChange {
    Unchanged,
    Found,
    Lost,
}

/// What to do in a tick.
pub struct TelemetryStep {
    pub change: ServerChange,
    /// A packet to send, and where to.
    pub send: Option<([u8; 4], u16, [u8; PACKET_SIZE])>,
}

/// Decides what to do each second: a packet goes to the server while one is
/// known, and nothing goes out otherwise. `known` says whether one was known
/// at the last tick.
pub fn telemetry_tick(
    state: &mut TelemetryState,
    known: &mut bool,
    server: Option<([u8; 4], u16)>,
    snapshot: &MetricsSnapshot,
    context: &PacketContext,
) -> (r: TelemetryStep)
    ensures
        *final(known) == server is Some,
        r.change == (if *old(known) == server is Some {
            ServerChange::Unchanged
        } else if server is Some {
            ServerChange::Found
        } else {
            ServerChange::Lost
        }),
        match server {
            Some(a) => {
                &&& r.send matches Some(s) && s.0 == a.0 && s.1 == a.1 && exists|p: Packet|
                    #[trigger]
                    is_report(p, *old(state), *snapshot, *context) && s.2@ == packet_bytes(p)
                &&& *final(state) == (TelemetryState {
                    seq: ((old(state).seq + 1) % 0x1_0000_0000) as u32,
                    history_clear_pending: false,
                    ..*old(state)
                })
            },
            None => r.send is None && *final(state) == *old(state),
        },
{
    let was_known: bool = *known;
    match server {
        Some((ip, port)) => {
            *known = true;
            let packet: [u8; PACKET_SIZE] = build_packet(state, snapshot, context);
            let change: ServerChange = if was_known {
                ServerChange::Unchanged
            } else {
                ServerChange::Found
            };
            TelemetryStep { change, send: Some((ip, port, packet)) }
        },
        None => {
            *known = false;
            let change: ServerChange = if was_known {
                ServerChange::Lost
            } else {
                ServerChange::Unchanged
            };
            TelemetryStep { change, send: None }
        },
    }
}

/// Telemetry goes to the configured server, whatever was found, and to the one
/// that was found where none is configured or its address cannot be read.
pub proof fn a_configured_server_comes_first(
    state: TelemetryState,
    config_ip: Option<&str>,
    config_port: Option<&str>,
    now_s: u32,
)
    ensures
        config_ip is None ==> server_of(state, config_ip, config_port, now_s) == server_of(
            state,
            None,
            None,
            now_s,
        ),
        config_ip matches Some(s) ==> match ipv4_of(s@) {
            Some(ip) => server_of(state, config_ip, config_port, now_s) == Some(
                (ip, server_port(config_port) as u16),
            ),
            None => server_of(state, config_ip, config_port, now_s) == server_of(
                state,
                None,
                None,
                now_s,
            ),
        },
{
}

/// A server that was found is kept while it was heard of in the last 30
/// seconds, also where the count of seconds starts again from zero.
pub proof fn a_silent_server_is_given_up(state: TelemetryState, silent_s: u32)
    requires
        !unspecified(state.discovered_ip@),
        state.discovered_port != 0,
    ensures
        ({
            let now = ((state.discovered_uptime_s + silent_s) % 0x1_0000_0000) as u32;
            found_server(state, now) == (if silent_s <= 30 {
                Some((state.discovered_ip@, state.discovered_port))
            } else {
                None
            })
        }),
{
}

/// No server is found at the address that stands for none, or without a port.
pub proof fn nothing_is_found_at_no_address(state: TelemetryState, now_s: u32)
    ensures
        state.discovered_port == 0 ==> found_server(state, now_s) is None,
        state.discovered_ip@ == seq![0u8, 0, 0, 0] ==> found_server(state, now_s) is None,
{
}

/// A beacon is known by its magic and gives the address and the port of the
/// server, least significant byte of the port first.
pub proof fn a_beacon_gives_the_server(datagram: Seq<u8>)
    ensures
        beacon_of(datagram) matches Some(server) ==> {
            &&& datagram.len() >= 12
            &&& datagram[0] == 0x42 && datagram[1] == 0x52 && datagram[2] == 0x57 && datagram[3]
                == 0x53
            &&& server.0 == seq![datagram[4], datagram[5], datagram[6], datagram[7]]
            &&& server.1 == datagram[8] + 256 * datagram[9]
            &&& server.1 > 0
        },
        datagram.len() >= 12 && datagram[0] == 0x42 && datagram[1] == 0x52 && datagram[2] == 0x57
            && datagram[3] == 0x53 && datagram[4] > 0 && datagram[8] > 0 ==> beacon_of(
            datagram,
        ) is Some,
{
    if datagram.len() >= 12 {
        let head = datagram.take(4);
        assert(head[0] == datagram[0] && head[1] == datagram[1] && head[2] == datagram[2] && head[3]
            == datagram[3]);
        if datagram[0] == 0x42 && datagram[1] == 0x52 && datagram[2] == 0x57 && datagram[3] == 0x53 {
            assert(head =~= BEACON_MAGIC@);
        }
        assert(datagram.subrange(4, 8) =~= seq![
            datagram[4],
            datagram[5],
            datagram[6],
            datagram[7],
        ]);
        if datagram[4] > 0 {
            assert(datagram.subrange(4, 8)[0] != seq![0u8, 0, 0, 0][0]);
        }
    }
}

/// A report tells of the device: its readings, its relays, its loop, its state,
/// and no temperature where there was no reading.
pub proof fn a_report_tells_of_the_device(
    p: Packet,
    state: TelemetryState,
    s: MetricsSnapshot,
    context: PacketContext,
)
    requires
        is_report(p, state, s, context),
    ensures
        p.version == 5,
        p.seq == state.seq,
        p.uptime_s == context.uptime_s,
        p.history_clear == state.history_clear_pending,
        p.relay_on == s.relay_on,
        p.heat_on == s.heat_on,
        p.collecting == s.collection_enabled,
        p.ntp_synced == s.ntp_synced,
        p.window_step == s.pid_window_step,
        p.on_steps == s.pid_on_steps,
        p.pid_p_pct == s.pid_p_pct,
        p.pid_i_pct == s.pid_i_pct,
        p.pid_d_pct == s.pid_d_pct,
        s.pid_deci <= 1000 ==> 10 * p.output_pct <= s.pid_deci < 10 * p.output_pct + 10,
        i16::MIN <= s.target_centi <= i16::MAX ==> p.target_centi == s.target_centi,
        s.temp_centi == i32::MIN ==> p.temps@[0] is None,
        context.second.temp_centi == i32::MIN ==> p.temps@[1] is None,
        context.third.temp_centi == i32::MIN ==> p.temps@[2] is None,
        i16::MIN <= s.temp_centi < i16::MAX ==> p.temps@[0] == Some(s.temp_centi as i16),
        i16::MIN <= context.second.temp_centi < i16::MAX ==> p.temps@[1] == Some(
            context.second.temp_centi as i16,
        ),
        i16::MIN <= context.third.temp_centi < i16::MAX ==> p.temps@[2] == Some(
            context.third.temp_centi as i16,
        ),
        p.sensor_status@[0] == s.sensor_status_code,
        p.sensor_status@[1] == context.second.status,
        p.sensor_status@[2] == context.third.status,
        s.ip_valid ==> p.device_ip@ == s.ip_octets@,
        !s.ip_valid ==> p.device_ip@ == seq![0u8, 0, 0, 0],
        context.sensor_count <= 3 ==> p.sensor_count == context.sensor_count,
        context.deadband_centi <= 255 ==> p.deadband_centi == context.deadband_centi,
        p.hostname@ == context.hostname@,
{
}

/// A temperature within the range of a packet is reported as it is, a higher or
/// lower one as the nearest that fits, and a missing one as missing.
pub proof fn temperatures_are_reported_as_they_are(centi: i32)
    ensures
        -32768 <= centi <= 32766 ==> reported_temp(centi) == Some(centi as i16),
        centi > 32766 ==> reported_temp(centi) == Some(32766i16),
        i32::MIN < centi < -32768 ==> reported_temp(centi) == Some(-32768i16),
        reported_temp(i32::MIN) is None,
{
}

} // verus!
