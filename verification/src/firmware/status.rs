//! Live runtime state of the device: readings, control output, LED, network
//! and NTP peers.
//!
//! The state is one value, owned by the caller. Time is handed in as ticks of
//! the system clock with the number of ticks per second.

use vstd::prelude::*;
use vstd::slice::slice_subrange;
use crate::bytes::bytes_equal;
use crate::text::{find_any_char, first_in, first_in_at, to_chars};
use super::bounded::{snapshots, snapshots_new, snapshots_push, string32};
use super::error::SensorError;
use super::shared::{ipv4_of, parse_ipv4_chars, NtpSelectionSample, NtpSource};
use super::storage::{probe_name_of, StorageState};

pub use super::error::StorageError as PersistError;
pub use super::storage::{
    clear_history_persistent, get_target_temp_centi, history_sample_interval_secs,
    history_snapshot, history_total_samples, init_persistent_target, set_target_temp_c_persistent,
    set_temp_probe_name, temp_probe_name, ProbeNameError, TEMP_PROBE_NAME_MAX_LEN,
};

verus! {

/// Stands for a temperature that was not read.
pub const UNKNOWN_TEMPERATURE_CENTI: i32 = i32::MIN;

/// The configured NTP servers and the DHCP gateway.
pub const NTP_MAX_TRACKED_PEERS: usize = 5;

// ── Codes ────────────────────────────────────────────────────────────────────

/// The state of a sensor.
#[derive(Clone, Copy, Debug, PartialEq, Eq, Structural)]
pub enum SensorStatus {
    Healthy,
    BusStuckLow,
    NoDevice,
    CrcMismatch,
}

impl SensorStatus {
    pub open spec fn of_code(code: u8) -> SensorStatus {
        if code == 1 {
            SensorStatus::BusStuckLow
        } else if code == 2 {
            SensorStatus::NoDevice
        } else if code == 3 {
            SensorStatus::CrcMismatch
        } else {
            SensorStatus::Healthy
        }
    }

    pub open spec fn spec_code(self) -> u8 {
        match self {
            SensorStatus::Healthy => 0,
            SensorStatus::BusStuckLow => 1,
            SensorStatus::NoDevice => 2,
            SensorStatus::CrcMismatch => 3,
        }
    }

    pub open spec fn spec_label(self) -> Seq<char> {
        match self {
            SensorStatus::Healthy => "none"@,
            SensorStatus::BusStuckLow => "bus_stuck_low"@,
            SensorStatus::NoDevice => "no_device"@,
            SensorStatus::CrcMismatch => "crc_mismatch"@,
        }
    }

    /// The state that a code stands for.
    pub fn from_u8(code: u8) -> (r: Self)
        ensures
            r == SensorStatus::of_code(code),
    {
        match code {
            1 => SensorStatus::BusStuckLow,
            2 => SensorStatus::NoDevice,
            3 => SensorStatus::CrcMismatch,
            _ => SensorStatus::Healthy,
        }
    }

    /// The code of this state.
    pub fn code(self) -> (r: u8)
        ensures
            r == self.spec_code(),
    {
        match self {
            SensorStatus::Healthy => 0,
            SensorStatus::BusStuckLow => 1,
            SensorStatus::NoDevice => 2,
            SensorStatus::CrcMismatch => 3,
        }
    }

    /// The name of this state.
    pub fn label(self) -> (r: &'static str)
        ensures
            r@ == self.spec_label(),
    {
        match self {
            SensorStatus::Healthy => "none",
            SensorStatus::BusStuckLow => "bus_stuck_low",
            SensorStatus::NoDevice => "no_device",
            SensorStatus::CrcMismatch => "crc_mismatch",
        }
    }
}

/// The state that an error leaves a sensor in.
pub open spec fn status_of_error(error: SensorError) -> SensorStatus {
    match error {
        SensorError::BusStuckLow => SensorStatus::BusStuckLow,
        SensorError::NoDevice => SensorStatus::NoDevice,
        SensorError::CrcMismatch => SensorStatus::CrcMismatch,
    }
}

impl vstd::std_specs::convert::FromSpecImpl<SensorError> for SensorStatus {
    open spec fn obeys_from_spec() -> bool {
        true
    }

    open spec fn from_spec(error: SensorError) -> Self {
        status_of_error(error)
    }
}

impl From<SensorError> for SensorStatus {
    fn from(error: SensorError) -> (r: Self) {
        match error {
            SensorError::BusStuckLow => SensorStatus::BusStuckLow,
            SensorError::NoDevice => SensorStatus::NoDevice,
            SensorError::CrcMismatch => SensorStatus::CrcMismatch,
        }
    }
}

/// A state is read back from its code, and every error has a code of its own.
pub proof fn sensor_status_code_read_back(status: SensorStatus, a: SensorError, b: SensorError)
    ensures
        SensorStatus::of_code(status.spec_code()) == status,
        status_of_error(a).spec_code() != 0,
        status_of_error(a).spec_code() == status_of_error(b).spec_code() ==> a == b,
{
}

/// The name of the sensor state that a code stands for.
pub fn sensor_status_label(code: u8) -> (r: &'static str)
    ensures
        r@ == SensorStatus::of_code(code).spec_label(),
{
    SensorStatus::from_u8(code).label()
}

/// The state of the network.
#[derive(Clone, Copy, Debug, PartialEq, Eq, Structural)]
pub enum NetState {
    Unknown,
    LinkDown,
    DhcpPending,
    HasIp,
}

impl NetState {
    pub open spec fn of_code(code: u8) -> NetState {
        if code == 1 {
            NetState::LinkDown
        } else if code == 2 {
            NetState::DhcpPending
        } else if code == 3 {
            NetState::HasIp
        } else {
            NetState::Unknown
        }
    }

    pub open spec fn spec_code(self) -> u8 {
        match self {
            NetState::Unknown => 0,
            NetState::LinkDown => 1,
            NetState::DhcpPending => 2,
            NetState::HasIp => 3,
        }
    }

    /// The state that a code stands for.
    pub fn from_u8(code: u8) -> (r: Self)
        ensures
            r == NetState::of_code(code),
    {
        match code {
            1 => NetState::LinkDown,
            2 => NetState::DhcpPending,
            3 => NetState::HasIp,
            _ => NetState::Unknown,
        }
    }

    /// The code of this state.
    pub fn code(self) -> (r: u8)
        ensures
            r == self.spec_code(),
    {
        match self {
            NetState::Unknown => 0,
            NetState::LinkDown => 1,
            NetState::DhcpPending => 2,
            NetState::HasIp => 3,
        }
    }
}

/// A network state is read back from its code.
pub proof fn net_state_code_read_back(state: NetState)
    ensures
        NetState::of_code(state.spec_code()) == state,
{
}

// ── State ────────────────────────────────────────────────────────────────────

/// What is known of one NTP peer.
#[derive(Clone, Copy, Debug)]
pub struct NtpPeerState {
    pub address: [u8; 4],
    pub has_sample: bool,
    pub stratum: u8,
    pub latency_us: u32,
    pub last_latency_us: u32,
    pub jitter_us: u32,
    pub has_offset: bool,
    pub offset_us: i32,
    pub last_offset_us: i32,
    pub offset_jitter_us: u32,
    pub success_count: u32,
    pub fail_count: u32,
    pub last_sync_uptime_s: u32,
    pub source: NtpSource,
}

/// The live state of the device.
pub struct RuntimeState {
    pub temp_centi: i32,
    pub pid_deci: u16,
    pub relay_on: bool,
    pub heat_on: bool,
    pub sensor_status: u8,
    pub led_red: u8,
    pub led_green: u8,
    pub led_blue: u8,
    pub http_activity: bool,
    pub pid_window_step: u8,
    pub pid_on_steps: u8,
    pub pid_p_pct: i8,
    pub pid_i_pct: i8,
    pub pid_d_pct: i8,
    pub collection_enabled: bool,
    pub ip: [u8; 4],
    pub ip_valid: bool,
    pub net_state: u8,
    pub ntp_synced: bool,
    /// Clock ticks at receipt of the last accepted NTP reply.
    pub ntp_anchor_ticks: u64,
    /// Unix time at that moment, in microseconds.
    pub ntp_anchor_micros: u64,
    pub ntp_sync_count: u32,
    pub ntp_source: u8,
    pub ntp_server: [u8; 4],
    pub peers: [Option<NtpPeerState>; NTP_MAX_TRACKED_PEERS],
}

impl RuntimeState {
    /// The state at power-up.
    pub fn new() -> (s: Self)
        ensures
            s.temp_centi == UNKNOWN_TEMPERATURE_CENTI,
            s.pid_deci == 0 && !s.relay_on && !s.heat_on,
            s.sensor_status == SensorStatus::NoDevice.spec_code(),
            s.led_red == 0 && s.led_green == 0 && s.led_blue == 0,
            !s.http_activity && !s.collection_enabled,
            s.pid_window_step == 0 && s.pid_on_steps == 0,
            s.pid_p_pct == 0 && s.pid_i_pct == 0 && s.pid_d_pct == 0,
            !s.ip_valid && s.ip@ == seq![0u8, 0, 0, 0] && s.net_state
                == NetState::Unknown.spec_code(),
            !s.ntp_synced && s.ntp_anchor_ticks == 0 && s.ntp_anchor_micros == 0,
            s.ntp_sync_count == 0 && s.ntp_source == 0 && s.ntp_server@ == seq![0u8, 0, 0, 0],
            forall|i: int| 0 <= i < NTP_MAX_TRACKED_PEERS ==> s.peers@[i] is None,
            peers_distinct(s.peers@),
    {
        RuntimeState {
            temp_centi: UNKNOWN_TEMPERATURE_CENTI,
            pid_deci: 0,
            relay_on: false,
            heat_on: false,
            sensor_status: SensorStatus::NoDevice.code(),
            led_red: 0,
            led_green: 0,
            led_blue: 0,
            http_activity: false,
            pid_window_step: 0,
            pid_on_steps: 0,
            pid_p_pct: 0,
            pid_i_pct: 0,
            pid_d_pct: 0,
            collection_enabled: false,
            ip: [0, 0, 0, 0],
            ip_valid: false,
            net_state: NetState::Unknown.code(),
            ntp_synced: false,
            ntp_anchor_ticks: 0,
            ntp_anchor_micros: 0,
            ntp_sync_count: 0,
            ntp_source: 0,
            ntp_server: [0, 0, 0, 0],
            peers: [None, None, None, None, None],
        }
    }
}

// ── Readings ─────────────────────────────────────────────────────────────────

/// The result of one control cycle.
#[derive(Clone, Copy, Debug)]
pub struct RuntimeSample {
    /// Measured temperature in sixteenths of a degree, as the probe gives it.
    pub temp_raw: i16,
    /// Commanded duty cycle in tenths of a percent, rounded down.
    pub pid_deci: u16,
    /// Cooling relay.
    pub heating_on: bool,
    /// Heating relay.
    pub heat_on: bool,
    pub led_red: u8,
    pub led_green: u8,
    pub led_blue: u8,
    pub pid_window_step: u8,
    pub pid_on_steps: u8,
    pub pid_p_pct: i8,
    pub pid_i_pct: i8,
    pub pid_d_pct: i8,
}

/// Sixteenths of a degree in hundredths, rounded towards zero.
pub open spec fn centi_of_raw(raw: int) -> int {
    if raw >= 0 {
        raw * 25 / 4
    } else {
        -(-raw * 25 / 4)
    }
}

/// Sixteenths of a degree in hundredths, rounded towards zero.
pub fn raw_to_centi(raw: i16) -> (r: i32)
    ensures
        r == centi_of_raw(raw as int),
        -204_800 <= r <= 204_800,
{
    if raw >= 0 {
        raw as i32 * 25 / 4
    } else {
        let magnitude: i32 = -(raw as i32);
        -(magnitude * 25 / 4)
    }
}

/// A reading in sixteenths of a degree is the same temperature in hundredths,
/// less than a hundredth nearer to zero.
pub proof fn hundredths_are_the_same_temperature(raw: int)
    ensures
        raw >= 0 ==> 16 * centi_of_raw(raw) <= 100 * raw < 16 * (centi_of_raw(raw) + 1),
        centi_of_raw(-raw) == -centi_of_raw(raw),
{
}

/// Publishes the result of a control cycle.
pub fn update_success(state: &mut RuntimeState, sample: RuntimeSample)
    ensures
        *final(state) == (RuntimeState {
            temp_centi: centi_of_raw(sample.temp_raw as int) as i32,
            pid_deci: sample.pid_deci,
            relay_on: sample.heating_on,
            heat_on: sample.heat_on,
            sensor_status: 0,
            led_red: sample.led_red,
            led_green: sample.led_green,
            led_blue: sample.led_blue,
            pid_window_step: sample.pid_window_step,
            pid_on_steps: sample.pid_on_steps,
            pid_p_pct: sample.pid_p_pct,
            pid_i_pct: sample.pid_i_pct,
            pid_d_pct: sample.pid_d_pct,
            ..*old(state)
        }),
{
    state.temp_centi = raw_to_centi(sample.temp_raw);
    state.pid_deci = sample.pid_deci;
    state.relay_on = sample.heating_on;
    state.heat_on = sample.heat_on;
    state.sensor_status = SensorStatus::Healthy.code();
    state.led_red = sample.led_red;
    state.led_green = sample.led_green;
    state.led_blue = sample.led_blue;
    state.pid_window_step = sample.pid_window_step;
    state.pid_on_steps = sample.pid_on_steps;
    state.pid_p_pct = sample.pid_p_pct;
    state.pid_i_pct = sample.pid_i_pct;
    state.pid_d_pct = sample.pid_d_pct;
}

/// Publishes a failed reading: no temperature, no output, both relays off.
pub fn update_error(
    state: &mut RuntimeState,
    error: SensorError,
    led_red: u8,
    led_green: u8,
    led_blue: u8,
)
    ensures
        *final(state) == (RuntimeState {
            temp_centi: UNKNOWN_TEMPERATURE_CENTI,
            pid_deci: 0,
            relay_on: false,
            heat_on: false,
            sensor_status: status_of_error(error).spec_code(),
            led_red,
            led_green,
            led_blue,
            pid_window_step: 0,
            pid_on_steps: 0,
            pid_p_pct: 0,
            pid_i_pct: 0,
            pid_d_pct: 0,
            ..*old(state)
        }),
{
    state.temp_centi = UNKNOWN_TEMPERATURE_CENTI;
    state.pid_deci = 0;
    state.relay_on = false;
    state.heat_on = false;
    state.sensor_status = SensorStatus::from(error).code();
    state.led_red = led_red;
    state.led_green = led_green;
    state.led_blue = led_blue;
    state.pid_window_step = 0;
    state.pid_on_steps = 0;
    state.pid_p_pct = 0;
    state.pid_i_pct = 0;
    state.pid_d_pct = 0;
}

/// Publishes the LED colour.
pub fn update_led(state: &mut RuntimeState, led_red: u8, led_green: u8, led_blue: u8)
    ensures
        *final(state) == (RuntimeState { led_red, led_green, led_blue, ..*old(state) }),
{
    state.led_red = led_red;
    state.led_green = led_green;
    state.led_blue = led_blue;
}

/// Whether history is being collected.
pub fn collection_enabled(state: &RuntimeState) -> (r: bool)
    ensures
        r == state.collection_enabled,
{
    state.collection_enabled
}

/// Starts or stops collecting history.
pub fn set_collection_enabled(state: &mut RuntimeState, enabled: bool)
    ensures
        *final(state) == (RuntimeState { collection_enabled: enabled, ..*old(state) }),
{
    state.collection_enabled = enabled;
}

/// Notes that an HTTP request came in.
pub fn http_request_received(state: &mut RuntimeState)
    ensures
        *final(state) == (RuntimeState { http_activity: true, ..*old(state) }),
{
    state.http_activity = true;
}

/// Whether an HTTP request came in since this was last asked.
pub fn http_request_activity(state: &mut RuntimeState) -> (r: bool)
    ensures
        r == old(state).http_activity,
        *final(state) == (RuntimeState { http_activity: false, ..*old(state) }),
{
    let seen: bool = state.http_activity;
    state.http_activity = false;
    seen
}

// ── NTP peers ────────────────────────────────────────────────────────────────

/// Whether a slot holds the peer with this source and address.
pub open spec fn is_peer(slot: Option<NtpPeerState>, source: NtpSource, address: Seq<u8>) -> bool {
    match slot {
        Some(peer) => peer.source == source && peer.address@ == address,
        None => false,
    }
}

/// The first slot at or after `from` that holds a peer, or the number of slots.
pub open spec fn peer_slot(
    peers: Seq<Option<NtpPeerState>>,
    source: NtpSource,
    address: Seq<u8>,
    from: int,
) -> int
    decreases peers.len() - from,
{
    if from < 0 || from >= peers.len() || is_peer(peers[from], source, address) {
        from
    } else {
        peer_slot(peers, source, address, from + 1)
    }
}

/// The first empty slot at or after `from`, or the number of slots.
pub open spec fn empty_slot(peers: Seq<Option<NtpPeerState>>, from: int) -> int
    decreases peers.len() - from,
{
    if from < 0 || from >= peers.len() || peers[from] is None {
        from
    } else {
        empty_slot(peers, from + 1)
    }
}

/// The slot that a peer has or would get, or the number of slots where the
/// table is full of others.
pub open spec fn slot_for(
    peers: Seq<Option<NtpPeerState>>,
    source: NtpSource,
    address: Seq<u8>,
) -> int {
    if peer_slot(peers, source, address, 0) < peers.len() {
        peer_slot(peers, source, address, 0)
    } else {
        empty_slot(peers, 0)
    }
}

/// Whether no peer stands in the table twice.
pub open spec fn peers_distinct(peers: Seq<Option<NtpPeerState>>) -> bool {
    forall|i: int, j: int|
        #![trigger peers[i], peers[j]]
        0 <= i < j < peers.len() ==> match peers[i] {
            Some(p) => !is_peer(peers[j], p.source, p.address@),
            None => true,
        }
}

/// A peer of which nothing is known yet.
pub open spec fn new_peer(source: NtpSource, address: [u8; 4]) -> NtpPeerState {
    NtpPeerState {
        address,
        has_sample: false,
        stratum: 0,
        latency_us: 0,
        last_latency_us: 0,
        jitter_us: 0,
        has_offset: false,
        offset_us: 0,
        last_offset_us: 0,
        offset_jitter_us: 0,
        success_count: 0,
        fail_count: 0,
        last_sync_uptime_s: 0,
        source,
    }
}

impl NtpPeerState {
    /// A peer of which nothing is known yet.
    pub fn new(source: NtpSource, address: [u8; 4]) -> (r: Self)
        ensures
            r == new_peer(source, address),
    {
        NtpPeerState {
            address,
            has_sample: false,
            stratum: 0,
            latency_us: 0,
            last_latency_us: 0,
            jitter_us: 0,
            has_offset: false,
            offset_us: 0,
            last_offset_us: 0,
            offset_jitter_us: 0,
            success_count: 0,
            fail_count: 0,
            last_sync_uptime_s: 0,
            source,
        }
    }
}

/// What happened to a peer.
#[derive(Clone, Copy, Debug)]
pub enum PeerUpdate {
    /// It became known.
    Seen,
    /// It did not answer.
    QueryFailed,
    /// It answered.
    Sample { stratum: u8, latency_us: u32, offset_us: Option<i32>, uptime_s: u32 },
}

/// A running mean of deviations: seven parts of the old mean and one of the
/// new deviation, each sum held within 32 bits.
pub open spec fn jitter_after(jitter: u32, delta: nat) -> u32 {
    let scaled = if 7 * jitter <= u32::MAX {
        7 * jitter
    } else {
        u32::MAX as int
    };
    let sum = if scaled + delta <= u32::MAX {
        scaled + delta
    } else {
        u32::MAX as int
    };
    (sum / 8) as u32
}

/// The distance of two numbers.
pub open spec fn distance(a: int, b: int) -> nat {
    if a < b {
        (b - a) as nat
    } else {
        (a - b) as nat
    }
}

/// One more, held within 32 bits.
pub open spec fn count_up(n: u32) -> u32 {
    if n < u32::MAX {
        (n + 1) as u32
    } else {
        n
    }
}

/// What is known of a peer after an update.
pub open spec fn updated(peer: NtpPeerState, update: PeerUpdate) -> NtpPeerState {
    match update {
        PeerUpdate::Seen => peer,
        PeerUpdate::QueryFailed => NtpPeerState { fail_count: count_up(peer.fail_count), ..peer },
        PeerUpdate::Sample { stratum, latency_us, offset_us, uptime_s } => {
            let timed = NtpPeerState {
                stratum,
                latency_us,
                jitter_us: if peer.has_sample {
                    jitter_after(
                        peer.jitter_us,
                        distance(latency_us as int, peer.last_latency_us as int),
                    )
                } else {
                    0
                },
                has_sample: true,
                last_latency_us: latency_us,
                success_count: count_up(peer.success_count),
                last_sync_uptime_s: uptime_s,
                ..peer
            };
            match offset_us {
                Some(offset) => NtpPeerState {
                    offset_jitter_us: if peer.has_offset {
                        jitter_after(
                            peer.offset_jitter_us,
                            distance(offset as int, peer.last_offset_us as int),
                        )
                    } else {
                        0
                    },
                    has_offset: true,
                    offset_us: offset,
                    last_offset_us: offset,
                    ..timed
                },
                None => timed,
            }
        },
    }
}

/// Computes a running mean of deviations.
fn mean_deviation(jitter: u32, delta: u32) -> (r: u32)
    ensures
        r == jitter_after(jitter, delta as nat),
{
    let scaled: u64 = jitter as u64 * 7;
    let capped: u64 = if scaled <= u32::MAX as u64 {
        scaled
    } else {
        u32::MAX as u64
    };
    let sum: u64 = capped + delta as u64;
    if sum <= u32::MAX as u64 {
        (sum / 8) as u32
    } else {
        u32::MAX / 8
    }
}

impl PeerUpdate {
    /// Brings what is known of a peer up to date.
    pub fn apply(self, peer: NtpPeerState) -> (r: NtpPeerState)
        ensures
            r == updated(peer, self),
    {
        let mut next: NtpPeerState = peer;
        match self {
            PeerUpdate::Seen => {},
            PeerUpdate::QueryFailed => {
                next.fail_count = peer.fail_count.saturating_add(1);
            },
            PeerUpdate::Sample { stratum, latency_us, offset_us, uptime_s } => {
                next.stratum = stratum;
                next.latency_us = latency_us;
                if peer.has_sample {
                    let delta: u32 = if latency_us < peer.last_latency_us {
                        peer.last_latency_us - latency_us
                    } else {
                        latency_us - peer.last_latency_us
                    };
                    next.jitter_us = mean_deviation(peer.jitter_us, delta);
                } else {
                    next.jitter_us = 0;
                    next.has_sample = true;
                }
                next.last_latency_us = latency_us;
                if let Some(offset) = offset_us {
                    if peer.has_offset {
                        let delta: u32 = if offset < peer.last_offset_us {
                            (peer.last_offset_us as i64 - offset as i64) as u32
                        } else {
                            (offset as i64 - peer.last_offset_us as i64) as u32
                        };
                        next.offset_jitter_us = mean_deviation(peer.offset_jitter_us, delta);
                    } else {
                        next.offset_jitter_us = 0;
                        next.has_offset = true;
                    }
                    next.offset_us = offset;
                    next.last_offset_us = offset;
                }
                next.success_count = peer.success_count.saturating_add(1);
                next.last_sync_uptime_s = uptime_s;
            },
        }
        next
    }
}

/// The peer that a slot holds, or a new one.
pub open spec fn peer_or_new(
    slot: Option<NtpPeerState>,
    source: NtpSource,
    address: [u8; 4],
) -> NtpPeerState {
    match slot {
        Some(peer) => peer,
        None => new_peer(source, address),
    }
}

/// The table after an update of one peer: the peer's slot is brought up to
/// date, or an empty one is taken for it, or nothing changes where the table
/// is full of others.
pub open spec fn peers_after(
    peers: Seq<Option<NtpPeerState>>,
    source: NtpSource,
    address: [u8; 4],
    update: PeerUpdate,
) -> Seq<Option<NtpPeerState>> {
    let slot = slot_for(peers, source, address@);
    if slot < peers.len() {
        peers.update(slot, Some(updated(peer_or_new(peers[slot], source, address), update)))
    } else {
        peers
    }
}

/// Whether two states differ in their NTP peers alone.
pub open spec fn same_but_peers(a: RuntimeState, b: RuntimeState) -> bool {
    b == (RuntimeState { peers: b.peers, ..a })
}

proof fn peer_slot_is(
    peers: Seq<Option<NtpPeerState>>,
    source: NtpSource,
    address: Seq<u8>,
    from: int,
)
    requires
        0 <= from <= peers.len(),
    ensures
        from <= peer_slot(peers, source, address, from) <= peers.len(),
        forall|k: int|
            from <= k < peer_slot(peers, source, address, from) ==> !is_peer(
                #[trigger] peers[k],
                source,
                address,
            ),
        peer_slot(peers, source, address, from) < peers.len() ==> is_peer(
            peers[peer_slot(peers, source, address, from)],
            source,
            address,
        ),
    decreases peers.len() - from,
{
    if from < peers.len() && !is_peer(peers[from], source, address) {
        peer_slot_is(peers, source, address, from + 1);
    }
}

proof fn empty_slot_is(peers: Seq<Option<NtpPeerState>>, from: int)
    requires
        0 <= from <= peers.len(),
    ensures
        from <= empty_slot(peers, from) <= peers.len(),
        empty_slot(peers, from) < peers.len() ==> peers[empty_slot(peers, from)] is None,
    decreases peers.len() - from,
{
    if from < peers.len() && peers[from] is Some {
        empty_slot_is(peers, from + 1);
    }
}

/// An update leaves no peer in the table twice.
pub proof fn peers_stay_distinct(
    peers: Seq<Option<NtpPeerState>>,
    source: NtpSource,
    address: [u8; 4],
    update: PeerUpdate,
)
    requires
        peers_distinct(peers),
    ensures
        peers_distinct(peers_after(peers, source, address, update)),
        peers_after(peers, source, address, update).len() == peers.len(),
{
    peer_slot_is(peers, source, address@, 0);
    empty_slot_is(peers, 0);
    let slot = slot_for(peers, source, address@);
    let after = peers_after(peers, source, address, update);
    if slot < peers.len() {
        let peer = peer_or_new(peers[slot], source, address);
        assert(updated(peer, update).source == source);
        assert(updated(peer, update).address@ == address@);
        assert forall|i: int, j: int|
            #![trigger after[i], after[j]]
            0 <= i < j < after.len() implies match after[i] {
            Some(p) => !is_peer(after[j], p.source, p.address@),
            None => true,
        } by {
            if i == slot {
                assert(after[j] == peers[j]);
                if peers[slot] is Some {
                    assert(is_peer(peers[slot], source, address@));
                    assert(peers[i] == peers[slot]);
                }
                assert(!is_peer(peers[j], source, address@));
            } else if j == slot {
                assert(after[i] == peers[i]);
                if peers[slot] is Some {
                    assert(is_peer(peers[slot], source, address@));
                    assert(peers[j] == peers[slot]);
                }
                assert(!is_peer(peers[i], source, address@));
            } else {
                assert(after[i] == peers[i] && after[j] == peers[j]);
            }
        }
    }
}

/// Brings one peer up to date.
fn update_ntp_peer(state: &mut RuntimeState, source: NtpSource, address: [u8; 4], update: PeerUpdate)
    ensures
        same_but_peers(*old(state), *final(state)),
        final(state).peers@ == peers_after(old(state).peers@, source, address, update),
        peers_distinct(old(state).peers@) ==> peers_distinct(final(state).peers@),
{
    let ghost before = state.peers@;
    proof {
        if peers_distinct(before) {
            peers_stay_distinct(before, source, address, update);
        }
        empty_slot_is(before, 0);
    }
    let mut target: usize = NTP_MAX_TRACKED_PEERS;
    let mut empty: usize = NTP_MAX_TRACKED_PEERS;
    let mut index: usize = 0;
    while index < NTP_MAX_TRACKED_PEERS && target == NTP_MAX_TRACKED_PEERS
        invariant
            index <= NTP_MAX_TRACKED_PEERS,
            state.peers@ == before,
            before.len() == NTP_MAX_TRACKED_PEERS,
            empty <= NTP_MAX_TRACKED_PEERS,
            target == NTP_MAX_TRACKED_PEERS ==> peer_slot(before, source, address@, 0)
                == peer_slot(before, source, address@, index as int),
            target != NTP_MAX_TRACKED_PEERS ==> target < NTP_MAX_TRACKED_PEERS && target
                == peer_slot(before, source, address@, 0),
            empty == NTP_MAX_TRACKED_PEERS ==> empty_slot(before, 0) == empty_slot(
                before,
                index as int,
            ),
            empty != NTP_MAX_TRACKED_PEERS ==> empty == empty_slot(before, 0),
        decreases NTP_MAX_TRACKED_PEERS - index, NTP_MAX_TRACKED_PEERS - target,
    {
        match state.peers[index] {
            Some(peer) => {
                if peer.source == source && bytes_equal(&peer.address, &address) {
                    target = index;
                }
            },
            None => {
                if empty == NTP_MAX_TRACKED_PEERS {
                    empty = index;
                }
            },
        }
        index = index + 1;
    }
    proof {
        peer_slot_is(before, source, address@, 0);
    }
    let slot: usize = if target != NTP_MAX_TRACKED_PEERS {
        target
    } else {
        empty
    };
    assert(slot == slot_for(before, source, address@));
    if slot < NTP_MAX_TRACKED_PEERS {
        let peer: NtpPeerState = match state.peers[slot] {
            Some(peer) => peer,
            None => NtpPeerState::new(source, address),
        };
        state.peers[slot] = Some(update.apply(peer));
    }
}

/// The table without the peers of one source.
pub open spec fn without_source(peers: Seq<Option<NtpPeerState>>, source: NtpSource) -> Seq<
    Option<NtpPeerState>,
> {
    peers.map_values(
        |slot: Option<NtpPeerState>|
            match slot {
                Some(peer) => if peer.source == source {
                    None
                } else {
                    slot
                },
                None => None,
            },
    )
}

/// Forgets the peers of one source.
fn clear_ntp_peers_by_source(state: &mut RuntimeState, source: NtpSource)
    ensures
        same_but_peers(*old(state), *final(state)),
        final(state).peers@ == without_source(old(state).peers@, source),
        peers_distinct(old(state).peers@) ==> peers_distinct(final(state).peers@),
{
    let ghost before = state.peers@;
    let mut i: usize = 0;
    while i < NTP_MAX_TRACKED_PEERS
        invariant
            i <= NTP_MAX_TRACKED_PEERS,
            same_but_peers(*old(state), *state),
            before == old(state).peers@,
            before.len() == NTP_MAX_TRACKED_PEERS,
            forall|k: int|
                0 <= k < i ==> #[trigger] state.peers@[k] == without_source(before, source)[k],
            forall|k: int| i <= k < NTP_MAX_TRACKED_PEERS ==> #[trigger] state.peers@[k] == before[k],
        decreases NTP_MAX_TRACKED_PEERS - i,
    {
        if let Some(peer) = state.peers[i] {
            if peer.source == source {
                state.peers[i] = None;
            }
        }
        i = i + 1;
    }
    assert(state.peers@ =~= without_source(before, source));
}

/// The table without the DHCP gateways other than one.
pub open spec fn without_other_gateways(
    peers: Seq<Option<NtpPeerState>>,
    server: Seq<u8>,
) -> Seq<Option<NtpPeerState>> {
    peers.map_values(
        |slot: Option<NtpPeerState>|
            match slot {
                Some(peer) => if peer.source == NtpSource::DhcpGateway && peer.address@ != server {
                    None
                } else {
                    slot
                },
                None => None,
            },
    )
}

/// Makes one server the DHCP gateway among the peers.
pub fn update_dhcp_ntp_server(state: &mut RuntimeState, server: [u8; 4])
    ensures
        same_but_peers(*old(state), *final(state)),
        final(state).peers@ == peers_after(
            without_other_gateways(old(state).peers@, server@),
            NtpSource::DhcpGateway,
            server,
            PeerUpdate::Seen,
        ),
        peers_distinct(old(state).peers@) ==> peers_distinct(final(state).peers@),
{
    let ghost before = state.peers@;
    let mut i: usize = 0;
    while i < NTP_MAX_TRACKED_PEERS
        invariant
            i <= NTP_MAX_TRACKED_PEERS,
            same_but_peers(*old(state), *state),
            before == old(state).peers@,
            before.len() == NTP_MAX_TRACKED_PEERS,
            forall|k: int|
                0 <= k < i ==> #[trigger] state.peers@[k] == without_other_gateways(
                    before,
                    server@,
                )[k],
            forall|k: int| i <= k < NTP_MAX_TRACKED_PEERS ==> #[trigger] state.peers@[k] == before[k],
        decreases NTP_MAX_TRACKED_PEERS - i,
    {
        if let Some(peer) = state.peers[i] {
            if peer.source == NtpSource::DhcpGateway && !bytes_equal(&peer.address, &server) {
                state.peers[i] = None;
            }
        }
        i = i + 1;
    }
    assert(state.peers@ =~= without_other_gateways(before, server@));
    update_ntp_peer(state, NtpSource::DhcpGateway, server, PeerUpdate::Seen);
}

/// Counts a query that a peer did not answer.
pub fn mark_ntp_peer_query_failed(state: &mut RuntimeState, source: NtpSource, server: [u8; 4])
    ensures
        same_but_peers(*old(state), *final(state)),
        final(state).peers@ == peers_after(
            old(state).peers@,
            source,
            server,
            PeerUpdate::QueryFailed,
        ),
        peers_distinct(old(state).peers@) ==> peers_distinct(final(state).peers@),
{
    update_ntp_peer(state, source, server, PeerUpdate::QueryFailed);
}

/// The uptime in whole seconds, as 32 bits hold it.
pub open spec fn uptime_of(ticks: u64, tick_hz: u64) -> u32 {
    (ticks / tick_hz % 0x1_0000_0000) as u32
}

/// The uptime in whole seconds, as 32 bits hold it.
pub fn uptime_seconds(ticks: u64, tick_hz: u64) -> (r: u32)
    requires
        tick_hz > 0,
    ensures
        r == uptime_of(ticks, tick_hz),
{
    (ticks / tick_hz % 0x1_0000_0000) as u32
}

/// Takes in a peer's answer.
pub fn update_ntp_peer_stats(
    state: &mut RuntimeState,
    source: NtpSource,
    server: [u8; 4],
    stratum: u8,
    latency_us: u32,
    offset_us: Option<i32>,
    now_ticks: u64,
    tick_hz: u64,
)
    requires
        tick_hz > 0,
    ensures
        same_but_peers(*old(state), *final(state)),
        final(state).peers@ == peers_after(
            old(state).peers@,
            source,
            server,
            PeerUpdate::Sample {
                stratum,
                latency_us,
                offset_us,
                uptime_s: uptime_of(now_ticks, tick_hz),
            },
        ),
        peers_distinct(old(state).peers@) ==> peers_distinct(final(state).peers@),
{
    let uptime_s: u32 = uptime_seconds(now_ticks, tick_hz);
    update_ntp_peer(
        state,
        source,
        server,
        PeerUpdate::Sample { stratum, latency_us, offset_us, uptime_s },
    );
}

/// Microseconds in milliseconds, rounded half up.
pub open spec fn ms_rounded(us: u32) -> u32 {
    if us <= u32::MAX - 500 {
        ((us + 500) / 1000) as u32
    } else {
        u32::MAX / 1000
    }
}

/// Microseconds in milliseconds, rounded up.
pub open spec fn ms_ceil(us: u32) -> u32 {
    if us <= u32::MAX - 999 {
        ((us + 999) / 1000) as u32
    } else {
        u32::MAX / 1000
    }
}

fn micros_to_ms_rounded(us: u32) -> (r: u32)
    ensures
        r == ms_rounded(us),
{
    us.saturating_add(500) / 1_000
}

fn micros_to_ms_ceil_nonzero(us: u32) -> (r: u32)
    ensures
        r == ms_ceil(us),
{
    if us == 0 {
        0
    } else {
        us.saturating_add(999) / 1_000
    }
}

/// What the choice of a master looks at in a peer: its offset jitter where it
/// has one, its latency jitter otherwise.
pub open spec fn selection_of(peer: NtpPeerState) -> NtpSelectionSample {
    NtpSelectionSample {
        stratum: peer.stratum,
        latency_ms: ms_rounded(peer.latency_us),
        jitter_ms: if peer.has_offset {
            ms_ceil(peer.offset_jitter_us)
        } else {
            ms_ceil(peer.jitter_us)
        },
    }
}

/// The first slot at or after `from` of a peer that has answered before.
pub open spec fn sampled_slot(
    peers: Seq<Option<NtpPeerState>>,
    source: NtpSource,
    address: Seq<u8>,
    from: int,
) -> int
    decreases peers.len() - from,
{
    if from < 0 || from >= peers.len() || (is_peer(peers[from], source, address)
        && peers[from]->0.has_sample) {
        from
    } else {
        sampled_slot(peers, source, address, from + 1)
    }
}

/// What the choice of a master looks at in a peer, if it has answered before.
pub open spec fn selection_in(
    peers: Seq<Option<NtpPeerState>>,
    source: NtpSource,
    address: Seq<u8>,
) -> Option<NtpSelectionSample> {
    let slot = sampled_slot(peers, source, address, 0);
    if slot < peers.len() {
        Some(selection_of(peers[slot]->0))
    } else {
        None
    }
}

/// What the choice of a master looks at in a peer, if it has answered before.
pub fn ntp_selection_sample(state: &RuntimeState, source: NtpSource, server: [u8; 4]) -> (r: Option<
    NtpSelectionSample,
>)
    ensures
        r == selection_in(state.peers@, source, server@),
{
    let mut i: usize = 0;
    while i < NTP_MAX_TRACKED_PEERS
        invariant
            i <= NTP_MAX_TRACKED_PEERS,
            sampled_slot(state.peers@, source, server@, 0) == sampled_slot(
                state.peers@,
                source,
                server@,
                i as int,
            ),
        decreases NTP_MAX_TRACKED_PEERS - i,
    {
        if let Some(peer) = state.peers[i] {
            if peer.source == source && bytes_equal(&peer.address, &server) && peer.has_sample {
                return Some(
                    NtpSelectionSample {
                        stratum: peer.stratum,
                        latency_ms: micros_to_ms_rounded(peer.latency_us),
                        jitter_ms: if peer.has_offset {
                            micros_to_ms_ceil_nonzero(peer.offset_jitter_us)
                        } else {
                            micros_to_ms_ceil_nonzero(peer.jitter_us)
                        },
                    },
                );
            }
        }
        i = i + 1;
    }
    None
}

/// What the choice of a master looks at are the stratum of the peer, its
/// latency in milliseconds to the nearest one, and how much its offset, or its
/// latency where no offset is known, goes up and down, in milliseconds rounded
/// up.
pub proof fn selection_tells_of_the_peer(peer: NtpPeerState)
    requires
        peer.latency_us <= u32::MAX - 500,
        peer.jitter_us <= u32::MAX - 999,
        peer.offset_jitter_us <= u32::MAX - 999,
    ensures
        ({
            let seen = selection_of(peer);
            let jitter_us = if peer.has_offset {
                peer.offset_jitter_us
            } else {
                peer.jitter_us
            };
            &&& seen.stratum == peer.stratum
            &&& 1000 * seen.latency_ms <= peer.latency_us + 500 < 1000 * seen.latency_ms + 1000
            &&& 1000 * seen.jitter_ms >= jitter_us
            &&& 1000 * seen.jitter_ms < jitter_us + 1000
        }),
{
}

/// An answer counts once, with its own stratum, latency and offset, and as of
/// its own time. A first answer has no jitter. A query without an answer counts
/// as a failure and changes nothing else.
pub proof fn peers_are_counted(
    peer: NtpPeerState,
    stratum: u8,
    latency_us: u32,
    offset_us: Option<i32>,
    uptime_s: u32,
)
    requires
        peer.success_count < u32::MAX,
        peer.fail_count < u32::MAX,
    ensures
        ({
            let next = updated(
                peer,
                PeerUpdate::Sample { stratum, latency_us, offset_us, uptime_s },
            );
            &&& next.success_count == peer.success_count + 1
            &&& next.fail_count == peer.fail_count
            &&& next.stratum == stratum
            &&& next.latency_us == latency_us
            &&& next.last_latency_us == latency_us
            &&& next.last_sync_uptime_s == uptime_s
            &&& next.has_sample
            &&& next.address == peer.address && next.source == peer.source
            &&& !peer.has_sample ==> next.jitter_us == 0
            &&& offset_us matches Some(offset) ==> next.has_offset && next.offset_us == offset
                && next.last_offset_us == offset && (!peer.has_offset ==> next.offset_jitter_us
                == 0)
            &&& offset_us is None ==> next.has_offset == peer.has_offset && next.offset_us
                == peer.offset_us && next.offset_jitter_us == peer.offset_jitter_us
        }),
        updated(peer, PeerUpdate::QueryFailed) == (NtpPeerState {
            fail_count: (peer.fail_count + 1) as u32,
            ..peer
        }),
        updated(peer, PeerUpdate::Seen) == peer,
{
}

/// The jitter of a peer moves an eighth of the way from what it was to the
/// newest deviation, be it up or down.
pub proof fn jitter_follows_the_deviation(peer: NtpPeerState, latency_us: u32, offset: i32)
    requires
        peer.has_sample,
        peer.has_offset,
        peer.jitter_us <= 0x1000_0000,
        peer.offset_jitter_us <= 0x1000_0000,
        peer.last_latency_us <= 0x1000_0000,
        latency_us <= 0x1000_0000,
        -0x800_0000 <= peer.last_offset_us <= 0x800_0000,
        -0x800_0000 <= offset <= 0x800_0000,
    ensures
        ({
            let next = updated(
                peer,
                PeerUpdate::Sample {
                    stratum: peer.stratum,
                    latency_us,
                    offset_us: Some(offset),
                    uptime_s: 0,
                },
            );
            let moved = if latency_us >= peer.last_latency_us {
                latency_us - peer.last_latency_us
            } else {
                peer.last_latency_us - latency_us
            };
            let drifted = if offset >= peer.last_offset_us {
                offset - peer.last_offset_us
            } else {
                peer.last_offset_us - offset
            };
            &&& 8 * next.jitter_us <= 7 * peer.jitter_us + moved < 8 * next.jitter_us + 8
            &&& 8 * next.offset_jitter_us <= 7 * peer.offset_jitter_us + drifted < 8
                * next.offset_jitter_us + 8
        }),
{
}

/// An update changes the slot of its peer alone, or takes one empty slot for a
/// peer that is not in the table, and changes nothing where there is none.
pub proof fn an_update_touches_one_peer(
    peers: Seq<Option<NtpPeerState>>,
    source: NtpSource,
    address: [u8; 4],
    update: PeerUpdate,
    i: int,
)
    requires
        peers_distinct(peers),
        0 <= i < peers.len(),
    ensures
        ({
            let after = peers_after(peers, source, address, update);
            &&& after.len() == peers.len()
            &&& peers[i] matches Some(p) ==> after[i] == Some(
                if p.source == source && p.address@ == address@ {
                    updated(p, update)
                } else {
                    p
                },
            )
            &&& peers[i] is None && after[i] is Some ==> after[i] == Some(
                updated(new_peer(source, address), update),
            ) && forall|k: int|
                0 <= k < peers.len() ==> !is_peer(#[trigger] peers[k], source, address@)
            &&& peers[i] is None && (forall|k: int|
                0 <= k < peers.len() ==> !is_peer(#[trigger] peers[k], source, address@))
                ==> exists|k: int| 0 <= k < peers.len() && is_peer(#[trigger] after[k], source, address@)
        }),
{
    peer_slot_is(peers, source, address@, 0);
    empty_slot_is(peers, 0);
    empty_slot_before(peers, 0, i);
    let slot = slot_for(peers, source, address@);
    let after = peers_after(peers, source, address, update);
    if slot < peers.len() {
        assert(is_peer(after[slot], source, address@));
        if slot != i && is_peer(peers[i], source, address@) {
            assert(is_peer(peers[slot], source, address@));
            if slot < i {
                assert(peers[slot] is Some);
                assert(!is_peer(peers[i], peers[slot]->0.source, peers[slot]->0.address@));
            } else {
                assert(!is_peer(peers[slot], peers[i]->0.source, peers[i]->0.address@));
            }
        }
    }
}

/// An empty slot is not searched past.
proof fn empty_slot_before(peers: Seq<Option<NtpPeerState>>, from: int, i: int)
    requires
        0 <= from <= i < peers.len(),
    ensures
        peers[i] is None ==> empty_slot(peers, from) <= i,
    decreases i - from,
{
    if from < i {
        empty_slot_before(peers, from + 1, i);
    }
}

/// An answer is compared with others by what it says itself: its stratum, and
/// its latency to the nearest millisecond. It has no jitter where the peer was
/// not known before.
pub proof fn an_answer_counts_as_it_came(
    peers: Seq<Option<NtpPeerState>>,
    source: NtpSource,
    address: [u8; 4],
    stratum: u8,
    latency_us: u32,
    offset_us: Option<i32>,
    uptime_s: u32,
)
    requires
        peers_distinct(peers),
        latency_us <= u32::MAX - 500,
    ensures
        ({
            let after = peers_after(
                peers,
                source,
                address,
                PeerUpdate::Sample { stratum, latency_us, offset_us, uptime_s },
            );
            let known = exists|k: int|
                0 <= k < peers.len() && is_peer(#[trigger] peers[k], source, address@);
            &&& selection_in(after, source, address@) matches Some(seen) ==> {
                &&& seen.stratum == stratum
                &&& 1000 * seen.latency_ms <= latency_us + 500 < 1000 * seen.latency_ms + 1000
                &&& !known ==> seen.jitter_ms == 0
            }
            &&& known ==> selection_in(after, source, address@) is Some
        }),
{
    let update = PeerUpdate::Sample { stratum, latency_us, offset_us, uptime_s };
    let after = peers_after(peers, source, address, update);
    let slot = slot_for(peers, source, address@);
    peer_slot_is(peers, source, address@, 0);
    empty_slot_is(peers, 0);
    peers_stay_distinct(peers, source, address, update);
    sampled_slot_is(after, source, address@, 0);
    let k = sampled_slot(after, source, address@, 0);
    if slot < peers.len() {
        assert(is_peer(after[slot], source, address@));
        assert(after[slot]->0.has_sample);
        if k < after.len() && k != slot {
            if k < slot {
                assert(!is_peer(after[slot], after[k]->0.source, after[k]->0.address@));
            } else {
                assert(!is_peer(after[k], after[slot]->0.source, after[slot]->0.address@));
            }
        }
    } else if k < after.len() {
        assert(after[k] == peers[k]);
        assert(is_peer(peers[k], source, address@));
    }
}

proof fn sampled_slot_is(
    peers: Seq<Option<NtpPeerState>>,
    source: NtpSource,
    address: Seq<u8>,
    from: int,
)
    requires
        0 <= from <= peers.len(),
    ensures
        from <= sampled_slot(peers, source, address, from) <= peers.len(),
        sampled_slot(peers, source, address, from) < peers.len() ==> is_peer(
            peers[sampled_slot(peers, source, address, from)],
            source,
            address,
        ),
        forall|k: int|
            from <= k < sampled_slot(peers, source, address, from) ==> !is_peer(
                #[trigger] peers[k],
                source,
                address,
            ) || !peers[k]->0.has_sample,
    decreases peers.len() - from,
{
    if from < peers.len() && !(is_peer(peers[from], source, address) && peers[from]->0.has_sample) {
        sampled_slot_is(peers, source, address, from + 1);
    }
}

/// Where the peers of a source are forgotten, all others stay, and where one
/// gateway takes over, all peers stay but other gateways.
pub proof fn only_stale_peers_are_forgotten(
    peers: Seq<Option<NtpPeerState>>,
    source: NtpSource,
    server: Seq<u8>,
    i: int,
)
    requires
        0 <= i < peers.len(),
    ensures
        without_source(peers, source).len() == peers.len(),
        without_other_gateways(peers, server).len() == peers.len(),
        peers[i] is None ==> without_source(peers, source)[i] is None && without_other_gateways(
            peers,
            server,
        )[i] is None,
        peers[i] matches Some(p) ==> {
            &&& p.source == source ==> without_source(peers, source)[i] is None
            &&& p.source != source ==> without_source(peers, source)[i] == Some(p)
            &&& p.source == NtpSource::DhcpGateway && p.address@ != server
                ==> without_other_gateways(peers, server)[i] is None
            &&& p.source != NtpSource::DhcpGateway || p.address@ == server
                ==> without_other_gateways(peers, server)[i] == Some(p)
        },
{
}

/// A peer as the status documents report it.
#[derive(Clone, Copy, Debug)]
pub struct NtpPeerSnapshot {
    pub address: [u8; 4],
    pub has_sample: bool,
    pub stratum: u8,
    pub latency_us: u32,
    pub jitter_us: u32,
    pub offset_us: Option<i32>,
    pub offset_jitter_us: Option<u32>,
    pub success_count: u32,
    pub fail_count: u32,
    pub last_sync_uptime_s: u32,
    pub source: NtpSource,
}

/// The report on a peer.
pub open spec fn snapshot_of(peer: NtpPeerState) -> NtpPeerSnapshot {
    NtpPeerSnapshot {
        address: peer.address,
        has_sample: peer.has_sample,
        stratum: peer.stratum,
        latency_us: peer.latency_us,
        jitter_us: peer.jitter_us,
        offset_us: if peer.has_offset {
            Some(peer.offset_us)
        } else {
            None
        },
        offset_jitter_us: if peer.has_offset {
            Some(peer.offset_jitter_us)
        } else {
            None
        },
        success_count: peer.success_count,
        fail_count: peer.fail_count,
        last_sync_uptime_s: peer.last_sync_uptime_s,
        source: peer.source,
    }
}

/// The reports on the peers of a table, in order.
pub open spec fn snapshots_of(peers: Seq<Option<NtpPeerState>>) -> Seq<NtpPeerSnapshot>
    decreases peers.len(),
{
    if peers.len() == 0 {
        Seq::empty()
    } else {
        let before = snapshots_of(peers.drop_last());
        match peers.last() {
            Some(peer) => before.push(snapshot_of(peer)),
            None => before,
        }
    }
}

proof fn snapshots_fit(peers: Seq<Option<NtpPeerState>>)
    ensures
        snapshots_of(peers).len() <= peers.len(),
    decreases peers.len(),
{
    if peers.len() > 0 {
        snapshots_fit(peers.drop_last());
    }
}

/// Every peer in the table is reported once, in the order of the table, with
/// what is known of it, and with an offset only where one is known.
pub proof fn every_peer_is_reported(
    peers: Seq<Option<NtpPeerState>>,
    more: Seq<Option<NtpPeerState>>,
    peer: NtpPeerState,
)
    ensures
        snapshots_of(peers + more) == snapshots_of(peers) + snapshots_of(more),
        snapshots_of(seq![None]) == Seq::<NtpPeerSnapshot>::empty(),
        snapshots_of(seq![Some(peer)]).len() == 1,
        ({
            let report = snapshots_of(seq![Some(peer)])[0];
            &&& report.address == peer.address && report.source == peer.source
            &&& report.has_sample == peer.has_sample && report.stratum == peer.stratum
            &&& report.latency_us == peer.latency_us && report.jitter_us == peer.jitter_us
            &&& report.success_count == peer.success_count && report.fail_count == peer.fail_count
            &&& report.last_sync_uptime_s == peer.last_sync_uptime_s
            &&& peer.has_offset ==> report.offset_us == Some(peer.offset_us)
                && report.offset_jitter_us == Some(peer.offset_jitter_us)
            &&& !peer.has_offset ==> report.offset_us is None && report.offset_jitter_us is None
        }),
    decreases more.len(),
{
    reveal_with_fuel(snapshots_of, 2);
    let none: Seq<Option<NtpPeerState>> = seq![None];
    let one = seq![Some(peer)];
    assert(none.drop_last().len() == 0 && one.drop_last().len() == 0);
    if more.len() == 0 {
        assert(peers + more == peers);
    } else {
        every_peer_is_reported(peers, more.drop_last(), peer);
        assert((peers + more).drop_last() == peers + more.drop_last());
        assert((peers + more).last() == more.last());
    }
}

/// The reports on all peers.
pub fn ntp_peers_snapshot(state: &RuntimeState) -> (r: heapless::Vec<
    NtpPeerSnapshot,
    NTP_MAX_TRACKED_PEERS,
>)
    ensures
        snapshots(r) == snapshots_of(state.peers@),
{
    let mut list = snapshots_new();
    let mut i: usize = 0;
    assert(state.peers@.take(0) == Seq::<Option<NtpPeerState>>::empty());
    while i < NTP_MAX_TRACKED_PEERS
        invariant
            i <= NTP_MAX_TRACKED_PEERS,
            snapshots(list) == snapshots_of(state.peers@.take(i as int)),
        decreases NTP_MAX_TRACKED_PEERS - i,
    {
        assert(state.peers@.take(i + 1).drop_last() == state.peers@.take(i as int));
        proof {
            snapshots_fit(state.peers@.take(i as int));
        }
        if let Some(peer) = state.peers[i] {
            let snapshot: NtpPeerSnapshot = NtpPeerSnapshot {
                address: peer.address,
                has_sample: peer.has_sample,
                stratum: peer.stratum,
                latency_us: peer.latency_us,
                jitter_us: peer.jitter_us,
                offset_us: if peer.has_offset {
                    Some(peer.offset_us)
                } else {
                    None
                },
                offset_jitter_us: if peer.has_offset {
                    Some(peer.offset_jitter_us)
                } else {
                    None
                },
                success_count: peer.success_count,
                fail_count: peer.fail_count,
                last_sync_uptime_s: peer.last_sync_uptime_s,
                source: peer.source,
            };
            let pushed: Result<(), NtpPeerSnapshot> = snapshots_push(&mut list, snapshot);
        }
        i = i + 1;
    }
    assert(state.peers@.take(i as int) == state.peers@);
    list
}

// ── Network ──────────────────────────────────────────────────────────────────

/// Whether a state is what another becomes without a valid IP address: only
/// the address is given up and the network state noted.
pub open spec fn ip_lost(a: RuntimeState, b: RuntimeState, state: NetState) -> bool {
    b == (RuntimeState { ip_valid: false, net_state: state.spec_code(), peers: b.peers, ..a })
}

fn mark_ip_invalid(state: &mut RuntimeState, net: NetState)
    ensures
        *final(state) == (RuntimeState {
            ip_valid: false,
            net_state: net.spec_code(),
            ..*old(state)
        }),
{
    state.ip_valid = false;
    state.net_state = net.code();
}

fn reset_dhcp_ntp_state(state: &mut RuntimeState)
    ensures
        same_but_peers(*old(state), *final(state)),
        final(state).peers@ == without_source(old(state).peers@, NtpSource::DhcpGateway),
        peers_distinct(old(state).peers@) ==> peers_distinct(final(state).peers@),
{
    clear_ntp_peers_by_source(state, NtpSource::DhcpGateway);
}

/// The part of an address in CIDR notation before the slash.
pub open spec fn before_slash(s: Seq<char>) -> Seq<char> {
    s.take(first_in(s, seq!['/'], 0))
}

/// Takes in the address that DHCP gave, in CIDR notation or plain.
pub fn update_ip_from_cidr(state: &mut RuntimeState, ip_or_cidr: &str)
    ensures
        match ipv4_of(before_slash(ip_or_cidr@)) {
            Some(ip) => {
                &&& final(state).ip@ == ip
                &&& *final(state) == (RuntimeState {
                    ip: final(state).ip,
                    ip_valid: true,
                    net_state: NetState::HasIp.spec_code(),
                    ..*old(state)
                })
            },
            None => *final(state) == (RuntimeState {
                ip_valid: false,
                net_state: NetState::DhcpPending.spec_code(),
                ..*old(state)
            }),
        },
{
    let chars: Vec<char> = to_chars(ip_or_cidr);
    let slash: [char; 1] = ['/'];
    assert(slash@ == seq!['/']);
    let end: usize = find_any_char(chars.as_slice(), &slash);
    let ip: &[char] = slice_subrange(chars.as_slice(), 0, end);
    assert(ip@ == before_slash(ip_or_cidr@));
    match parse_ipv4_chars(ip) {
        Some(octets) => {
            state.ip = octets;
            state.ip_valid = true;
            state.net_state = NetState::HasIp.code();
        },
        None => {
            mark_ip_invalid(state, NetState::DhcpPending);
        },
    }
}

/// Gives up the address: the network configuration is lost.
pub fn clear_ip(state: &mut RuntimeState)
    ensures
        ip_lost(*old(state), *final(state), NetState::LinkDown),
        final(state).peers@ == without_source(old(state).peers@, NtpSource::DhcpGateway),
        peers_distinct(old(state).peers@) ==> peers_distinct(final(state).peers@),
{
    mark_net_link_down(state);
}

/// Notes that there is no link.
pub fn mark_net_link_down(state: &mut RuntimeState)
    ensures
        ip_lost(*old(state), *final(state), NetState::LinkDown),
        final(state).peers@ == without_source(old(state).peers@, NtpSource::DhcpGateway),
        peers_distinct(old(state).peers@) ==> peers_distinct(final(state).peers@),
{
    mark_ip_invalid(state, NetState::LinkDown);
    reset_dhcp_ntp_state(state);
}

/// Notes that the link is up and DHCP has not answered yet.
pub fn mark_net_dhcp_pending(state: &mut RuntimeState)
    ensures
        ip_lost(*old(state), *final(state), NetState::DhcpPending),
        final(state).peers@ == without_source(old(state).peers@, NtpSource::DhcpGateway),
        peers_distinct(old(state).peers@) ==> peers_distinct(final(state).peers@),
{
    mark_ip_invalid(state, NetState::DhcpPending);
    reset_dhcp_ntp_state(state);
}

/// The device's address, if it has one.
pub fn ip_octets(state: &RuntimeState) -> (r: Option<[u8; 4]>)
    ensures
        r == (if state.ip_valid {
            Some(state.ip)
        } else {
            None
        }),
{
    if !state.ip_valid {
        return None;
    }
    Some(state.ip)
}

// ── Time ─────────────────────────────────────────────────────────────────────

/// Takes in the time of the chosen NTP master. The server sent it half a round
/// trip before it was received.
pub fn update_ntp_time(
    state: &mut RuntimeState,
    unix_ts: u32,
    ntp_frac_us: u32,
    recv_ticks: u64,
    latency_us: u32,
    server: [u8; 4],
    source: NtpSource,
)
    ensures
        *final(state) == (RuntimeState {
            ntp_anchor_ticks: recv_ticks,
            ntp_anchor_micros: (unix_ts * 1_000_000 + ntp_frac_us + latency_us / 2) as u64,
            ntp_synced: true,
            ntp_sync_count: old(state).ntp_sync_count.wrapping_add(1),
            ntp_server: server,
            ntp_source: source.spec_code(),
            ..*old(state)
        }),
        final(state).ntp_anchor_micros == unix_ts * 1_000_000 + ntp_frac_us + latency_us / 2,
        latency_us - 1 <= 2 * (final(state).ntp_anchor_micros - unix_ts * 1_000_000 - ntp_frac_us)
            <= latency_us,
{
    state.ntp_anchor_ticks = recv_ticks;
    state.ntp_anchor_micros = unix_ts as u64 * 1_000_000 + ntp_frac_us as u64 + latency_us as u64
        / 2;
    state.ntp_synced = true;
    state.ntp_sync_count = state.ntp_sync_count.wrapping_add(1);
    state.ntp_server = server;
    state.ntp_source = source.code();
}

/// A value held within 64 bits.
pub open spec fn cap64(v: int) -> int {
    if v <= u64::MAX {
        v
    } else {
        u64::MAX as int
    }
}

/// The Unix time in microseconds: that of the last sync and what has passed
/// since, once there was one.
pub open spec fn micros_at(state: RuntimeState, now_ticks: u64, tick_hz: u64) -> Option<int> {
    if state.ntp_synced {
        let elapsed = if now_ticks >= state.ntp_anchor_ticks {
            now_ticks - state.ntp_anchor_ticks
        } else {
            0
        };
        Some(cap64(state.ntp_anchor_micros + cap64(elapsed * 1_000_000) / tick_hz as int))
    } else {
        None
    }
}

/// The Unix time in microseconds, once the clock was synced.
pub fn current_unix_time_micros(state: &RuntimeState, now_ticks: u64, tick_hz: u64) -> (r: Option<
    u64,
>)
    requires
        tick_hz > 0,
    ensures
        match r {
            Some(v) => micros_at(*state, now_ticks, tick_hz) == Some(v as int),
            None => micros_at(*state, now_ticks, tick_hz) is None,
        },
{
    if !state.ntp_synced {
        return None;
    }
    let elapsed_ticks: u64 = now_ticks.saturating_sub(state.ntp_anchor_ticks);
    let elapsed_scaled: u64 = match elapsed_ticks.checked_mul(1_000_000) {
        Some(v) => v,
        None => u64::MAX,
    };
    let elapsed_us: u64 = elapsed_scaled / tick_hz;
    Some(state.ntp_anchor_micros.saturating_add(elapsed_us))
}

/// The Unix time in milliseconds, once the clock was synced.
pub fn current_unix_time_millis(state: &RuntimeState, now_ticks: u64, tick_hz: u64) -> (r: Option<
    u64,
>)
    requires
        tick_hz > 0,
    ensures
        match r {
            Some(v) => micros_at(*state, now_ticks, tick_hz) matches Some(us) && v == us / 1000,
            None => micros_at(*state, now_ticks, tick_hz) is None,
        },
{
    match current_unix_time_micros(state, now_ticks, tick_hz) {
        Some(us) => Some(us / 1_000),
        None => None,
    }
}

/// The Unix time in seconds, as 32 bits hold it.
pub open spec fn seconds_at(state: RuntimeState, now_ticks: u64, tick_hz: u64) -> Option<u32> {
    match micros_at(state, now_ticks, tick_hz) {
        Some(us) => Some((us / 1_000_000 % 0x1_0000_0000) as u32),
        None => None,
    }
}

/// The Unix time in seconds, once the clock was synced.
pub fn current_unix_time(state: &RuntimeState, now_ticks: u64, tick_hz: u64) -> (r: Option<u32>)
    requires
        tick_hz > 0,
    ensures
        r == seconds_at(*state, now_ticks, tick_hz),
{
    match current_unix_time_millis(state, now_ticks, tick_hz) {
        Some(ms) => Some((ms / 1_000 % 0x1_0000_0000) as u32),
        None => None,
    }
}

/// The clock does not run backwards between two readings of the ticks, and at
/// the moment of a sync it shows the time of the sync.
pub proof fn clock_is_monotonic(state: RuntimeState, earlier: u64, later: u64, tick_hz: u64)
    requires
        state.ntp_synced,
        tick_hz > 0,
        earlier <= later,
    ensures
        micros_at(state, earlier, tick_hz)->0 <= micros_at(state, later, tick_hz)->0,
        micros_at(state, state.ntp_anchor_ticks, tick_hz) == Some(state.ntp_anchor_micros as int),
{
    let a = if earlier >= state.ntp_anchor_ticks {
        earlier - state.ntp_anchor_ticks
    } else {
        0
    };
    let b = if later >= state.ntp_anchor_ticks {
        later - state.ntp_anchor_ticks
    } else {
        0
    };
    assert(cap64(a * 1_000_000) <= cap64(b * 1_000_000));
    vstd::arithmetic::div_mod::lemma_div_is_ordered(
        cap64(a * 1_000_000),
        cap64(b * 1_000_000),
        tick_hz as int,
    );
    vstd::arithmetic::div_mod::lemma_div_basics(tick_hz as int);
}

/// The clock in seconds is the one in microseconds in whole seconds, and it is
/// not set before the first sync.
pub proof fn the_clock_in_seconds(state: RuntimeState, now_ticks: u64, tick_hz: u64)
    requires
        tick_hz > 0,
    ensures
        micros_at(state, now_ticks, tick_hz) is Some <==> state.ntp_synced,
        seconds_at(state, now_ticks, tick_hz) is Some <==> state.ntp_synced,
        micros_at(state, now_ticks, tick_hz) matches Some(us) ==> {
            let secs = seconds_at(state, now_ticks, tick_hz)->0;
            0 <= us && us < 0x1_0000_0000 * 1_000_000 ==> secs * 1_000_000 <= us < (secs + 1)
                * 1_000_000
        },
{
}

/// The uptime is the ticks in whole seconds.
pub proof fn uptime_counts_whole_seconds(ticks: u64, tick_hz: u64)
    requires
        tick_hz > 0,
        ticks < 0x1_0000_0000 * tick_hz,
    ensures
        uptime_of(ticks, tick_hz) * tick_hz <= ticks < (uptime_of(ticks, tick_hz) + 1) * tick_hz,
{
    let q = ticks as int / tick_hz as int;
    assert(0 <= q < 0x1_0000_0000 && q * tick_hz <= ticks < (q + 1) * tick_hz) by (nonlinear_arith)
        requires
            tick_hz > 0,
            0 <= ticks < 0x1_0000_0000 * tick_hz,
            q == ticks as int / tick_hz as int,
    ;
}

// ── Snapshots ────────────────────────────────────────────────────────────────

/// What the status documents and telemetry packets report.
pub struct MetricsSnapshot {
    pub temp_centi: i32,
    pub pid_deci: u16,
    pub relay_on: bool,
    pub heat_on: bool,
    pub collection_enabled: bool,
    pub sensor_status_code: u8,
    pub led_red: u8,
    pub led_green: u8,
    pub led_blue: u8,
    pub pid_window_step: u8,
    pub pid_on_steps: u8,
    pub pid_p_pct: i8,
    pub pid_i_pct: i8,
    pub pid_d_pct: i8,
    pub target_centi: i32,
    pub ip_valid: bool,
    pub net_state_code: u8,
    pub ip_octets: [u8; 4],
    pub ntp_synced: bool,
    pub ntp_sync_count: u32,
    pub ntp_source_code: u8,
    pub ntp_uptime_at_sync: u32,
    pub current_ntp_time: Option<u32>,
    pub master_ip: [u8; 4],
    pub probe_name: heapless::String<TEMP_PROBE_NAME_MAX_LEN>,
}

/// Takes a snapshot of what the status documents report.
pub fn metrics_snapshot(
    state: &RuntimeState,
    storage: &StorageState,
    now_ticks: u64,
    tick_hz: u64,
) -> (r: MetricsSnapshot)
    requires
        tick_hz > 0,
    ensures
        r == (MetricsSnapshot {
            temp_centi: state.temp_centi,
            pid_deci: state.pid_deci,
            relay_on: state.relay_on,
            heat_on: state.heat_on,
            collection_enabled: state.collection_enabled,
            sensor_status_code: state.sensor_status,
            led_red: state.led_red,
            led_green: state.led_green,
            led_blue: state.led_blue,
            pid_window_step: state.pid_window_step,
            pid_on_steps: state.pid_on_steps,
            pid_p_pct: state.pid_p_pct,
            pid_i_pct: state.pid_i_pct,
            pid_d_pct: state.pid_d_pct,
            target_centi: storage.target_centi,
            ip_valid: state.ip_valid,
            net_state_code: state.net_state,
            ip_octets: state.ip,
            ntp_synced: state.ntp_synced,
            ntp_sync_count: state.ntp_sync_count,
            ntp_source_code: state.ntp_source,
            ntp_uptime_at_sync: uptime_of(state.ntp_anchor_ticks, tick_hz),
            current_ntp_time: seconds_at(*state, now_ticks, tick_hz),
            master_ip: state.ntp_server,
            probe_name: r.probe_name,
        }),
        string32(r.probe_name) == probe_name_of(string32(storage.probe_name)),
{
    MetricsSnapshot {
        temp_centi: state.temp_centi,
        pid_deci: state.pid_deci,
        relay_on: state.relay_on,
        heat_on: state.heat_on,
        collection_enabled: state.collection_enabled,
        sensor_status_code: state.sensor_status,
        led_red: state.led_red,
        led_green: state.led_green,
        led_blue: state.led_blue,
        pid_window_step: state.pid_window_step,
        pid_on_steps: state.pid_on_steps,
        pid_p_pct: state.pid_p_pct,
        pid_i_pct: state.pid_i_pct,
        pid_d_pct: state.pid_d_pct,
        target_centi: storage.target_centi,
        ip_valid: state.ip_valid,
        net_state_code: state.net_state,
        ip_octets: state.ip,
        ntp_synced: state.ntp_synced,
        ntp_sync_count: state.ntp_sync_count,
        ntp_source_code: state.ntp_source,
        ntp_uptime_at_sync: uptime_seconds(state.ntp_anchor_ticks, tick_hz),
        current_ntp_time: current_unix_time(state, now_ticks, tick_hz),
        master_ip: state.ntp_server,
        probe_name: temp_probe_name(storage),
    }
}

/// What the Prometheus document reports.
pub struct PrometheusSnapshot {
    pub temp_centi: i32,
    pub pid_deci: u16,
    pub pid_window_step: u8,
    pub pid_on_steps: u8,
    pub relay_on: bool,
    pub target_centi: i32,
    pub ntp_synced: bool,
    pub ntp_sync_count: u32,
    pub ntp_source_code: u8,
    pub ntp_uptime_at_sync: u32,
    pub master_ip: [u8; 4],
    pub probe_name: heapless::String<TEMP_PROBE_NAME_MAX_LEN>,
}

/// Takes a snapshot of what the Prometheus document reports.
pub fn prometheus_snapshot(state: &RuntimeState, storage: &StorageState, tick_hz: u64) -> (r:
    PrometheusSnapshot)
    requires
        tick_hz > 0,
    ensures
        r == (PrometheusSnapshot {
            temp_centi: state.temp_centi,
            pid_deci: state.pid_deci,
            pid_window_step: state.pid_window_step,
            pid_on_steps: state.pid_on_steps,
            relay_on: state.relay_on,
            target_centi: storage.target_centi,
            ntp_synced: state.ntp_synced,
            ntp_sync_count: state.ntp_sync_count,
            ntp_source_code: state.ntp_source,
            ntp_uptime_at_sync: uptime_of(state.ntp_anchor_ticks, tick_hz),
            master_ip: state.ntp_server,
            probe_name: r.probe_name,
        }),
        string32(r.probe_name) == probe_name_of(string32(storage.probe_name)),
{
    PrometheusSnapshot {
        temp_centi: state.temp_centi,
        pid_deci: state.pid_deci,
        pid_window_step: state.pid_window_step,
        pid_on_steps: state.pid_on_steps,
        relay_on: state.relay_on,
        target_centi: storage.target_centi,
        ntp_synced: state.ntp_synced,
        ntp_sync_count: state.ntp_sync_count,
        ntp_source_code: state.ntp_source,
        ntp_uptime_at_sync: uptime_seconds(state.ntp_anchor_ticks, tick_hz),
        master_ip: state.ntp_server,
        probe_name: temp_probe_name(storage),
    }
}

/// A peer that is known keeps its slot, a new one gets the first that is empty,
/// and there is none where every slot holds another peer.
pub proof fn a_peer_has_its_slot(
    peers: Seq<Option<NtpPeerState>>,
    source: NtpSource,
    address: Seq<u8>,
    i: int,
)
    requires
        0 <= i < peers.len(),
    ensures
        peers[i] matches Some(p) && p.source == source && p.address@ == address && (forall|k: int|
            0 <= k < i ==> !((#[trigger] peers[k]) is Some && peers[k]->0.source == source
                && peers[k]->0.address@ == address)) ==> slot_for(peers, source, address) == i,
        (forall|k: int|
            0 <= k < peers.len() ==> !((#[trigger] peers[k]) is Some && peers[k]->0.source == source
                && peers[k]->0.address@ == address)) && peers[i] is None && (forall|k: int|
            0 <= k < i ==> (#[trigger] peers[k]) is Some) ==> slot_for(peers, source, address) == i,
        (forall|k: int|
            0 <= k < peers.len() ==> (#[trigger] peers[k]) is Some && !(peers[k]->0.source == source
                && peers[k]->0.address@ == address)) ==> slot_for(peers, source, address)
            == peers.len(),
{
    if forall|k: int|
        0 <= k < i ==> !((#[trigger] peers[k]) is Some && peers[k]->0.source == source
            && peers[k]->0.address@ == address) {
        if is_peer(peers[i], source, address) {
            slot_is_the_first(peers, source, address, 0, i);
        }
    }
    if forall|k: int|
        0 <= k < peers.len() ==> !((#[trigger] peers[k]) is Some && peers[k]->0.source == source
            && peers[k]->0.address@ == address) {
        slot_is_the_first(peers, source, address, 0, peers.len() as int);
        if peers[i] is None && forall|k: int| 0 <= k < i ==> (#[trigger] peers[k]) is Some {
            empty_is_the_first(peers, 0, i);
        }
    }
    if forall|k: int|
        0 <= k < peers.len() ==> (#[trigger] peers[k]) is Some && !(peers[k]->0.source == source
            && peers[k]->0.address@ == address) {
        assert forall|k: int| 0 <= k < peers.len() implies !is_peer(
            #[trigger] peers[k],
            source,
            address,
        ) by {}
        slot_is_the_first(peers, source, address, 0, peers.len() as int);
        empty_is_the_first(peers, 0, peers.len() as int);
    }
}

proof fn slot_is_the_first(
    peers: Seq<Option<NtpPeerState>>,
    source: NtpSource,
    address: Seq<u8>,
    from: int,
    i: int,
)
    requires
        0 <= from <= i <= peers.len(),
        i < peers.len() ==> is_peer(peers[i], source, address),
        forall|k: int| from <= k < i ==> !is_peer(#[trigger] peers[k], source, address),
    ensures
        peer_slot(peers, source, address, from) == i,
    decreases i - from,
{
    if from < i {
        assert(!is_peer(peers[from], source, address));
        slot_is_the_first(peers, source, address, from + 1, i);
    }
}

proof fn empty_is_the_first(peers: Seq<Option<NtpPeerState>>, from: int, i: int)
    requires
        0 <= from <= i <= peers.len(),
        i < peers.len() ==> peers[i] is None,
        forall|k: int| from <= k < i ==> (#[trigger] peers[k]) is Some,
    ensures
        empty_slot(peers, from) == i,
    decreases i - from,
{
    if from < i {
        assert(peers[from] is Some);
        empty_is_the_first(peers, from + 1, i);
    }
}

/// An address with a prefix length is the text before the slash; without a
/// slash it is all of the text.
pub proof fn an_address_ends_at_the_slash(address: Seq<char>, prefix: Seq<char>)
    requires
        !address.contains('/'),
    ensures
        before_slash(address + seq!['/'] + prefix) == address,
        before_slash(address) == address,
{
    let s = address + seq!['/'] + prefix;
    let mark = seq!['/'];
    assert(mark[0] == '/');
    let n = address.len() as int;
    assert(s[n] == '/');
    assert forall|i: int| 0 <= i < n implies !mark.contains(#[trigger] s[i]) by {
        assert(s[i] == address[i]);
        assert(address.contains(address[i]));
    }
    first_in_at(s, mark, 0, n);
    assert(s.take(n) == address);
    no_slash(address, 0);
    assert(address.take(n) == address);
}

proof fn no_slash(s: Seq<char>, from: int)
    requires
        0 <= from <= s.len(),
        !s.contains('/'),
    ensures
        first_in(s, seq!['/'], from) == s.len(),
    decreases s.len() - from,
{
    if from < s.len() {
        assert(s.contains(s[from]));
        no_slash(s, from + 1);
    }
}

} // verus!
