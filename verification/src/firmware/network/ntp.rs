//! NTP client: whom to ask, what to send, which answers count, which server
//! is followed, and when to ask again.
//!
//! A round asks every server at once and takes in the answers as they come.
//! An answer belongs to a query if it returns the query's eight-byte token.

use vstd::prelude::*;
use crate::bytes::{
    bytes_equal, get_u32_be, push_u32_be, read_u32_be, u32_be, u32_read_back,
};
use crate::firmware::bounded::{
    addresses, addresses_slice, queries, queries_new, queries_push, queries_set, queries_slice,
    servers, servers_new, servers_push,
};
use crate::firmware::shared::{
    better, contains_address, octets, should_replace_master, NtpSelectionSample, NtpSource,
    NTP_MAX_CONFIG_SERVERS,
};
use crate::firmware::status::{
    cap64, current_unix_time_micros, mark_ntp_peer_query_failed, micros_at, ms_rounded,
    ntp_selection_sample, peers_after, peers_distinct, same_but_peers, selection_in,
    update_ntp_peer_stats, update_ntp_time, uptime_of, NtpPeerState, PeerUpdate, RuntimeState,
};

verus! {

pub const NTP_PORT: u16 = 123;

pub const NTP_LOCAL_PORT: u16 = 1125;

/// The clock is synced once per hour.
pub const NTP_SYNC_INTERVAL_SECS: u64 = 3600;

pub const NTP_RETRY_SECS: u64 = 60;

pub const NTP_TIMEOUT_SECS: u64 = 5;

pub const NTP_MIN_POLL_SECS: u64 = 60;

pub const NTP_POLL_RAMP_DURATION_SECS: u64 = 600;

/// Seconds from the start of 1900, which NTP counts from, to that of 1970.
pub const NTP_UNIX_OFFSET: u32 = 2_208_988_800;

/// The configured servers and the DHCP gateway.
pub const NTP_MAX_PENDING: usize = 5;

pub const NTP_PACKET_SIZE: usize = 48;

// ── When to ask ──────────────────────────────────────────────────────────────

/// The seconds until the next round: 60 after the first sync, then more in
/// proportion to the time since then, to the nearest second, and the full
/// interval after ten minutes.
pub open spec fn poll_interval(age_since_sync_s: int) -> int {
    if age_since_sync_s >= NTP_POLL_RAMP_DURATION_SECS {
        NTP_SYNC_INTERVAL_SECS as int
    } else {
        let span = NTP_SYNC_INTERVAL_SECS - NTP_MIN_POLL_SECS;
        NTP_MIN_POLL_SECS + (age_since_sync_s * span + NTP_POLL_RAMP_DURATION_SECS / 2)
            / NTP_POLL_RAMP_DURATION_SECS as int
    }
}

/// The seconds until the next round after one that synced the clock.
pub fn ntp_poll_interval_secs_after_sync(age_since_sync_s: u64) -> (r: u64)
    ensures
        r == poll_interval(age_since_sync_s as int),
{
    if age_since_sync_s >= NTP_POLL_RAMP_DURATION_SECS {
        return NTP_SYNC_INTERVAL_SECS;
    }
    let span: u64 = NTP_SYNC_INTERVAL_SECS - NTP_MIN_POLL_SECS;
    NTP_MIN_POLL_SECS + (age_since_sync_s * span + NTP_POLL_RAMP_DURATION_SECS / 2)
        / NTP_POLL_RAMP_DURATION_SECS
}

/// The interval grows from one minute to one hour and stays there.
pub proof fn poll_interval_grows(earlier: int, later: int)
    requires
        0 <= earlier <= later,
    ensures
        poll_interval(0) == NTP_MIN_POLL_SECS,
        NTP_MIN_POLL_SECS <= poll_interval(earlier) <= poll_interval(later),
        poll_interval(later) <= NTP_SYNC_INTERVAL_SECS,
        later >= NTP_POLL_RAMP_DURATION_SECS ==> poll_interval(later) == NTP_SYNC_INTERVAL_SECS,
{
}

// ── Whom to ask ──────────────────────────────────────────────────────────────

/// The servers of a round: the configured ones, and the gateway unless it is
/// one of them.
pub open spec fn servers_of(config: Seq<[u8; 4]>, gateway: Option<[u8; 4]>) -> Seq<
    ([u8; 4], NtpSource),
> {
    let configured = config.map_values(|ip: [u8; 4]| (ip, NtpSource::Config));
    match gateway {
        Some(ip) => if octets(config).contains(ip@) {
            configured
        } else {
            configured.push((ip, NtpSource::DhcpGateway))
        },
        None => configured,
    }
}

/// Lists the servers of a round.
pub fn round_servers(
    config: &heapless::Vec<[u8; 4], NTP_MAX_CONFIG_SERVERS>,
    gateway: Option<[u8; 4]>,
) -> (r: heapless::Vec<([u8; 4], NtpSource), NTP_MAX_PENDING>)
    ensures
        servers(r) == servers_of(addresses(*config), gateway),
{
    let list: &[[u8; 4]] = addresses_slice(config);
    let ghost configured = list@.map_values(|ip: [u8; 4]| (ip, NtpSource::Config));
    let mut out = servers_new();
    let mut i: usize = 0;
    while i < list.len()
        invariant
            i <= list@.len() <= 4,
            configured == list@.map_values(|ip: [u8; 4]| (ip, NtpSource::Config)),
            servers(out) == configured.take(i as int),
        decreases list@.len() - i,
    {
        let pushed: Result<(), ([u8; 4], NtpSource)> = servers_push(
            &mut out,
            (list[i], NtpSource::Config),
        );
        assert(configured.take(i + 1) == configured.take(i as int).push(configured[i as int]));
        i = i + 1;
    }
    assert(configured.take(i as int) == configured);
    if let Some(ip) = gateway {
        if !contains_address(list, ip) {
            let pushed: Result<(), ([u8; 4], NtpSource)> = servers_push(
                &mut out,
                (ip, NtpSource::DhcpGateway),
            );
        }
    }
    out
}

// ── What to send ─────────────────────────────────────────────────────────────

/// A query that waits for its answer.
#[derive(Clone, Copy, Debug)]
pub struct PendingQuery {
    pub ip: [u8; 4],
    /// What the answer has to return: a number and the low ticks.
    pub token: [u8; 8],
    /// Ticks when the query was sent.
    pub t1_ticks: u64,
    pub source: NtpSource,
    pub done: bool,
}

/// What the client remembers from round to round.
#[derive(Clone, Copy, Debug, PartialEq, Eq, Structural)]
pub struct NtpState {
    /// The number of the next query.
    pub nonce: u32,
    /// Uptime of the first sync.
    pub first_sync_uptime_s: Option<u64>,
    pub consecutive_failures: u8,
}

impl NtpState {
    /// The state at boot.
    pub fn new() -> (s: Self)
        ensures
            s == (NtpState { nonce: 1, first_sync_uptime_s: None, consecutive_failures: 0 }),
    {
        NtpState { nonce: 1, first_sync_uptime_s: None, consecutive_failures: 0 }
    }
}

/// The token of a query.
pub open spec fn token_of(nonce: u32, ticks: u64) -> Seq<u8> {
    u32_be(nonce) + u32_be((ticks % 0x1_0000_0000) as u32)
}

/// An SNTP request of version 3 that carries a token as its transmit time.
pub open spec fn request_bytes(token: Seq<u8>) -> Seq<u8> {
    seq![0x1Bu8] + Seq::new(39, |i: int| 0u8) + token
}

/// Builds the next request and its token.
pub fn next_request(state: &mut NtpState, now_ticks: u64) -> (r: ([u8; NTP_PACKET_SIZE], [u8; 8]))
    ensures
        r.1@ == token_of(old(state).nonce, now_ticks),
        r.0@ == request_bytes(r.1@),
        *final(state) == (NtpState {
            nonce: ((old(state).nonce + 1) % 0x1_0000_0000) as u32,
            ..*old(state)
        }),
{
    let mut bytes: Vec<u8> = Vec::new();
    push_u32_be(&mut bytes, state.nonce);
    push_u32_be(&mut bytes, (now_ticks % 0x1_0000_0000) as u32);
    state.nonce = state.nonce.wrapping_add(1);
    let mut request: [u8; NTP_PACKET_SIZE] = [0;NTP_PACKET_SIZE];
    let mut token: [u8; 8] = [0;8];
    request[0] = 0x1B;
    let mut i: usize = 0;
    while i < 8
        invariant
            i <= 8,
            bytes@.len() == 8,
            request@.len() == 48,
            request@[0] == 0x1B,
            forall|j: int| 1 <= j < 40 ==> request@[j] == 0,
            forall|j: int| 0 <= j < i ==> token@[j] == bytes@[j],
            forall|j: int| 40 <= j < 40 + i ==> request@[j] == bytes@[j - 40],
        decreases 8 - i,
    {
        token[i] = bytes[i];
        request[40 + i] = bytes[i];
        i = i + 1;
    }
    assert(token@ == bytes@);
    assert(request@ == request_bytes(token@));
    (request, token)
}

/// Two queries of one process, less than 2^32 apart, have different tokens.
pub proof fn tokens_differ(nonce: u32, other: u32, ticks: u64, other_ticks: u64)
    requires
        nonce != other,
    ensures
        token_of(nonce, ticks) != token_of(other, other_ticks),
{
    let a = token_of(nonce, ticks);
    let b = token_of(other, other_ticks);
    u32_read_back(nonce);
    u32_read_back(other);
    assert(a.take(4) == u32_be(nonce));
    assert(b.take(4) == u32_be(other));
}

// ── Which answers count ──────────────────────────────────────────────────────

/// The time that a server gave.
#[derive(Clone, Copy, Debug, PartialEq, Eq, Structural)]
pub struct NtpSample {
    pub unix: u32,
    pub unix_frac_us: u32,
    /// Ticks when the answer came.
    pub recv_ticks: u64,
    pub stratum: u8,
    pub latency_ms: u32,
    pub jitter_ms: u32,
    /// Microseconds from the query to the answer.
    pub latency_us: u32,
    /// How far the local clock is behind, where it was synced before.
    pub offset_us: Option<i32>,
}

/// What the choice of a master looks at in a sample.
pub open spec fn selection(sample: NtpSample) -> NtpSelectionSample {
    NtpSelectionSample {
        stratum: sample.stratum,
        latency_ms: sample.latency_ms,
        jitter_ms: sample.jitter_ms,
    }
}

/// Microseconds from one tick count to another, as 32 bits hold them.
pub open spec fn micros_between(from_ticks: u64, to_ticks: u64, tick_hz: u64) -> int {
    let ticks = if to_ticks >= from_ticks {
        to_ticks - from_ticks
    } else {
        0
    };
    let us = cap64(ticks * 1_000_000) / tick_hz as int;
    if us <= u32::MAX {
        us
    } else {
        u32::MAX as int
    }
}

/// The fraction of a second in 2^32 parts, in whole microseconds.
pub open spec fn micros_of_fraction(frac: u32) -> int {
    frac * 1_000_000 / 0x1_0000_0000
}

/// A 64-bit count taken as a signed value.
pub open spec fn signed64(v: int) -> int {
    if v > i64::MAX {
        v - 0x1_0000_0000_0000_0000
    } else {
        v
    }
}

/// A value held within 32 bits.
pub open spec fn cap_i32(v: int) -> i32 {
    if v < i32::MIN {
        i32::MIN
    } else if v > i32::MAX {
        i32::MAX
    } else {
        v as i32
    }
}

/// The sample in an answer, unless its time is not after the start of 1970.
/// Half the round trip lies between the server's time and receipt.
pub open spec fn sample_in(
    datagram: Seq<u8>,
    t1_ticks: u64,
    recv_ticks: u64,
    tick_hz: u64,
    local_us: Option<int>,
) -> Option<NtpSample> {
    let secs = get_u32_be(datagram, 40);
    let frac_us = micros_of_fraction(get_u32_be(datagram, 44));
    let latency_us = micros_between(t1_ticks, recv_ticks, tick_hz);
    if secs <= NTP_UNIX_OFFSET {
        None
    } else {
        let unix = secs - NTP_UNIX_OFFSET;
        Some(
            NtpSample {
                unix: unix as u32,
                unix_frac_us: frac_us as u32,
                recv_ticks,
                stratum: datagram[1],
                latency_ms: ms_rounded(latency_us as u32),
                jitter_ms: 0,
                latency_us: latency_us as u32,
                offset_us: match local_us {
                    Some(local) => Some(
                        cap_i32(unix * 1_000_000 + frac_us + latency_us / 2 - signed64(local)),
                    ),
                    None => None,
                },
            },
        )
    }
}

fn elapsed_micros(from_ticks: u64, to_ticks: u64, tick_hz: u64) -> (r: u32)
    requires
        tick_hz > 0,
    ensures
        r == micros_between(from_ticks, to_ticks, tick_hz),
{
    let ticks: u64 = to_ticks.saturating_sub(from_ticks);
    let scaled: u64 = match ticks.checked_mul(1_000_000) {
        Some(v) => v,
        None => u64::MAX,
    };
    let us: u64 = scaled / tick_hz;
    if us <= u32::MAX as u64 {
        us as u32
    } else {
        u32::MAX
    }
}

fn fraction_micros(frac: u32) -> (r: u32)
    ensures
        r == micros_of_fraction(frac),
        r < 1_000_000,
{
    (frac as u64 * 1_000_000 / 0x1_0000_0000) as u32
}

fn clock_offset(server_us: i64, local_us: u64) -> (r: i32)
    requires
        0 <= server_us <= 0x20_0000_0000_0000,
    ensures
        r == cap_i32(server_us - signed64(local_us as int)),
{
    let local: i128 = if local_us > i64::MAX as u64 {
        local_us as i128 - 0x1_0000_0000_0000_0000
    } else {
        local_us as i128
    };
    let delta: i128 = server_us as i128 - local;
    if delta < i32::MIN as i128 {
        i32::MIN
    } else if delta > i32::MAX as i128 {
        i32::MAX
    } else {
        delta as i32
    }
}

/// Reads the sample in an answer.
pub fn read_sample(
    datagram: &[u8],
    t1_ticks: u64,
    recv_ticks: u64,
    tick_hz: u64,
    local_us: Option<u64>,
) -> (r: Option<NtpSample>)
    requires
        datagram@.len() >= NTP_PACKET_SIZE,
        tick_hz > 0,
    ensures
        r == sample_in(
            datagram@,
            t1_ticks,
            recv_ticks,
            tick_hz,
            match local_us {
                Some(v) => Some(v as int),
                None => None,
            },
        ),
{
    let secs: u32 = read_u32_be(datagram, 40);
    if secs <= NTP_UNIX_OFFSET {
        return None;
    }
    let unix: u32 = secs - NTP_UNIX_OFFSET;
    let unix_frac_us: u32 = fraction_micros(read_u32_be(datagram, 44));
    let latency_us: u32 = elapsed_micros(t1_ticks, recv_ticks, tick_hz);
    let server_us: i64 = unix as i64 * 1_000_000 + unix_frac_us as i64 + latency_us as i64 / 2;
    let offset_us: Option<i32> = match local_us {
        Some(local) => Some(clock_offset(server_us, local)),
        None => None,
    };
    Some(
        NtpSample {
            unix,
            unix_frac_us,
            recv_ticks,
            stratum: datagram[1],
            latency_ms: latency_us.saturating_add(500) / 1_000,
            jitter_ms: 0,
            latency_us,
            offset_us,
        },
    )
}

// ── Rounds ───────────────────────────────────────────────────────────────────

/// The best answer of a round so far.
#[derive(Clone, Copy, Debug)]
pub struct NtpBest {
    pub sample: NtpSample,
    pub ip: [u8; 4],
    pub source: NtpSource,
}

/// A round of queries.
pub struct NtpRound {
    pub pending: heapless::Vec<PendingQuery, NTP_MAX_PENDING>,
    pub best: Option<NtpBest>,
}

/// The first query from `from` on that waits for an answer with this token.
pub open spec fn waiting(list: Seq<PendingQuery>, token: Seq<u8>, from: int) -> int
    decreases list.len() - from,
{
    if from < 0 || from >= list.len() || (!list[from].done && list[from].token@ == token) {
        from
    } else {
        waiting(list, token, from + 1)
    }
}

/// The query that a datagram answers, or the number of queries where it
/// answers none.
pub open spec fn answered(list: Seq<PendingQuery>, datagram: Seq<u8>) -> int {
    if datagram.len() < NTP_PACKET_SIZE {
        list.len() as int
    } else {
        waiting(list, datagram.subrange(24, 32), 0)
    }
}

/// The sample with what is known of the peer from earlier answers.
pub open spec fn with_history(sample: NtpSample, known: Option<NtpSelectionSample>) -> NtpSample {
    match known {
        Some(k) => NtpSample { latency_ms: k.latency_ms, jitter_ms: k.jitter_ms, ..sample },
        None => sample,
    }
}

/// The better of two answers, the earlier one where neither is.
pub open spec fn best_of(current: Option<NtpBest>, candidate: NtpBest) -> NtpBest {
    match current {
        Some(c) => if better(selection(candidate.sample), selection(c.sample)) {
            candidate
        } else {
            c
        },
        None => candidate,
    }
}

/// What an answer is taken into account as.
pub open spec fn sample_update(sample: NtpSample, uptime_s: u32) -> PeerUpdate {
    PeerUpdate::Sample {
        stratum: sample.stratum,
        latency_us: sample.latency_us,
        offset_us: sample.offset_us,
        uptime_s,
    }
}

/// The peers after those whose queries are still waiting have failed.
pub open spec fn peers_after_failures(
    peers: Seq<Option<NtpPeerState>>,
    list: Seq<PendingQuery>,
) -> Seq<Option<NtpPeerState>>
    decreases list.len(),
{
    if list.len() == 0 {
        peers
    } else {
        let before = peers_after_failures(peers, list.drop_last());
        if list.last().done {
            before
        } else {
            peers_after(before, list.last().source, list.last().ip, PeerUpdate::QueryFailed)
        }
    }
}

/// Whether any query still waits.
pub open spec fn any_waiting(list: Seq<PendingQuery>) -> bool {
    exists|i: int| 0 <= i < list.len() && !(#[trigger] list[i]).done
}

impl NtpRound {
    /// A round before its first query.
    pub fn new() -> (r: Self)
        ensures
            queries(r.pending) == Seq::<PendingQuery>::empty(),
            r.best is None,
    {
        NtpRound { pending: queries_new(), best: None }
    }

    /// Takes into account that a query was sent, or that it could not be.
    /// At most five queries are taken.
    pub fn query_done(
        &mut self,
        runtime: &mut RuntimeState,
        server: [u8; 4],
        source: NtpSource,
        token: [u8; 8],
        t1_ticks: u64,
        sent: bool,
    )
        ensures
            final(self).best == old(self).best,
            queries(final(self).pending) == (if sent && queries(old(self).pending).len()
                < NTP_MAX_PENDING {
                queries(old(self).pending).push(
                    PendingQuery { ip: server, token, t1_ticks, source, done: false },
                )
            } else {
                queries(old(self).pending)
            }),
            same_but_peers(*old(runtime), *final(runtime)),
            final(runtime).peers@ == (if sent {
                old(runtime).peers@
            } else {
                peers_after(old(runtime).peers@, source, server, PeerUpdate::QueryFailed)
            }),
            peers_distinct(old(runtime).peers@) ==> peers_distinct(final(runtime).peers@),
    {
        if sent {
            let pushed: Result<(), PendingQuery> = queries_push(
                &mut self.pending,
                PendingQuery { ip: server, token, t1_ticks, source, done: false },
            );
        } else {
            mark_ntp_peer_query_failed(runtime, source, server);
        }
    }

    /// Tests whether any query still waits for its answer.
    pub fn is_waiting(&self) -> (r: bool)
        ensures
            r == any_waiting(queries(self.pending)),
    {
        let list: &[PendingQuery] = queries_slice(&self.pending);
        let mut i: usize = 0;
        while i < list.len()
            invariant
                i <= list@.len(),
                list@ == queries(self.pending),
                forall|j: int| 0 <= j < i ==> (#[trigger] list@[j]).done,
            decreases list@.len() - i,
        {
            if !list[i].done {
                return true;
            }
            i = i + 1;
        }
        false
    }

    /// How many clock ticks the round goes on waiting for: none where no query
    /// waits for its answer, or the time for answers is up.
    pub fn ticks_left(&self, started_ticks: u64, now_ticks: u64, tick_hz: u64) -> (r: Option<u64>)
        requires
            NTP_TIMEOUT_SECS * tick_hz <= u64::MAX,
            started_ticks <= now_ticks,
        ensures
            r == (if any_waiting(queries(self.pending)) && now_ticks - started_ticks
                < NTP_TIMEOUT_SECS * tick_hz {
                Some((NTP_TIMEOUT_SECS * tick_hz - (now_ticks - started_ticks)) as u64)
            } else {
                None
            }),
    {
        let timeout: u64 = NTP_TIMEOUT_SECS * tick_hz;
        let elapsed: u64 = now_ticks - started_ticks;
        if self.is_waiting() && elapsed < timeout {
            Some(timeout - elapsed)
        } else {
            None
        }
    }

    /// Finds the query that a datagram answers.
    fn find_query(&self, datagram: &[u8]) -> (r: Option<usize>)
        ensures
            match r {
                Some(i) => answered(queries(self.pending), datagram@) == i && i < queries(
                    self.pending,
                ).len() && datagram@.len() >= NTP_PACKET_SIZE,
                None => answered(queries(self.pending), datagram@) == queries(self.pending).len(),
            },
    {
        let list: &[PendingQuery] = queries_slice(&self.pending);
        if datagram.len() < NTP_PACKET_SIZE {
            return None;
        }
        let token: &[u8] = vstd::slice::slice_subrange(datagram, 24, 32);
        let mut i: usize = 0;
        while i < list.len()
            invariant
                i <= list@.len(),
                list@ == queries(self.pending),
                token@ == datagram@.subrange(24, 32),
                waiting(list@, token@, 0) == waiting(list@, token@, i as int),
                datagram@.len() >= NTP_PACKET_SIZE,
            decreases list@.len() - i,
        {
            if !list[i].done && bytes_equal(&list[i].token, token) {
                return Some(i);
            }
            i = i + 1;
        }
        None
    }

    /// Takes in a datagram. Where it answers a query, the query waits no more.
    /// Where its time is good, the peer is brought up to date, and the answer
    /// is kept if it is the best of the round. Returns whether it was good.
    #[verifier::rlimit(40)]
    pub fn response(
        &mut self,
        runtime: &mut RuntimeState,
        datagram: &[u8],
        recv_ticks: u64,
        now_ticks: u64,
        tick_hz: u64,
    ) -> (r: bool)
        requires
            tick_hz > 0,
        ensures
            ({
                let list = queries(old(self).pending);
                let i = answered(list, datagram@);
                let query = list[i];
                let sample = sample_in(
                    datagram@,
                    query.t1_ticks,
                    recv_ticks,
                    tick_hz,
                    micros_at(*old(runtime), now_ticks, tick_hz),
                );
                let peers = peers_after(
                    old(runtime).peers@,
                    query.source,
                    query.ip,
                    sample_update(sample->0, uptime_of(now_ticks, tick_hz)),
                );
                if i >= list.len() {
                    &&& !r
                    &&& *final(self) == *old(self)
                    &&& *final(runtime) == *old(runtime)
                } else {
                    &&& queries(final(self).pending) == list.update(
                        i,
                        PendingQuery { done: true, ..query },
                    )
                    &&& r == sample is Some
                    &&& same_but_peers(*old(runtime), *final(runtime))
                    &&& sample is None ==> final(self).best == old(self).best
                        && final(runtime).peers@ == old(runtime).peers@
                    &&& sample is Some ==> final(runtime).peers@ == peers && final(self).best
                        == Some(
                        best_of(
                            old(self).best,
                            NtpBest {
                                sample: with_history(
                                    sample->0,
                                    selection_in(peers, query.source, query.ip@),
                                ),
                                ip: query.ip,
                                source: query.source,
                            },
                        ),
                    )
                }
            }),
            peers_distinct(old(runtime).peers@) ==> peers_distinct(final(runtime).peers@),
            old(self).best matches Some(b) ==> {
                let now = final(self).best->0.sample;
                &&& final(self).best is Some
                &&& now.stratum <= b.sample.stratum
                &&& now.stratum == b.sample.stratum ==> now.latency_ms <= b.sample.latency_ms
                &&& now.stratum == b.sample.stratum && now.latency_ms == b.sample.latency_ms
                    ==> now.jitter_ms <= b.sample.jitter_ms
            },
    {
        let i: usize = match self.find_query(datagram) {
            Some(i) => i,
            None => {
                return false;
            },
        };
        let query: PendingQuery = queries_slice(&self.pending)[i];
        queries_set(&mut self.pending, i, PendingQuery { done: true, ..query });
        let local_us: Option<u64> = current_unix_time_micros(runtime, now_ticks, tick_hz);
        let sample: NtpSample = match read_sample(
            datagram,
            query.t1_ticks,
            recv_ticks,
            tick_hz,
            local_us,
        ) {
            Some(sample) => sample,
            None => {
                return false;
            },
        };
        update_ntp_peer_stats(
            runtime,
            query.source,
            query.ip,
            sample.stratum,
            sample.latency_us,
            sample.offset_us,
            now_ticks,
            tick_hz,
        );
        let known: Option<NtpSelectionSample> = ntp_selection_sample(
            runtime,
            query.source,
            query.ip,
        );
        let full: NtpSample = match known {
            Some(k) => NtpSample { latency_ms: k.latency_ms, jitter_ms: k.jitter_ms, ..sample },
            None => sample,
        };
        let candidate: NtpBest = NtpBest { sample: full, ip: query.ip, source: query.source };
        let replace: bool = match self.best {
            None => true,
            Some(current) => should_replace_master(
                NtpSelectionSample {
                    stratum: current.sample.stratum,
                    latency_ms: current.sample.latency_ms,
                    jitter_ms: current.sample.jitter_ms,
                },
                NtpSelectionSample {
                    stratum: full.stratum,
                    latency_ms: full.latency_ms,
                    jitter_ms: full.jitter_ms,
                },
            ),
        };
        if replace {
            self.best = Some(candidate);
        }
        true
    }
}

/// The peers after a round: those that did not answer have failed, and a
/// gateway that is also configured shares the best answer of a configured
/// server.
pub open spec fn peers_after_round(
    peers: Seq<Option<NtpPeerState>>,
    list: Seq<PendingQuery>,
    best: Option<NtpBest>,
    config: Seq<[u8; 4]>,
    gateway: Option<[u8; 4]>,
    uptime_s: u32,
) -> Seq<Option<NtpPeerState>> {
    let failed = peers_after_failures(peers, list);
    match (gateway, best) {
        (Some(ip), Some(b)) => if octets(config).contains(ip@) && b.source == NtpSource::Config {
            peers_after(failed, NtpSource::DhcpGateway, ip, sample_update(b.sample, uptime_s))
        } else {
            failed
        },
        _ => failed,
    }
}

/// The runtime state after a round, but for the peers: it follows the best
/// answer, if there was one.
pub open spec fn synced_to(before: RuntimeState, best: Option<NtpBest>) -> RuntimeState {
    match best {
        Some(b) => RuntimeState {
            ntp_anchor_ticks: b.sample.recv_ticks,
            ntp_anchor_micros: (b.sample.unix * 1_000_000 + b.sample.unix_frac_us
                + b.sample.latency_us / 2) as u64,
            ntp_synced: true,
            ntp_sync_count: before.ntp_sync_count.wrapping_add(1),
            ntp_server: b.ip,
            ntp_source: b.source.spec_code(),
            ..before
        },
        None => before,
    }
}

/// The client after a round.
pub open spec fn client_after(state: NtpState, best: Option<NtpBest>, uptime_s: u64) -> NtpState {
    match best {
        Some(b) => NtpState {
            consecutive_failures: 0,
            first_sync_uptime_s: match state.first_sync_uptime_s {
                Some(first) => Some(first),
                None => Some(uptime_s),
            },
            ..state
        },
        None => NtpState {
            consecutive_failures: if state.consecutive_failures < u8::MAX {
                (state.consecutive_failures + 1) as u8
            } else {
                u8::MAX
            },
            ..state
        },
    }
}

/// The seconds until the next round: a minute after one without an answer.
pub open spec fn next_round(state: NtpState, best: Option<NtpBest>, uptime_s: u64) -> int {
    match best {
        Some(b) => {
            let first = client_after(state, best, uptime_s).first_sync_uptime_s->0;
            poll_interval(
                if uptime_s >= first {
                    uptime_s - first
                } else {
                    0
                },
            )
        },
        None => NTP_RETRY_SECS as int,
    }
}

impl NtpRound {
    /// Counts a failure for every query that still waits.
    fn mark_unanswered(&self, runtime: &mut RuntimeState)
        ensures
            same_but_peers(*old(runtime), *final(runtime)),
            final(runtime).peers@ == peers_after_failures(
                old(runtime).peers@,
                queries(self.pending),
            ),
            peers_distinct(old(runtime).peers@) ==> peers_distinct(final(runtime).peers@),
    {
        let list: &[PendingQuery] = queries_slice(&self.pending);
        let mut i: usize = 0;
        assert(list@.take(0) == Seq::<PendingQuery>::empty());
        while i < list.len()
            invariant
                i <= list@.len(),
                same_but_peers(*old(runtime), *runtime),
                runtime.peers@ == peers_after_failures(old(runtime).peers@, list@.take(i as int)),
                peers_distinct(old(runtime).peers@) ==> peers_distinct(runtime.peers@),
            decreases list@.len() - i,
        {
            assert(list@.take(i + 1).drop_last() == list@.take(i as int));
            let query: PendingQuery = list[i];
            if !query.done {
                mark_ntp_peer_query_failed(runtime, query.source, query.ip);
            }
            i = i + 1;
        }
        assert(list@.take(i as int) == list@);
    }

    /// Ends a round. Returns the seconds until the next one.
    pub fn close(
        &self,
        runtime: &mut RuntimeState,
        state: &mut NtpState,
        config: &heapless::Vec<[u8; 4], NTP_MAX_CONFIG_SERVERS>,
        gateway: Option<[u8; 4]>,
        now_ticks: u64,
        tick_hz: u64,
    ) -> (r: u64)
        requires
            tick_hz > 0,
        ensures
            same_but_peers(synced_to(*old(runtime), self.best), *final(runtime)),
            final(runtime).peers@ == peers_after_round(
                old(runtime).peers@,
                queries(self.pending),
                self.best,
                addresses(*config),
                gateway,
                uptime_of(now_ticks, tick_hz),
            ),
            peers_distinct(old(runtime).peers@) ==> peers_distinct(final(runtime).peers@),
            *final(state) == client_after(*old(state), self.best, (now_ticks / tick_hz) as u64),
            r == next_round(*old(state), self.best, (now_ticks / tick_hz) as u64),
    {
        self.mark_unanswered(runtime);
        let best: NtpBest = match self.best {
            Some(best) => best,
            None => {
                state.consecutive_failures = state.consecutive_failures.saturating_add(1);
                return NTP_RETRY_SECS;
            },
        };
        if let Some(ip) = gateway {
            if contains_address(addresses_slice(config), ip) && best.source == NtpSource::Config {
                update_ntp_peer_stats(
                    runtime,
                    NtpSource::DhcpGateway,
                    ip,
                    best.sample.stratum,
                    best.sample.latency_us,
                    best.sample.offset_us,
                    now_ticks,
                    tick_hz,
                );
            }
        }
        state.consecutive_failures = 0;
        update_ntp_time(
            runtime,
            best.sample.unix,
            best.sample.unix_frac_us,
            best.sample.recv_ticks,
            best.sample.latency_us,
            best.ip,
            best.source,
        );
        let uptime_s: u64 = now_ticks / tick_hz;
        let baseline: u64 = match state.first_sync_uptime_s {
            Some(first) => first,
            None => uptime_s,
        };
        state.first_sync_uptime_s = Some(baseline);
        ntp_poll_interval_secs_after_sync(uptime_s.saturating_sub(baseline))
    }
}

/// Whether no other answer is better.
pub open spec fn none_better(best: NtpBest, answers: Seq<NtpBest>) -> bool {
    forall|i: int|
        0 <= i < answers.len() ==> !better(
            selection((#[trigger] answers[i]).sample),
            selection(best.sample),
        )
}

/// The best of answers taken in one after the other.
pub open spec fn best_among(answers: Seq<NtpBest>) -> Option<NtpBest>
    decreases answers.len(),
{
    if answers.len() == 0 {
        None
    } else {
        Some(best_of(best_among(answers.drop_last()), answers.last()))
    }
}

/// The server that is followed is one that answered, and no other answer of
/// the round was better.
pub proof fn the_best_is_followed(answers: Seq<NtpBest>)
    requires
        answers.len() > 0,
    ensures
        best_among(answers) matches Some(b) && answers.contains(b) && none_better(b, answers),
    decreases answers.len(),
{
    let before = answers.drop_last();
    if before.len() > 0 {
        the_best_is_followed(before);
        let b = best_among(before)->0;
        let k = choose|k: int| 0 <= k < before.len() && before[k] == b;
        assert(answers[k] == b);
        assert forall|i: int| 0 <= i < answers.len() implies !better(
            selection((#[trigger] answers[i]).sample),
            selection((best_among(answers)->0).sample),
        ) by {
            if i < before.len() {
                assert(answers[i] == before[i]);
            }
        }
    }
    assert(answers[answers.len() - 1] == answers.last());
}

/// Of all answers of a round, the one at some place `k` is followed: none has a
/// lower stratum, none of the same stratum came faster, and none of these was
/// steadier. Of answers that are equal in all three the first is followed.
pub proof fn the_nearest_fastest_steadiest_is_followed(answers: Seq<NtpBest>) -> (k: int)
    requires
        answers.len() > 0,
    ensures
        0 <= k < answers.len(),
        best_among(answers) == Some(answers[k]),
        forall|i: int|
            #![trigger answers[i]]
            0 <= i < answers.len() ==> {
                let followed = answers[k].sample;
                let other = answers[i].sample;
                &&& followed.stratum <= other.stratum
                &&& followed.stratum == other.stratum ==> followed.latency_ms <= other.latency_ms
                &&& followed.stratum == other.stratum && followed.latency_ms == other.latency_ms
                    ==> followed.jitter_ms <= other.jitter_ms
                &&& i < k ==> followed.stratum < other.stratum || followed.latency_ms
                    < other.latency_ms || followed.jitter_ms < other.jitter_ms
            },
    decreases answers.len(),
{
    let before = answers.drop_last();
    let last = answers.len() - 1;
    if before.len() == 0 {
        assert(best_among(before) is None);
        last
    } else {
        let j = the_nearest_fastest_steadiest_is_followed(before);
        assert(before[j] == answers[j]);
        assert forall|i: int| #![trigger answers[i]] 0 <= i < last implies answers[i] == before[i] by {}
        if best_among(answers) == Some(answers.last()) && better(
            selection(answers.last().sample),
            selection(before[j].sample),
        ) {
            last
        } else {
            j
        }
    }
}

/// Of the answer that was best so far and a new one, the new one is taken over
/// exactly where its stratum is lower, or with the same stratum its latency, or
/// with the same of both its jitter.
pub proof fn a_better_answer_takes_over(current: NtpBest, new: NtpBest)
    ensures
        best_of(None, new) == new,
        ({
            let (old_one, new_one) = (current.sample, new.sample);
            best_of(Some(current), new) == (if new_one.stratum < old_one.stratum || (
            new_one.stratum == old_one.stratum && new_one.latency_ms < old_one.latency_ms) || (
            new_one.stratum == old_one.stratum && new_one.latency_ms == old_one.latency_ms
                && new_one.jitter_ms < old_one.jitter_ms) {
                new
            } else {
                current
            })
        }),
{
}

/// Whether no two queries have the same token.
pub open spec fn tokens_distinct(list: Seq<PendingQuery>) -> bool {
    forall|i: int, j: int|
        0 <= i < j < list.len() ==> (#[trigger] list[i]).token@ != (#[trigger] list[j]).token@
}

proof fn waiting_is(list: Seq<PendingQuery>, token: Seq<u8>, from: int)
    requires
        0 <= from <= list.len(),
    ensures
        from <= waiting(list, token, from) <= list.len(),
        waiting(list, token, from) < list.len() ==> list[waiting(list, token, from)].token@ == token
            && !list[waiting(list, token, from)].done,
        forall|k: int|
            from <= k < waiting(list, token, from) ==> (#[trigger] list[k]).done || list[k].token@
                != token,
    decreases list.len() - from,
{
    if from < list.len() && (list[from].done || list[from].token@ != token) {
        waiting_is(list, token, from + 1);
    }
}

/// A datagram that answered a query answers none when it comes again.
pub proof fn replay_is_ignored(list: Seq<PendingQuery>, datagram: Seq<u8>)
    requires
        tokens_distinct(list),
        answered(list, datagram) < list.len(),
    ensures
        ({
            let i = answered(list, datagram);
            let after = list.update(i, PendingQuery { done: true, ..list[i] });
            answered(after, datagram) == after.len()
        }),
{
    let token = datagram.subrange(24, 32);
    let i = answered(list, datagram);
    let after = list.update(i, PendingQuery { done: true, ..list[i] });
    waiting_is(list, token, 0);
    waiting_is(after, token, 0);
    let k = waiting(after, token, 0);
    if k < after.len() {
        assert(after[k].token@ == list[k].token@);
        assert(list[i].token@ == list[k].token@);
    }
}

/// A server that sends back what a query carried as its transmit time answers
/// that query, whatever else it sends, and no datagram that does not answers
/// any.
pub proof fn an_echo_is_recognised(list: Seq<PendingQuery>, datagram: Seq<u8>, i: int)
    requires
        tokens_distinct(list),
        0 <= i < list.len(),
        datagram.len() >= 48,
    ensures
        !list[i].done && datagram.subrange(24, 32) == request_bytes(list[i].token@).subrange(40, 48)
            ==> answered(list, datagram) == i,
        answered(list, datagram) == i ==> !list[i].done && datagram.subrange(24, 32)
            == list[i].token@,
{
    let token = datagram.subrange(24, 32);
    waiting_is(list, token, 0);
    let k = waiting(list, token, 0);
    assert(request_bytes(list[i].token@).subrange(40, 48) == list[i].token@);
    if k < list.len() && !list[i].done && token == list[i].token@ {
        assert(list[k].token@ == list[i].token@);
    }
}

/// A datagram that is too short answers nothing.
pub proof fn a_short_answer_is_ignored(list: Seq<PendingQuery>, datagram: Seq<u8>)
    requires
        datagram.len() < 48,
    ensures
        answered(list, datagram) == list.len(),
{
}

/// A request is that of an SNTP client: 48 bytes, version 3 and client mode in
/// the first, and the number and the low ticks of the query, most significant
/// byte first, in the last eight.
pub proof fn a_request_asks_as_a_client(nonce: u32, ticks: u64)
    ensures
        ({
            let request = request_bytes(token_of(nonce, ticks));
            &&& request.len() == 48
            &&& request[0] == 3 * 8 + 3
            &&& forall|i: int| 1 <= i < 40 ==> #[trigger] request[i] == 0
            &&& get_u32_be(request, 40) == nonce
            &&& get_u32_be(request, 44) == ticks % 0x1_0000_0000
        }),
{
    let low = (ticks % 0x1_0000_0000) as u32;
    let request = request_bytes(token_of(nonce, ticks));
    u32_read_back(nonce);
    u32_read_back(low);
    assert(forall|i: int| 0 <= i < 4 ==> #[trigger] request[40 + i] == u32_be(nonce)[i]);
    assert(request[40] == u32_be(nonce)[0] && request[41] == u32_be(nonce)[1] && request[42]
        == u32_be(nonce)[2] && request[43] == u32_be(nonce)[3]);
    assert(request[44] == u32_be(low)[0] && request[45] == u32_be(low)[1] && request[46] == u32_be(
        low,
    )[2] && request[47] == u32_be(low)[3]);
}

/// What an answer says: its stratum, and the seconds since 1970 that its
/// transmit time stands for. An answer from before then is thrown away.
pub proof fn an_answer_gives_the_servers_time(
    datagram: Seq<u8>,
    t1_ticks: u64,
    recv_ticks: u64,
    tick_hz: u64,
    local_us: Option<int>,
)
    requires
        datagram.len() >= 48,
        tick_hz > 0,
    ensures
        ({
            let secs = get_u32_be(datagram, 40) as int;
            let sample = sample_in(datagram, t1_ticks, recv_ticks, tick_hz, local_us);
            &&& sample is None <==> secs <= 2_208_988_800
            &&& sample matches Some(s) ==> {
                &&& s.unix + 2_208_988_800 == secs
                &&& s.unix_frac_us * 0x1_0000_0000 <= get_u32_be(datagram, 44) * 1_000_000
                    < (s.unix_frac_us + 1) * 0x1_0000_0000
                &&& s.stratum == datagram[1]
                &&& s.recv_ticks == recv_ticks
                &&& s.jitter_ms == 0
                &&& local_us is None <==> s.offset_us is None
            }
        }),
{
}

/// The latency of an answer is the time from the query to its receipt in whole
/// microseconds, and in milliseconds to the nearest one.
pub proof fn latency_is_the_time_of_the_round_trip(
    datagram: Seq<u8>,
    t1_ticks: u64,
    recv_ticks: u64,
    tick_hz: u64,
    local_us: Option<int>,
    sample: NtpSample,
)
    requires
        tick_hz > 0,
        sample_in(datagram, t1_ticks, recv_ticks, tick_hz, local_us) == Some(sample),
        t1_ticks <= recv_ticks,
        (recv_ticks - t1_ticks) * 1_000_000 <= u64::MAX,
        (recv_ticks - t1_ticks) * 1_000_000 < 0xffff_0000 * tick_hz,
    ensures
        sample.latency_us * tick_hz <= (recv_ticks - t1_ticks) * 1_000_000 < (sample.latency_us + 1)
            * tick_hz,
        sample.latency_ms * 1000 <= sample.latency_us + 500 < sample.latency_ms * 1000 + 1000,
{
    let t = (recv_ticks - t1_ticks) * 1_000_000;
    let q = t / tick_hz as int;
    assert(0 <= q < 0xffff_0000 && q * tick_hz <= t < (q + 1) * tick_hz) by (nonlinear_arith)
        requires
            tick_hz > 0,
            0 <= t < 0xffff_0000 * tick_hz,
            q == t / tick_hz as int,
    ;
}

/// A clock that shows the server's time when the answer comes, half the round
/// trip after it was sent, is not off, and one that is behind by some time is
/// found to be off by it.
pub proof fn the_offset_is_how_far_the_clock_is_behind(
    datagram: Seq<u8>,
    t1_ticks: u64,
    recv_ticks: u64,
    tick_hz: u64,
    behind: i32,
    sample: NtpSample,
)
    requires
        ({
            let now = sample.unix * 1_000_000 + sample.unix_frac_us + sample.latency_us / 2;
            &&& sample_in(datagram, t1_ticks, recv_ticks, tick_hz, Some(now - behind)) == Some(
                sample,
            )
            &&& 0 <= now - behind <= i64::MAX
        }),
        tick_hz > 0,
    ensures
        sample.offset_us == Some(behind),
{
}

/// Once a round has followed an answer, the clock shows the server's time and
/// half the round trip at the moment the answer came, and a second more for
/// each second that has passed since.
pub proof fn the_clock_follows_the_answer(
    before: RuntimeState,
    best: NtpBest,
    secs: u64,
    now_ticks: u64,
    tick_hz: u64,
)
    requires
        tick_hz > 0,
        best.sample.unix_frac_us < 1_000_000,
        now_ticks == best.sample.recv_ticks + secs * tick_hz,
        secs * tick_hz * 1_000_000 <= u64::MAX,
        secs <= 0x1_0000_0000,
    ensures
        ({
            let after = synced_to(before, Some(best));
            &&& micros_at(after, now_ticks, tick_hz) == Some(
                (best.sample.unix + secs) * 1_000_000 + best.sample.unix_frac_us
                    + best.sample.latency_us as int / 2,
            )
            &&& after.ntp_synced
            &&& after.ntp_server == best.ip
            &&& after.ntp_source == best.source.spec_code()
        }),
        synced_to(before, None) == before,
{
    let t = secs * tick_hz;
    let n = t * 1_000_000;
    assert(n == (secs * 1_000_000) * tick_hz) by (nonlinear_arith)
        requires
            t == secs * tick_hz,
            n == t * 1_000_000,
    ;
    assert(t >= 0) by (nonlinear_arith)
        requires
            t == secs * tick_hz,
            tick_hz > 0,
            secs >= 0,
    ;
    vstd::arithmetic::div_mod::lemma_div_by_multiple(secs * 1_000_000, tick_hz as int);
}

/// The interval of ten minutes' growth is the one in proportion, to the nearest
/// second: 59 minutes more over ten minutes.
pub proof fn the_interval_grows_in_proportion(age_s: int)
    requires
        0 <= age_s <= 600,
    ensures
        -300 <= 600 * (poll_interval(age_s) - 60) - age_s * (3600 - 60) <= 300,
{
}

/// A round without an answer is repeated after a minute and counted as failed.
/// After one with an answer none has failed in a row, and the time of the first
/// sync, from which the intervals grow, stays.
pub proof fn rounds_are_repeated(state: NtpState, best: Option<NtpBest>, uptime_s: u64, first: u64)
    ensures
        best is None ==> next_round(state, best, uptime_s) == 60,
        best is None ==> client_after(state, best, uptime_s).first_sync_uptime_s
            == state.first_sync_uptime_s,
        best is None && state.consecutive_failures < 255 ==> client_after(
            state,
            best,
            uptime_s,
        ).consecutive_failures == state.consecutive_failures + 1,
        best is Some ==> client_after(state, best, uptime_s).consecutive_failures == 0,
        best is Some && state.first_sync_uptime_s is None ==> client_after(
            state,
            best,
            uptime_s,
        ).first_sync_uptime_s == Some(uptime_s) && next_round(state, best, uptime_s) == 60,
        best is Some && state.first_sync_uptime_s == Some(first) ==> client_after(
            state,
            best,
            uptime_s,
        ).first_sync_uptime_s == Some(first),
        best is Some && state.first_sync_uptime_s == Some(first) && uptime_s >= first + 600
            ==> next_round(state, best, uptime_s) == 3600,
        client_after(state, best, uptime_s).nonce == state.nonce,
{
}

/// The configured servers are asked in their order, and then the gateway,
/// unless it is one of them.
pub proof fn every_server_is_asked_once(config: Seq<[u8; 4]>, gateway: Option<[u8; 4]>, i: int)
    requires
        0 <= i < config.len(),
    ensures
        servers_of(config, gateway)[i] == (config[i], NtpSource::Config),
        gateway is None ==> servers_of(config, gateway).len() == config.len(),
        gateway matches Some(ip) ==> {
            let listed = exists|k: int| 0 <= k < config.len() && (#[trigger] config[k])@ == ip@;
            &&& listed ==> servers_of(config, gateway).len() == config.len()
            &&& !listed ==> servers_of(config, gateway).len() == config.len() + 1 && servers_of(
                config,
                gateway,
            ).last() == (ip, NtpSource::DhcpGateway)
        },
{
    if let Some(ip) = gateway {
        if exists|k: int| 0 <= k < config.len() && (#[trigger] config[k])@ == ip@ {
            let k = choose|k: int| 0 <= k < config.len() && (#[trigger] config[k])@ == ip@;
            assert(octets(config)[k] == ip@);
        } else {
            assert forall|k: int| 0 <= k < octets(config).len() implies octets(config)[k] != ip@ by {
                assert(octets(config)[k] == config[k]@);
            }
        }
    }
}

/// A round in which every query was answered counts no failure, and one in
/// which a single query was not counts one for the server of that query.
pub proof fn only_silence_counts_as_failure(
    peers: Seq<Option<NtpPeerState>>,
    list: Seq<PendingQuery>,
    i: int,
)
    requires
        0 <= i < list.len(),
        forall|k: int| 0 <= k < list.len() && k != i ==> (#[trigger] list[k]).done,
    ensures
        peers_after_failures(peers, list) == (if list[i].done {
            peers
        } else {
            peers_after(peers, list[i].source, list[i].ip, PeerUpdate::QueryFailed)
        }),
    decreases list.len(),
{
    let before = list.drop_last();
    assert(list[list.len() - 1] == list.last());
    if i < before.len() {
        assert forall|k: int| 0 <= k < before.len() && k != i implies (#[trigger] before[k]).done by {
            assert(list[k] == before[k]);
        }
        only_silence_counts_as_failure(peers, before, i);
        assert(before[i] == list[i]);
        assert(list[list.len() - 1].done);
    } else {
        assert forall|k: int| 0 <= k < before.len() implies (#[trigger] before[k]).done by {
            assert(list[k] == before[k]);
        }
        if before.len() > 0 {
            only_silence_counts_as_failure(peers, before, 0);
            assert(before[0].done);
        } else {
            assert(peers_after_failures(peers, before) == peers);
        }
    }
}

/// After a round the servers that kept silent have failed. A gateway that is
/// also a configured server shares in the best answer of the configured ones,
/// and in no other case does it count as having answered.
pub proof fn a_configured_gateway_shares_the_best_answer(
    peers: Seq<Option<NtpPeerState>>,
    list: Seq<PendingQuery>,
    best: NtpBest,
    config: Seq<[u8; 4]>,
    gateway: [u8; 4],
    i: int,
    uptime_s: u32,
)
    requires
        0 <= i < config.len(),
    ensures
        peers_after_round(peers, list, None, config, Some(gateway), uptime_s)
            == peers_after_failures(peers, list),
        peers_after_round(peers, list, Some(best), config, None, uptime_s) == peers_after_failures(
            peers,
            list,
        ),
        best.source == NtpSource::DhcpGateway ==> peers_after_round(
            peers,
            list,
            Some(best),
            config,
            Some(gateway),
            uptime_s,
        ) == peers_after_failures(peers, list),
        (forall|k: int| 0 <= k < config.len() ==> (#[trigger] config[k])@ != gateway@)
            ==> peers_after_round(peers, list, Some(best), config, Some(gateway), uptime_s)
            == peers_after_failures(peers, list),
        config[i]@ == gateway@ && best.source == NtpSource::Config ==> peers_after_round(
            peers,
            list,
            Some(best),
            config,
            Some(gateway),
            uptime_s,
        ) == peers_after(
            peers_after_failures(peers, list),
            NtpSource::DhcpGateway,
            gateway,
            PeerUpdate::Sample {
                stratum: best.sample.stratum,
                latency_us: best.sample.latency_us,
                offset_us: best.sample.offset_us,
                uptime_s,
            },
        ),
{
    assert(octets(config)[i] == config[i]@);
    if forall|k: int| 0 <= k < config.len() ==> (#[trigger] config[k])@ != gateway@ {
        if octets(config).contains(gateway@) {
            let k = choose|k: int| 0 <= k < octets(config).len() && octets(config)[k] == gateway@;
            assert(octets(config)[k] == config[k]@);
        }
    }
}

} // verus!
