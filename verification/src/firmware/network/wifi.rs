//! Wi-Fi station: when to scan, when to connect, and what the state of the
//! link means for the device.

use vstd::prelude::*;
use crate::firmware::config::{configured, configured_unsigned};
use crate::firmware::shared::{ipv4_of, NtpSource};
use crate::firmware::status::{
    before_slash, clear_ip, ip_lost, mark_net_dhcp_pending, mark_net_link_down, peers_after,
    peers_distinct, update_dhcp_ntp_server, update_ip_from_cidr, without_other_gateways,
    without_source, NetState, PeerUpdate, RuntimeState,
};
use crate::text::{decimal, decimal_read_back};

verus! {

pub const WIFI_CONNECT_TIMEOUT_SECS: u64 = 20;

pub const WIFI_DHCP_WAIT_TIMEOUT_SECS: u64 = 30;

pub const WIFI_SCAN_TIMEOUT_SECS: u64 = 12;

pub const WIFI_SCAN_EVERY_ATTEMPTS_DEFAULT: u32 = 6;

// ── Connection ───────────────────────────────────────────────────────────────

/// The network to join and its password, which may be empty. Wi-Fi is off
/// where no network is configured.
pub fn credentials<'a>(ssid: Option<&'a str>, password: Option<&'a str>) -> (r: Option<
    (&'a str, &'a str),
>)
    ensures
        match r {
            Some(c) => ssid == Some(c.0) && c.0@.len() > 0 && c.1@ == (match password {
                Some(p) => p@,
                None => ""@,
            }),
            None => ssid matches Some(s) ==> s@.len() == 0,
        },
{
    match ssid {
        Some(s) => if s.is_empty() {
            None
        } else {
            match password {
                Some(p) => Some((s, p)),
                None => Some((s, "")),
            }
        },
        None => None,
    }
}

/// How many attempts to connect there are from one scan to the next.
pub open spec fn scan_interval(config: Option<&str>) -> nat {
    match configured(config, u32::MAX as nat) {
        Some(v) => if v > 0 {
            v
        } else {
            WIFI_SCAN_EVERY_ATTEMPTS_DEFAULT as nat
        },
        None => WIFI_SCAN_EVERY_ATTEMPTS_DEFAULT as nat,
    }
}

/// How many attempts to connect there are from one scan to the next.
pub fn scan_every_attempts(config: Option<&str>) -> (r: u32)
    ensures
        r == scan_interval(config),
        r > 0,
{
    match configured_unsigned(config, u32::MAX as u64) {
        Some(v) => if v > 0 {
            v as u32
        } else {
            WIFI_SCAN_EVERY_ATTEMPTS_DEFAULT
        },
        None => WIFI_SCAN_EVERY_ATTEMPTS_DEFAULT,
    }
}

/// What to do next about the connection.
#[derive(Clone, Copy, Debug, PartialEq, Eq, Structural)]
pub enum WifiAction {
    /// Start the controller.
    Start,
    /// Look at the connection.
    Check,
    /// Connect, after a scan for networks where one is due.
    Connect { scan: bool },
    /// Begin anew after some seconds.
    Wait { secs: u64 },
}

/// What to do about the controller: `None` where its state is not known.
pub fn controller_action(is_started: Option<bool>) -> (r: WifiAction)
    ensures
        r == (match is_started {
            Some(true) => WifiAction::Check,
            Some(false) => WifiAction::Start,
            None => WifiAction::Wait { secs: 2 },
        }),
{
    match is_started {
        Some(true) => WifiAction::Check,
        Some(false) => WifiAction::Start,
        None => WifiAction::Wait { secs: 2 },
    }
}

/// What to do once the controller was started or not.
pub fn after_start(started: bool) -> (r: WifiAction)
    ensures
        r == (if started {
            WifiAction::Check
        } else {
            WifiAction::Wait { secs: 2 }
        }),
{
    if started {
        WifiAction::Check
    } else {
        WifiAction::Wait { secs: 2 }
    }
}

/// Whether an attempt begins with a scan: the first one and every so many,
/// while there is no link.
pub open spec fn scan_is_due(attempt: int, link_up: bool, interval: int) -> bool {
    !link_up && (attempt == 1 || (interval > 0 && attempt % interval == 0))
}

/// What to do about the connection. The attempts since it was last there are
/// counted.
pub fn connection_action(attempts: &mut u32, connected: bool, link_up: bool, interval: u32) -> (r:
    WifiAction)
    ensures
        connected ==> *final(attempts) == 0 && r == (WifiAction::Wait { secs: 5 }),
        !connected ==> {
            &&& *final(attempts) == (if *old(attempts) < u32::MAX {
                *old(attempts) + 1
            } else {
                u32::MAX as int
            })
            &&& r == (WifiAction::Connect {
                scan: scan_is_due(*final(attempts) as int, link_up, interval as int),
            })
        },
{
    if connected {
        *attempts = 0;
        return WifiAction::Wait { secs: 5 };
    }
    *attempts = attempts.saturating_add(1);
    let due: bool = *attempts == 1 || (interval > 0 && *attempts % interval == 0);
    WifiAction::Connect { scan: !link_up && due }
}

/// What to do after an attempt to connect, however it went.
pub fn after_connect() -> (r: WifiAction)
    ensures
        r == (WifiAction::Wait { secs: 5 }),
{
    WifiAction::Wait { secs: 5 }
}

/// While there is no link, an attempt out of any so many in a row begins with
/// a scan.
pub proof fn scans_come_regularly(attempt: int, interval: int) -> (due: int)
    requires
        attempt >= 1,
        interval >= 1,
    ensures
        attempt <= due < attempt + interval,
        scan_is_due(due, false, interval),
{
    let r = attempt % interval;
    let due = if r == 0 {
        attempt
    } else {
        attempt + interval - r
    };
    assert(due % interval == 0) by (nonlinear_arith)
        requires
            interval >= 1,
            r == attempt % interval,
            due == (if r == 0 {
                attempt
            } else {
                attempt + interval - r
            }),
    ;
    due
}

// ── Network configuration ────────────────────────────────────────────────────

/// What is remembered of waiting for the network.
#[derive(Clone, Copy, Debug, PartialEq, Eq, Structural)]
pub struct WaitLog {
    pub last_link_up: Option<bool>,
    pub ticks: u8,
}

impl WaitLog {
    /// Nothing was waited for yet.
    pub fn new() -> (r: Self)
        ensures
            r == (WaitLog { last_link_up: None, ticks: 0 }),
    {
        WaitLog { last_link_up: None, ticks: 0 }
    }
}

/// Takes in that the network is configured: the address, and the gateway as an
/// NTP peer, where the configuration has them.
pub fn config_up(
    runtime: &mut RuntimeState,
    log: &mut WaitLog,
    config: Option<(&str, Option<[u8; 4]>)>,
)
    ensures
        *final(log) == (WaitLog { ticks: 0, ..*old(log) }),
        match config {
            Some((address, gateway)) => {
                &&& match ipv4_of(before_slash(address@)) {
                    Some(ip) => {
                        &&& final(runtime).ip@ == ip
                        &&& *final(runtime) == (RuntimeState {
                            ip: final(runtime).ip,
                            ip_valid: true,
                            net_state: NetState::HasIp.spec_code(),
                            peers: final(runtime).peers,
                            ..*old(runtime)
                        })
                    },
                    None => *final(runtime) == (RuntimeState {
                        ip_valid: false,
                        net_state: NetState::DhcpPending.spec_code(),
                        peers: final(runtime).peers,
                        ..*old(runtime)
                    }),
                }
                &&& final(runtime).peers@ == (match gateway {
                    Some(server) => peers_after(
                        without_other_gateways(old(runtime).peers@, server@),
                        NtpSource::DhcpGateway,
                        server,
                        PeerUpdate::Seen,
                    ),
                    None => old(runtime).peers@,
                })
            },
            None => *final(runtime) == *old(runtime),
        },
        peers_distinct(old(runtime).peers@) ==> peers_distinct(final(runtime).peers@),
{
    if let Some((address, gateway)) = config {
        update_ip_from_cidr(runtime, address);
        if let Some(server) = gateway {
            update_dhcp_ntp_server(runtime, server);
        }
    }
    log.ticks = 0;
}

/// Takes in that the network configuration was lost.
pub fn config_down(runtime: &mut RuntimeState, log: &mut WaitLog)
    ensures
        *final(log) == (WaitLog { last_link_up: Some(false), ..*old(log) }),
        ip_lost(*old(runtime), *final(runtime), NetState::LinkDown),
        final(runtime).peers@ == without_source(old(runtime).peers@, NtpSource::DhcpGateway),
        peers_distinct(old(runtime).peers@) ==> peers_distinct(final(runtime).peers@),
{
    clear_ip(runtime);
    log.last_link_up = Some(false);
}

/// Whether a wait is reported, and what is remembered of it.
pub open spec fn wait_noted(log: WaitLog, link_up: bool) -> (bool, WaitLog) {
    let reported = log.last_link_up != Some(link_up) || log.ticks >= 5;
    (
        reported,
        WaitLog {
            last_link_up: Some(link_up),
            ticks: if reported {
                0
            } else {
                (log.ticks + 1) as u8
            },
        },
    )
}

/// Takes in that a wait for the network configuration timed out. Returns
/// whether to report it: when the state of the link has changed, and at every
/// sixth time in a row.
pub fn wait_timed_out(runtime: &mut RuntimeState, log: &mut WaitLog, link_up: bool) -> (r: bool)
    ensures
        ip_lost(
            *old(runtime),
            *final(runtime),
            if link_up {
                NetState::DhcpPending
            } else {
                NetState::LinkDown
            },
        ),
        final(runtime).peers@ == without_source(old(runtime).peers@, NtpSource::DhcpGateway),
        peers_distinct(old(runtime).peers@) ==> peers_distinct(final(runtime).peers@),
        r == (old(log).last_link_up != Some(link_up) || old(log).ticks >= 5),
        *final(log) == (WaitLog {
            last_link_up: Some(link_up),
            ticks: if r {
                0
            } else {
                (old(log).ticks + 1) as u8
            },
        }),
        (r, *final(log)) == wait_noted(*old(log), link_up),
{
    if link_up {
        mark_net_dhcp_pending(runtime);
    } else {
        mark_net_link_down(runtime);
    }
    let ticks: u8 = log.ticks.saturating_add(1);
    let changed: bool = match log.last_link_up {
        Some(last) => last != link_up,
        None => true,
    };
    let report: bool = changed || ticks >= 6;
    log.ticks = if report {
        0
    } else {
        ticks
    };
    log.last_link_up = Some(link_up);
    report
}

/// The first attempt and every so many begin with a scan, and none while the
/// link is up.
pub proof fn scans_begin_the_first_attempt(rounds: int, interval: int)
    requires
        rounds >= 1,
        interval >= 1,
    ensures
        scan_is_due(1, false, interval),
        scan_is_due(rounds * interval, false, interval),
        !scan_is_due(1, true, interval),
        !scan_is_due(rounds * interval, true, interval),
        interval > 2 ==> !scan_is_due(2, false, interval),
        interval > 1 ==> !scan_is_due(rounds * interval + 1, false, interval),
{
    assert((rounds * interval) % interval == 0) by (nonlinear_arith)
        requires
            interval >= 1,
    ;
    if interval > 1 {
        assert((rounds * interval + 1) % interval == 1) by (nonlinear_arith)
            requires
                interval > 1,
        ;
        assert(rounds * interval + 1 > 1) by (nonlinear_arith)
            requires
                interval > 1,
                rounds >= 1,
        ;
        if interval > 2 {
            assert(2int % interval == 2) by (nonlinear_arith)
                requires
                    interval > 2,
            ;
        }
    }
}

/// The attempts from one scan to the next are the configured number, or six
/// where there is none or it is zero.
pub proof fn the_interval_of_scans_is_configured(config: Option<&str>, n: nat)
    requires
        0 < n <= u32::MAX,
    ensures
        config is None ==> scan_interval(config) == 6,
        config matches Some(s) ==> (s@ == decimal(n) ==> scan_interval(config) == n),
        scan_interval(config) > 0,
{
    decimal_read_back(n, u32::MAX as nat);
}

/// A wait is reported where the link has changed since the last one. While it
/// stays as it is, five waits pass in silence and the sixth is reported.
pub proof fn every_sixth_wait_is_reported(log: WaitLog, link_up: bool)
    requires
        log.last_link_up != Some(link_up),
    ensures
        ({
            let w0 = wait_noted(log, link_up);
            let w1 = wait_noted(w0.1, link_up);
            let w2 = wait_noted(w1.1, link_up);
            let w3 = wait_noted(w2.1, link_up);
            let w4 = wait_noted(w3.1, link_up);
            let w5 = wait_noted(w4.1, link_up);
            let w6 = wait_noted(w5.1, link_up);
            let w7 = wait_noted(w6.1, link_up);
            &&& w0.0 && w6.0
            &&& !w1.0 && !w2.0 && !w3.0 && !w4.0 && !w5.0 && !w7.0
            &&& wait_noted(w3.1, !link_up).0
        }),
{
}

} // verus!
