//! Types and pure functions shared across the firmware: NTP peer ranking,
//! IPv4 parsing, host names, checksums and calendar dates.

use vstd::prelude::*;
use vstd::utf8::{encode_utf8, is_ascii_chars, is_ascii_chars_encode_utf8};
use crate::bytes::bytes_equal;
use crate::text::{
    append_digits, decimal_value, digits, fixed_width_digits_stand_for_the_number, parse_unsigned,
    pow10, read_unsigned, split, split_chars, texts, to_chars, trim, trim_chars,
};
use super::bounded::{
    addresses, addresses_new, addresses_push, addresses_slice, string32, string32_new,
    string32_push, string32_push_str,
};

verus! {

pub const NTP_MAX_CONFIG_SERVERS: usize = 4;

/// Where an NTP server came from.
#[derive(Clone, Copy, Debug, PartialEq, Eq, Structural)]
pub enum NtpSource {
    Unknown,
    Config,
    DhcpGateway,
}

impl NtpSource {
    /// The code of a source.
    pub open spec fn spec_code(self) -> u8 {
        match self {
            NtpSource::Unknown => 0,
            NtpSource::Config => 1,
            NtpSource::DhcpGateway => 2,
        }
    }

    /// The source that a code stands for.
    pub open spec fn of_code(code: u8) -> NtpSource {
        if code == 1 {
            NtpSource::Config
        } else if code == 2 {
            NtpSource::DhcpGateway
        } else {
            NtpSource::Unknown
        }
    }

    /// The name of a source.
    pub open spec fn spec_label(self) -> Seq<char> {
        match self {
            NtpSource::Unknown => "unknown"@,
            NtpSource::Config => "config"@,
            NtpSource::DhcpGateway => "dhcp_gateway"@,
        }
    }

    /// The code of this source.
    pub fn code(self) -> (r: u8)
        ensures
            r == self.spec_code(),
    {
        match self {
            NtpSource::Unknown => 0,
            NtpSource::Config => 1,
            NtpSource::DhcpGateway => 2,
        }
    }

    /// The source that a code stands for.
    pub fn from_u8(code: u8) -> (r: Self)
        ensures
            r == NtpSource::of_code(code),
    {
        match code {
            1 => NtpSource::Config,
            2 => NtpSource::DhcpGateway,
            _ => NtpSource::Unknown,
        }
    }

    /// The name of this source.
    pub fn label(self) -> (r: &'static str)
        ensures
            r@ == self.spec_label(),
    {
        match self {
            NtpSource::Unknown => "unknown",
            NtpSource::Config => "config",
            NtpSource::DhcpGateway => "dhcp_gateway",
        }
    }
}

/// A source is read back from its code.
pub proof fn ntp_source_code_read_back(source: NtpSource)
    ensures
        NtpSource::of_code(source.spec_code()) == source,
{
}

// ── IPv4 addresses ───────────────────────────────────────────────────────────

/// The IPv4 address that a text reads as: four numbers of at most 255 between
/// dots.
pub open spec fn ipv4_of(s: Seq<char>) -> Option<Seq<u8>> {
    let parts = split(s, '.');
    if parts.len() == 4 && read_unsigned(parts[0], 255) is Some && read_unsigned(
        parts[1],
        255,
    ) is Some && read_unsigned(parts[2], 255) is Some && read_unsigned(parts[3], 255) is Some {
        Some(
            seq![
                read_unsigned(parts[0], 255)->0 as u8,
                read_unsigned(parts[1], 255)->0 as u8,
                read_unsigned(parts[2], 255)->0 as u8,
                read_unsigned(parts[3], 255)->0 as u8,
            ],
        )
    } else {
        None
    }
}

/// Reads an IPv4 address from characters.
pub fn parse_ipv4_chars(s: &[char]) -> (r: Option<[u8; 4]>)
    ensures
        match r {
            Some(ip) => ipv4_of(s@) == Some(ip@),
            None => ipv4_of(s@) is None,
        },
{
    let parts: Vec<Vec<char>> = split_chars(s, '.');
    assert(texts(parts@).len() == parts@.len());
    if parts.len() != 4 {
        return None;
    }
    assert forall|i: int| 0 <= i < 4 implies (#[trigger] parts@[i])@ == split(s@, '.')[i] by {
        assert(texts(parts@)[i] == parts@[i]@);
    }
    let mut octets: [u8; 4] = [0; 4];
    let mut i: usize = 0;
    while i < 4
        invariant
            i <= 4,
            parts@.len() == 4,
            split(s@, '.').len() == 4,
            forall|j: int| 0 <= j < 4 ==> (#[trigger] parts@[j])@ == split(s@, '.')[j],
            forall|j: int|
                0 <= j < i ==> read_unsigned(#[trigger] split(s@, '.')[j], 255) == Some(
                    octets@[j] as nat,
                ),
        decreases 4 - i,
    {
        match parse_unsigned(parts[i].as_slice(), 255) {
            Some(v) => {
                octets[i] = v as u8;
            },
            None => {
                assert(read_unsigned(split(s@, '.')[i as int], 255) is None);
                return None;
            },
        }
        i = i + 1;
    }
    assert(octets@ =~= ipv4_of(s@)->0);
    Some(octets)
}

/// Reads an IPv4 address.
pub fn parse_ipv4_octets(s: &str) -> (r: Option<[u8; 4]>)
    ensures
        match r {
            Some(ip) => ipv4_of(s@) == Some(ip@),
            None => ipv4_of(s@) is None,
        },
{
    parse_ipv4_chars(to_chars(s).as_slice())
}

// ── NTP peers ────────────────────────────────────────────────────────────────

/// The peers that the entries of a comma-separated list give: the addresses
/// among them, each once, in order, and no more than four.
pub open spec fn peers_of(entries: Seq<Seq<char>>) -> Seq<Seq<u8>>
    decreases entries.len(),
{
    if entries.len() == 0 {
        Seq::empty()
    } else {
        let before = peers_of(entries.drop_last());
        match ipv4_of(trim(entries.last())) {
            Some(ip) => if before.contains(ip) || before.len() >= NTP_MAX_CONFIG_SERVERS {
                before
            } else {
                before.push(ip)
            },
            None => before,
        }
    }
}

/// The configured peers: those of the list or, where it gives none, the single
/// fallback.
pub open spec fn config_peers(list: Option<Seq<char>>, fallback: Option<Seq<char>>) -> Seq<
    Seq<u8>,
> {
    let listed = match list {
        Some(s) => peers_of(split(s, ',')),
        None => Seq::empty(),
    };
    if listed.len() > 0 {
        listed
    } else {
        match fallback {
            Some(s) => match ipv4_of(s) {
                Some(ip) => seq![ip],
                None => Seq::empty(),
            },
            None => Seq::empty(),
        }
    }
}

/// The octets of each address.
pub open spec fn octets(list: Seq<[u8; 4]>) -> Seq<Seq<u8>> {
    list.map_values(|ip: [u8; 4]| ip@)
}

/// Reads the configured NTP peers.
pub fn ntp_config_peers_from(config_list: Option<&str>, fallback_single: Option<&str>) -> (peers:
    heapless::Vec<[u8; 4], NTP_MAX_CONFIG_SERVERS>)
    ensures
        octets(addresses(peers)) == config_peers(
            match config_list {
                Some(s) => Some(s@),
                None => None,
            },
            match fallback_single {
                Some(s) => Some(s@),
                None => None,
            },
        ),
{
    let mut peers = addresses_new();
    assert(octets(addresses(peers)) == Seq::<Seq<u8>>::empty());
    if let Some(list) = config_list {
        let entries: Vec<Vec<char>> = split_chars(to_chars(list).as_slice(), ',');
        let ghost parts = split(list@, ',');
        assert(texts(entries@) == parts);
        let mut i: usize = 0;
        assert(parts.take(0) == Seq::<Seq<char>>::empty());
        while i < entries.len()
            invariant
                i <= entries@.len() == parts.len(),
                texts(entries@) == parts,
                octets(addresses(peers)) == peers_of(parts.take(i as int)),
            decreases entries@.len() - i,
        {
            assert(texts(entries@)[i as int] == entries@[i as int]@);
            assert(parts.take(i + 1).drop_last() == parts.take(i as int));
            if let Some(ip) = parse_ipv4_chars(trim_chars(entries[i].as_slice())) {
                let known: bool = contains_address(addresses_slice(&peers), ip);
                if !known {
                    let ghost before = addresses(peers);
                    let pushed: Result<(), [u8; 4]> = addresses_push(&mut peers, ip);
                    assert(octets(before.push(ip)) == octets(before).push(ip@));
                }
            }
            i = i + 1;
        }
        assert(parts.take(i as int) == parts);
    }
    if addresses_slice(&peers).len() == 0 {
        if let Some(single) = fallback_single {
            if let Some(ip) = parse_ipv4_octets(single) {
                let pushed: Result<(), [u8; 4]> = addresses_push(&mut peers, ip);
                assert(octets(addresses(peers)) == seq![ip@]);
            }
        }
    }
    peers
}

/// Tests whether a list of addresses holds one.
pub fn contains_address(list: &[[u8; 4]], ip: [u8; 4]) -> (r: bool)
    ensures
        r == octets(list@).contains(ip@),
{
    let mut i: usize = 0;
    while i < list.len()
        invariant
            i <= list@.len(),
            forall|j: int| 0 <= j < i ==> (#[trigger] list@[j])@ != ip@,
        decreases list@.len() - i,
    {
        let known: [u8; 4] = list[i];
        if bytes_equal(&known, &ip) {
            assert(octets(list@)[i as int] == ip@);
            return true;
        }
        i = i + 1;
    }
    assert forall|j: int| 0 <= j < octets(list@).len() implies octets(list@)[j] != ip@ by {
        assert(octets(list@)[j] == list@[j]@);
    }
    false
}

/// No peer is configured twice, and there are never more than four.
pub proof fn config_peers_distinct(list: Option<Seq<char>>, fallback: Option<Seq<char>>)
    ensures
        config_peers(list, fallback).no_duplicates(),
        config_peers(list, fallback).len() <= NTP_MAX_CONFIG_SERVERS,
{
    if let Some(s) = list {
        peers_of_distinct(split(s, ','));
    }
}

proof fn peers_of_distinct(entries: Seq<Seq<char>>)
    ensures
        peers_of(entries).no_duplicates(),
        peers_of(entries).len() <= NTP_MAX_CONFIG_SERVERS,
    decreases entries.len(),
{
    if entries.len() > 0 {
        peers_of_distinct(entries.drop_last());
    }
}

/// What the choice of an NTP master looks at.
#[derive(Clone, Copy, Debug, PartialEq, Eq, Structural)]
pub struct NtpSelectionSample {
    pub stratum: u8,
    pub latency_ms: u32,
    pub jitter_ms: u32,
}

/// Whether one sample is better than another: by stratum, then latency, then
/// jitter, the lower the better.
pub open spec fn better(a: NtpSelectionSample, b: NtpSelectionSample) -> bool {
    if a.stratum != b.stratum {
        a.stratum < b.stratum
    } else if a.latency_ms != b.latency_ms {
        a.latency_ms < b.latency_ms
    } else {
        a.jitter_ms < b.jitter_ms
    }
}

/// Tests whether a candidate takes over as NTP master.
pub fn should_replace_master(current: NtpSelectionSample, candidate: NtpSelectionSample) -> (r:
    bool)
    ensures
        r == better(candidate, current),
{
    candidate.stratum < current.stratum || (candidate.stratum == current.stratum
        && candidate.latency_ms < current.latency_ms) || (candidate.stratum == current.stratum
        && candidate.latency_ms == current.latency_ms && candidate.jitter_ms < current.jitter_ms)
}

/// Ranking is a strict total order: no sample beats itself, of two different
/// samples exactly one beats the other, and beating is transitive.
pub proof fn ranking_is_total_order(
    a: NtpSelectionSample,
    b: NtpSelectionSample,
    c: NtpSelectionSample,
)
    ensures
        !better(a, a),
        a != b ==> (better(a, b) <==> !better(b, a)),
        better(a, b) && better(b, c) ==> better(a, c),
{
}

// ── Host names ───────────────────────────────────────────────────────────────

/// A byte of a host name: letters in lower case, digits and dashes as they
/// are, a dash in place of anything else.
pub open spec fn host_char(b: u8) -> char {
    if 65 <= b <= 90 {
        (b + 32) as char
    } else if 97 <= b <= 122 || 48 <= b <= 57 {
        b as char
    } else {
        '-'
    }
}

/// Text without the dashes at its start.
pub open spec fn strip_front(s: Seq<char>) -> Seq<char>
    decreases s.len(),
{
    if s.len() > 0 && s[0] == '-' {
        strip_front(s.drop_first())
    } else {
        s
    }
}

/// Text without the dashes at its end.
pub open spec fn strip_back(s: Seq<char>) -> Seq<char>
    decreases s.len(),
{
    if s.len() > 0 && s.last() == '-' {
        strip_back(s.drop_last())
    } else {
        s
    }
}

/// The first characters of a text, 32 at most.
pub open spec fn first32(s: Seq<char>) -> Seq<char> {
    if s.len() > 32 {
        s.take(32)
    } else {
        s
    }
}

/// A DHCP-safe host name: the characters of the input made safe, without
/// dashes at either end and cut to 32; `brewster` where nothing is left.
pub open spec fn host_name(input: Seq<u8>) -> Seq<char> {
    let name = strip_back(first32(strip_front(input.map_values(|b: u8| host_char(b)))));
    if name.len() > 0 {
        name
    } else {
        "brewster"@
    }
}

/// Whether every character may stand in a host name.
pub open spec fn host_chars(s: Seq<char>) -> bool {
    forall|i: int|
        0 <= i < s.len() ==> {
            let c = #[trigger] s[i] as int;
            97 <= c <= 122 || 48 <= c <= 57 || c == 45
        }
}

proof fn strip_front_push(s: Seq<char>, c: char)
    ensures
        strip_front(s.push(c)) == (if strip_front(s).len() == 0 && c == '-' {
            Seq::empty()
        } else {
            strip_front(s).push(c)
        }),
    decreases s.len(),
{
    reveal_with_fuel(strip_front, 2);
    if s.len() > 0 {
        assert(s.push(c).drop_first() == s.drop_first().push(c));
        strip_front_push(s.drop_first(), c);
    } else {
        assert(s.push(c).drop_first() == Seq::<char>::empty());
        assert(s.push(c) == strip_front(s).push(c));
    }
}

proof fn strip_front_keeps(s: Seq<char>)
    requires
        host_chars(s),
    ensures
        host_chars(strip_front(s)),
        strip_front(s).len() <= s.len(),
        strip_front(s).len() > 0 ==> strip_front(s)[0] != '-',
    decreases s.len(),
{
    if s.len() > 0 && s[0] == '-' {
        strip_front_keeps(s.drop_first());
    }
}

proof fn strip_back_keeps(s: Seq<char>)
    requires
        host_chars(s),
    ensures
        host_chars(strip_back(s)),
        strip_back(s).len() <= s.len(),
        strip_back(s).len() > 0 ==> strip_back(s).last() != '-' && strip_back(s)[0] == s[0],
    decreases s.len(),
{
    if s.len() > 0 && s.last() == '-' {
        strip_back_keeps(s.drop_last());
    }
}

/// A host name is 1 to 32 characters of `a-z`, `0-9` and `-`, with no dash at
/// either end.
pub proof fn host_name_is_safe(input: Seq<u8>)
    ensures
        1 <= host_name(input).len() <= 32,
        host_chars(host_name(input)),
        host_name(input)[0] != '-',
        host_name(input).last() != '-',
{
    let mapped = input.map_values(|b: u8| host_char(b));
    assert(host_chars(mapped));
    strip_front_keeps(mapped);
    let cut = first32(strip_front(mapped));
    assert(host_chars(cut));
    strip_back_keeps(cut);
    reveal_strlit("brewster");
}

/// Normalizing a host name again changes nothing.
pub proof fn host_name_is_stable(input: Seq<u8>)
    ensures
        host_name(Seq::new(host_name(input).len(), |i: int| host_name(input)[i] as u8))
            == host_name(input),
{
    host_name_is_safe(input);
    let name = host_name(input);
    let again = Seq::new(name.len(), |i: int| name[i] as u8);
    let mapped = again.map_values(|b: u8| host_char(b));
    assert forall|i: int| 0 <= i < name.len() implies mapped[i] == name[i] by {
        let c = name[i];
        assert(97 <= c as int <= 122 || 48 <= c as int <= 57 || c as int == 45);
        assert(again[i] as char == c);
    }
    assert(mapped =~= name);
    assert(strip_front(name) == name);
    assert(strip_back(name) == name);
}

/// Makes a host name DHCP-safe.
pub fn normalized_dhcp_hostname(input: &str) -> (r: heapless::String<32>)
    ensures
        string32(r) == host_name(encode_utf8(input@)),
{
    let bytes: &[u8] = input.as_bytes();
    let ghost mapped = bytes@.map_values(|b: u8| host_char(b));
    let mut name: Vec<char> = Vec::new();
    let mut i: usize = 0;
    assert(mapped.take(0) == Seq::<char>::empty());
    while i < bytes.len()
        invariant
            i <= bytes@.len(),
            mapped == bytes@.map_values(|b: u8| host_char(b)),
            name@ == first32(strip_front(mapped.take(i as int))),
        decreases bytes@.len() - i,
    {
        let b: u8 = bytes[i];
        let c: char = if 65 <= b && b <= 90 {
            (b + 32) as char
        } else if (97 <= b && b <= 122) || (48 <= b && b <= 57) {
            b as char
        } else {
            '-'
        };
        assert(mapped[i as int] == c);
        assert(mapped.take(i + 1) == mapped.take(i as int).push(c));
        proof {
            strip_front_push(mapped.take(i as int), c);
        }
        if name.len() < 32 && !(name.len() == 0 && c == '-') {
            name.push(c);
        }
        i = i + 1;
    }
    assert(mapped.take(i as int) == mapped);
    let ghost cut = name@;
    while name.len() > 0 && name[name.len() - 1] == '-'
        invariant
            strip_back(name@) == strip_back(cut),
        decreases name@.len(),
    {
        let dash: Option<char> = name.pop();
    }
    let mut out = string32_new();
    proof {
        host_name_is_safe(encode_utf8(input@));
    }
    if name.len() == 0 {
        let pushed: Result<(), ()> = string32_push_str(&mut out, "brewster");
        proof {
            let text = Seq::<char>::empty() + "brewster"@;
            assert(text == "brewster"@);
            ascii_length(text);
        }
    } else {
        assert(name@ == host_name(encode_utf8(input@)));
        let mut k: usize = 0;
        while k < name.len()
            invariant
                k <= name@.len() <= 32,
                host_chars(name@),
                string32(out) == name@.take(k as int),
            decreases name@.len() - k,
        {
            assert(name@.take(k + 1) == name@.take(k as int).push(name@[k as int]));
            assert(host_chars(name@.take(k + 1)));
            proof {
                ascii_length(name@.take(k + 1));
            }
            let pushed: Result<(), ()> = string32_push(&mut out, name[k]);
            k = k + 1;
        }
        assert(name@.take(k as int) == name@);
    }
    out
}

/// Host name characters take one byte each.
proof fn ascii_length(s: Seq<char>)
    requires
        host_chars(s),
    ensures
        encode_utf8(s).len() == s.len(),
{
    assert forall|i: int| 0 <= i < s.len() implies '\0' <= #[trigger] s[i] <= '\u{7f}' by {
        let c = s[i] as int;
    }
    assert(is_ascii_chars(s));
    is_ascii_chars_encode_utf8(s);
}

// ── Checksums ────────────────────────────────────────────────────────────────

/// One step of the Maxim CRC-8 register (polynomial 0x8C, bits reversed).
pub open spec fn crc8_shift(x: u8) -> u8 {
    if x & 1 == 1 {
        (x >> 1) ^ 0x8c
    } else {
        x >> 1
    }
}

/// The register after `n` steps.
pub open spec fn crc8_shifts(x: u8, n: nat) -> u8
    decreases n,
{
    if n == 0 {
        x
    } else {
        crc8_shift(crc8_shifts(x, (n - 1) as nat))
    }
}

/// The Maxim CRC-8 of bytes: each byte is mixed into the register, which then
/// makes eight steps.
pub open spec fn crc8(bytes: Seq<u8>) -> u8
    decreases bytes.len(),
{
    if bytes.len() == 0 {
        0
    } else {
        crc8_shifts(crc8(bytes.drop_last()) ^ bytes.last(), 8)
    }
}

/// Computes the Maxim CRC-8.
pub fn crc8_maxim(bytes: &[u8]) -> (r: u8)
    ensures
        r == crc8(bytes@),
{
    let mut crc: u8 = 0;
    let mut i: usize = 0;
    while i < bytes.len()
        invariant
            i <= bytes@.len(),
            crc == crc8(bytes@.take(i as int)),
        decreases bytes@.len() - i,
    {
        assert(bytes@.take(i + 1).drop_last() == bytes@.take(i as int));
        let ghost mixed = crc ^ bytes@[i as int];
        let mut value: u8 = bytes[i];
        let mut step: u8 = 0;
        while step < 8
            invariant
                step <= 8,
                crc ^ value == crc8_shifts(mixed, step as nat),
                step == 0 || value < 128,
                step <= 1 || value < 64,
                step <= 2 || value < 32,
                step <= 3 || value < 16,
                step <= 4 || value < 8,
                step <= 5 || value < 4,
                step <= 6 || value < 2,
                step <= 7 || value < 1,
            decreases 8 - step,
        {
            let mix: u8 = (crc ^ value) & 0x01;
            let next: u8 = if mix != 0 {
                (crc >> 1) ^ 0x8c
            } else {
                crc >> 1
            };
            let rest: u8 = value >> 1;
            assert(next ^ rest == crc8_shift(crc ^ value) && 2 * rest <= value) by (bit_vector)
                requires
                    mix == (crc ^ value) & 0x01,
                    next == if mix != 0 {
                        (crc >> 1) ^ 0x8c
                    } else {
                        crc >> 1
                    },
                    rest == value >> 1,
            ;
            crc = next;
            value = rest;
            step = step + 1;
        }
        assert(crc ^ 0 == crc) by (bit_vector);
        i = i + 1;
    }
    assert(bytes@.take(i as int) == bytes@);
    crc
}

/// Bytes followed by their own checksum have the checksum zero.
pub proof fn crc8_of_checked_bytes(bytes: Seq<u8>)
    ensures
        crc8(bytes.push(crc8(bytes))) == 0,
{
    let c = crc8(bytes);
    assert(bytes.push(c).drop_last() == bytes);
    assert(c ^ c == 0) by (bit_vector);
    crc8_of_zero(8);
}

proof fn crc8_of_zero(n: nat)
    ensures
        crc8_shifts(0, n) == 0,
    decreases n,
{
    if n > 0 {
        crc8_of_zero((n - 1) as nat);
        assert(crc8_shift(0) == 0) by (bit_vector);
    }
}

// ── Dates ────────────────────────────────────────────────────────────────────

/// Whether a year of the Gregorian calendar has 366 days.
pub open spec fn is_leap_year(y: int) -> bool {
    y % 4 == 0 && (y % 100 != 0 || y % 400 == 0)
}

/// The number of days in a month.
pub open spec fn month_length(y: int, m: int) -> int {
    if m == 2 {
        if is_leap_year(y) {
            29
        } else {
            28
        }
    } else if m == 4 || m == 6 || m == 9 || m == 11 {
        30
    } else {
        31
    }
}

/// The number of days of a year before a month.
pub open spec fn days_before_month(y: int, m: int) -> int
    decreases m,
{
    if m <= 1 {
        0
    } else {
        days_before_month(y, m - 1) + month_length(y, m - 1)
    }
}

/// The number of leap years from year 1 to year `y`.
pub open spec fn leap_years_to(y: int) -> int {
    y / 4 - y / 100 + y / 400
}

/// Whether a date is one of the Gregorian calendar.
pub open spec fn is_date(y: int, m: int, d: int) -> bool {
    1 <= m <= 12 && 1 <= d <= month_length(y, m)
}

/// The number of days from 1 January 1970 to a date.
pub open spec fn day_number(y: int, m: int, d: int) -> int {
    365 * (y - 1970) + leap_years_to(y - 1) - leap_years_to(1969) + days_before_month(y, m) + d - 1
}

/// The year of an era of 400 years that a day of the era lies in, years
/// starting on 1 March.
proof fn year_of_era(doe: int)
    requires
        0 <= doe <= 146096,
    ensures
        ({
            let yoe = (doe - doe / 1460 + doe / 36524 - doe / 146096) / 365;
            let doy = doe - (365 * yoe + yoe / 4 - yoe / 100);
            &&& 0 <= yoe <= 399
            &&& 0 <= doy <= 365
            &&& doy == 365 ==> is_leap_year(yoe + 1)
        }),
{
}

/// The days of a year before each of its months.
proof fn days_before_months(y: int)
    ensures
        days_before_month(y, 1) == 0,
        days_before_month(y, 2) == 31,
        days_before_month(y, 3) == 31 + month_length(y, 2),
        days_before_month(y, 4) == 62 + month_length(y, 2),
        days_before_month(y, 5) == 92 + month_length(y, 2),
        days_before_month(y, 6) == 123 + month_length(y, 2),
        days_before_month(y, 7) == 153 + month_length(y, 2),
        days_before_month(y, 8) == 184 + month_length(y, 2),
        days_before_month(y, 9) == 215 + month_length(y, 2),
        days_before_month(y, 10) == 245 + month_length(y, 2),
        days_before_month(y, 11) == 276 + month_length(y, 2),
        days_before_month(y, 12) == 306 + month_length(y, 2),
{
    reveal_with_fuel(days_before_month, 13);
}

/// A year has no fewer leap years behind it than an earlier one.
proof fn leap_years_grow(a: int, b: int)
    requires
        a <= b,
    ensures
        leap_years_to(a) <= leap_years_to(b),
    decreases b - a,
{
    if a < b {
        leap_years_grow(a, b - 1);
        leap_year_counts(b);
    }
}

/// One for true and zero for false.
spec fn one_if(b: bool) -> int {
    if b {
        1
    } else {
        0
    }
}

/// A leap year adds one to the count, any other year nothing.
proof fn leap_year_counts(y: int)
    ensures
        leap_years_to(y) == leap_years_to(y - 1) + one_if(is_leap_year(y)),
{
    assert(y / 4 == (y - 1) / 4 + one_if(y % 4 == 0));
    assert(y / 100 == (y - 1) / 100 + one_if(y % 100 == 0));
    assert(y / 400 == (y - 1) / 400 + one_if(y % 400 == 0));
    hundreds_are_multiples_of_four(y);
}

/// Every hundredth year is a fourth year, and every four hundredth a hundredth.
proof fn hundreds_are_multiples_of_four(y: int)
    ensures
        y % 100 == 0 ==> y % 4 == 0,
        y % 400 == 0 ==> y % 100 == 0,
{
    if y % 100 == 0 {
        assert(y == 100 * (y / 100));
        assert(y == 4 * (25 * (y / 100)));
    }
    if y % 400 == 0 {
        assert(y == 100 * (4 * (y / 400)));
    }
}

/// The days of a date's year up to the date are at most the days of the year.
proof fn day_of_year_bounds(y: int, m: int, d: int)
    requires
        is_date(y, m, d),
    ensures
        1 <= days_before_month(y, m) + d <= 337 + month_length(y, 2),
{
    days_before_months(y);
}

/// Of two dates of a year, the one in the later month is later in the year.
proof fn months_are_ordered(y: int, m: int, d: int, m2: int)
    requires
        is_date(y, m, d),
        m < m2 <= 12,
    ensures
        days_before_month(y, m) + d <= days_before_month(y, m2),
    decreases m2 - m,
{
    if m + 1 < m2 {
        months_are_ordered(y, m, d, m2 - 1);
    }
}

/// A later date has a greater day number, so no two dates share one.
pub proof fn day_numbers_are_ordered(y: int, m: int, d: int, y2: int, m2: int, d2: int)
    requires
        is_date(y, m, d),
        is_date(y2, m2, d2),
        y < y2 || (y == y2 && (m < m2 || (m == m2 && d < d2))),
    ensures
        day_number(y, m, d) < day_number(y2, m2, d2),
{
    if y < y2 {
        leap_years_grow(y, y2 - 1);
        leap_year_counts(y);
        day_of_year_bounds(y, m, d);
        day_of_year_bounds(y2, m2, d2);
    } else if m < m2 {
        months_are_ordered(y, m, d, m2);
    }
}

/// A time of day and a date as `YYYY-MM-DDTHH:MM:SSZ`.
pub open spec fn iso8601(y: nat, mo: nat, d: nat, h: nat, mi: nat, s: nat) -> Seq<char> {
    digits(y, 4) + "-"@ + digits(mo, 2) + "-"@ + digits(d, 2) + "T"@ + digits(h, 2) + ":"@ + digits(
        mi,
        2,
    ) + ":"@ + digits(s, 2) + "Z"@
}

/// The date of a day counted from 1 January 1970.
pub open spec fn date_of(day: int) -> (int, int, int) {
    choose|t: (int, int, int)|
        is_date(t.0, t.1, t.2) && #[trigger] day_number(t.0, t.1, t.2) == day
}

/// A date with the right day number is the date of that day.
pub proof fn date_of_is(day: int, y: int, m: int, d: int)
    requires
        is_date(y, m, d),
        day_number(y, m, d) == day,
    ensures
        date_of(day) == (y, m, d),
{
    let t = (y, m, d);
    assert(is_date(t.0, t.1, t.2) && day_number(t.0, t.1, t.2) == day);
    let u = date_of(day);
    assert(is_date(u.0, u.1, u.2) && day_number(u.0, u.1, u.2) == day);
    if u != t {
        if y < u.0 || (y == u.0 && (m < u.1 || (m == u.1 && d < u.2))) {
            day_numbers_are_ordered(y, m, d, u.0, u.1, u.2);
        } else {
            day_numbers_are_ordered(u.0, u.1, u.2, y, m, d);
        }
    }
}

/// The month and day of a day of the year, for a year starting on 1 March.
proof fn month_of_year(doy: int, y: int)
    requires
        0 <= doy <= 365,
        doy == 365 ==> is_leap_year(y + 1),
    ensures
        ({
            let mp = (5 * doy + 2) / 153;
            let d = doy - (153 * mp + 2) / 5 + 1;
            &&& 0 <= mp <= 11
            &&& mp < 10 ==> is_date(y, mp + 3, d) && days_before_month(y, mp + 3) + d == doy + 32
                + month_length(y, 2)
            &&& mp >= 10 ==> is_date(y + 1, mp - 9, d) && days_before_month(y + 1, mp - 9) + d
                == doy - 305
        }),
{
    days_before_months(y);
    days_before_months(y + 1);
    let mp = (5 * doy + 2) / 153;
    assert(mp == 0 || mp == 1 || mp == 2 || mp == 3 || mp == 4 || mp == 5 || mp == 6 || mp == 7
        || mp == 8 || mp == 9 || mp == 10 || mp == 11);
}

/// Four hundred years have as many leap years, whichever they are.
proof fn leap_years_repeat(era: int, yoe: int)
    requires
        0 <= era,
        0 <= yoe <= 400,
    ensures
        leap_years_to(yoe + era * 400) == 97 * era + leap_years_to(yoe),
        is_leap_year(yoe) == is_leap_year(yoe + era * 400),
{
    let y = yoe + era * 400;
    assert(y / 4 == yoe / 4 + 100 * era);
    assert(y / 100 == yoe / 100 + 4 * era);
    assert(y / 400 == yoe / 400 + era);
    assert(y % 4 == yoe % 4 && y % 100 == yoe % 100 && y % 400 == yoe % 400);
}

/// The day number of a day of the year, for a year starting on 1 March.
proof fn day_number_of(era: int, yoe: int, doy: int, m: int, d: int)
    requires
        0 <= era,
        0 <= yoe <= 399,
    ensures
        ({
            let y = yoe + era * 400;
            let day = era * 146097 + 365 * yoe + yoe / 4 - yoe / 100 + doy - 719468;
            &&& days_before_month(y, m) + d == doy + 32 + month_length(y, 2) ==> day_number(y, m, d)
                == day
            &&& days_before_month(y + 1, m) + d == doy - 305 ==> day_number(y + 1, m, d) == day
            &&& is_leap_year(yoe + 1) == is_leap_year(y + 1)
        }),
{
    let y = yoe + era * 400;
    leap_years_repeat(era, yoe);
    leap_years_repeat(era, yoe + 1);
    leap_year_counts(y);
    leap_year_counts(yoe);
    assert(yoe / 400 == 0);
}

/// The date of a day counted from 1 January 1970.
pub fn days_to_ymd(z: u32) -> (r: (u32, u32, u32))
    ensures
        is_date(r.0 as int, r.1 as int, r.2 as int),
        day_number(r.0 as int, r.1 as int, r.2 as int) == z,
        date_of(z as int) == (r.0 as int, r.1 as int, r.2 as int),
{
    let days: i64 = z as i64 + 719_468;
    let era: i64 = days / 146_097;
    let doe: i64 = days - era * 146_097;
    proof {
        year_of_era(doe as int);
    }
    let yoe: i64 = (doe - doe / 1_460 + doe / 36_524 - doe / 146_096) / 365;
    let doy: i64 = doe - (365 * yoe + yoe / 4 - yoe / 100);
    proof {
        leap_years_repeat(era as int, yoe + 1);
        month_of_year(doy as int, yoe + era * 400);
    }
    let mp: i64 = (5 * doy + 2) / 153;
    let d: i64 = doy - (153 * mp + 2) / 5 + 1;
    let m: i64 = if mp < 10 {
        mp + 3
    } else {
        mp - 9
    };
    let y: i64 = yoe + era * 400 + if m <= 2 {
        1
    } else {
        0
    };
    proof {
        day_number_of(era as int, yoe as int, doy as int, m as int, d as int);
        date_of_is(z as int, y as int, m as int, d as int);
    }
    (y as u32, m as u32, d as u32)
}

/// A Unix time in ISO 8601: the date of its day and its time of day.
pub open spec fn iso8601_of(secs: u32) -> Seq<char> {
    let date = date_of(secs as int / 86400);
    iso8601(
        date.0 as nat,
        date.1 as nat,
        date.2 as nat,
        secs as nat % 86400 / 3600,
        secs as nat % 3600 / 60,
        secs as nat % 60,
    )
}

proof fn time_of_day(secs: u32)
    ensures
        secs % 86400 % 3600 == secs % 3600,
        secs % 86400 % 60 == secs % 60,
{
}

/// Writes a Unix time in ISO 8601.
pub fn unix_to_iso8601(secs: u32) -> (r: String)
    ensures
        r@ == iso8601_of(secs),
{
    let day_secs: u32 = secs % 86_400;
    let days: u32 = secs / 86_400;
    let h: u32 = day_secs / 3_600;
    let m: u32 = (day_secs % 3_600) / 60;
    let s: u32 = day_secs % 60;
    proof {
        time_of_day(secs);
    }
    let (year, month, day) = days_to_ymd(days);
    let mut out: String = String::new();
    append_digits(&mut out, year as u64, 4);
    assert(out@ == digits(year as nat, 4));
    out.append("-");
    append_digits(&mut out, month as u64, 2);
    out.append("-");
    append_digits(&mut out, day as u64, 2);
    out.append("T");
    append_digits(&mut out, h as u64, 2);
    out.append(":");
    append_digits(&mut out, m as u64, 2);
    out.append(":");
    append_digits(&mut out, s as u64, 2);
    out.append("Z");
    out
}

/// A server takes over as master where its stratum is lower, with the same
/// stratum where its latency is lower, and with the same of both where its
/// jitter is.
pub proof fn masters_rank_by_stratum_latency_jitter(a: NtpSelectionSample, b: NtpSelectionSample)
    ensures
        a.stratum < b.stratum ==> better(a, b) && !better(b, a),
        a.stratum == b.stratum && a.latency_ms < b.latency_ms ==> better(a, b) && !better(b, a),
        a.stratum == b.stratum && a.latency_ms == b.latency_ms && a.jitter_ms < b.jitter_ms
            ==> better(a, b) && !better(b, a),
        a == b ==> !better(a, b),
{
}

/// An address is four numbers of up to 255 between points. What has more or
/// fewer parts, or one that is no such number, is no address.
pub proof fn an_address_has_four_parts(s: Seq<char>, i: int)
    ensures
        split(s, '.').len() != 4 ==> ipv4_of(s) is None,
        split(s, '.').len() == 4 && 0 <= i < 4 && read_unsigned(split(s, '.')[i], 255) is None
            ==> ipv4_of(s) is None,
        split(s, '.').len() == 4 && ipv4_of(s) is Some && 0 <= i < 4 ==> ipv4_of(s)->0.len() == 4
            && read_unsigned(split(s, '.')[i], 255) == Some(ipv4_of(s)->0[i] as nat),
{
}

/// The peers of a list are addresses in it, the first address among them comes
/// first, and while there is room for more every address is a peer.
pub proof fn listed_addresses_are_peers(entries: Seq<Seq<char>>, k: int)
    requires
        0 <= k < entries.len(),
        ipv4_of(trim(entries[k])) is Some,
    ensures
        peers_of(entries).len() < 4 ==> peers_of(entries).contains(ipv4_of(trim(entries[k]))->0),
        peers_of(entries).len() > 0,
        (forall|i: int| 0 <= i < k ==> ipv4_of(trim(#[trigger] entries[i])) is None)
            ==> peers_of(entries)[0] == ipv4_of(trim(entries[k]))->0,
    decreases entries.len(),
{
    let shorter = entries.drop_last();
    let before = peers_of(shorter);
    let ip = ipv4_of(trim(entries[k]))->0;
    let now = peers_of(entries);
    if k < shorter.len() {
        assert(shorter[k] == entries[k]);
        listed_addresses_are_peers(shorter, k);
        assert(now.len() > 0 && now[0] == before[0]);
        if now.len() < 4 {
            let m = choose|m: int| 0 <= m < before.len() && before[m] == ip;
            assert(now[m] == ip);
        }
        if forall|i: int| 0 <= i < k ==> ipv4_of(trim(#[trigger] entries[i])) is None {
            assert forall|i: int| 0 <= i < k implies ipv4_of(trim(#[trigger] shorter[i])) is None by {
                assert(shorter[i] == entries[i]);
            }
        }
    } else {
        assert(entries.last() == entries[k]);
        if before.contains(ip) {
        } else if before.len() < 4 {
            assert(now[now.len() - 1] == ip);
        }
        if forall|i: int| 0 <= i < k ==> ipv4_of(trim(#[trigger] entries[i])) is None {
            assert forall|i: int| 0 <= i < shorter.len() implies ipv4_of(
                trim(#[trigger] shorter[i]),
            ) is None by {
                assert(shorter[i] == entries[i]);
            }
            no_peers(shorter);
        }
    }
}

proof fn no_peers(entries: Seq<Seq<char>>)
    requires
        forall|i: int| 0 <= i < entries.len() ==> ipv4_of(trim(#[trigger] entries[i])) is None,
    ensures
        peers_of(entries) == Seq::<Seq<u8>>::empty(),
    decreases entries.len(),
{
    if entries.len() > 0 {
        let shorter = entries.drop_last();
        assert forall|i: int| 0 <= i < shorter.len() implies ipv4_of(trim(#[trigger] shorter[i]))
            is None by {
            assert(shorter[i] == entries[i]);
        }
        assert(entries.last() == entries[entries.len() - 1]);
        no_peers(shorter);
    }
}

/// Every peer of a list was read from one of its entries, and of two peers the
/// one that comes first was read from the earlier entry.
pub proof fn peers_come_from_the_list(entries: Seq<Seq<char>>, a: int, b: int) -> (at: (int, int))
    requires
        0 <= a < b < peers_of(entries).len(),
    ensures
        0 <= at.0 < at.1 < entries.len(),
        ipv4_of(trim(entries[at.0])) == Some(peers_of(entries)[a]),
        ipv4_of(trim(entries[at.1])) == Some(peers_of(entries)[b]),
    decreases entries.len(),
{
    let shorter = entries.drop_last();
    let before = peers_of(shorter);
    if b < before.len() {
        let r = peers_come_from_the_list(shorter, a, b);
        assert(shorter[r.0] == entries[r.0] && shorter[r.1] == entries[r.1]);
        r
    } else {
        let k = a_peer_comes_from_the_list(shorter, a);
        assert(shorter[k] == entries[k]);
        (k, entries.len() - 1)
    }
}

proof fn a_peer_comes_from_the_list(entries: Seq<Seq<char>>, a: int) -> (at: int)
    requires
        0 <= a < peers_of(entries).len(),
    ensures
        0 <= at < entries.len(),
        ipv4_of(trim(entries[at])) == Some(peers_of(entries)[a]),
    decreases entries.len(),
{
    let shorter = entries.drop_last();
    if a < peers_of(shorter).len() {
        let k = a_peer_comes_from_the_list(shorter, a);
        assert(shorter[k] == entries[k]);
        k
    } else {
        entries.len() - 1
    }
}

/// A list that gives peers is followed alone; the single server counts only
/// where the list gives none.
pub proof fn the_single_server_is_the_fallback(
    list: Seq<char>,
    single: Seq<char>,
    fallback: Option<Seq<char>>,
)
    ensures
        peers_of(split(list, ',')).len() > 0 ==> config_peers(Some(list), fallback) == peers_of(
            split(list, ','),
        ),
        peers_of(split(list, ',')).len() == 0 ==> config_peers(Some(list), fallback)
            == config_peers(None, fallback),
        ipv4_of(single) is Some ==> config_peers(None, Some(single)) == seq![ipv4_of(single)->0],
        ipv4_of(single) is None ==> config_peers(None, Some(single)).len() == 0,
        config_peers(None, None).len() == 0,
{
}

/// A name of up to 32 letters, digits and other characters that starts and ends
/// with a letter or digit keeps its length: capitals are made small, small
/// letters and digits stay, and each other byte becomes a dash.
pub proof fn letters_and_digits_stay_in_a_host_name(input: Seq<u8>, i: int)
    requires
        1 <= input.len() <= 32,
        97 <= input[0] <= 122 || 65 <= input[0] <= 90 || 48 <= input[0] <= 57,
        97 <= input.last() <= 122 || 65 <= input.last() <= 90 || 48 <= input.last() <= 57,
        0 <= i < input.len(),
    ensures
        host_name(input).len() == input.len(),
        97 <= input[i] <= 122 || 48 <= input[i] <= 57 ==> host_name(input)[i] as int == input[i],
        65 <= input[i] <= 90 ==> host_name(input)[i] as int == input[i] + 32,
        !(97 <= input[i] <= 122 || 48 <= input[i] <= 57 || 65 <= input[i] <= 90) ==> host_name(
            input,
        )[i] == '-',
{
    let mapped = input.map_values(|b: u8| host_char(b));
    assert(mapped[0] != '-' && mapped.last() != '-');
    assert(strip_front(mapped) == mapped);
    assert(strip_back(mapped) == mapped);
    assert(host_name(input) == mapped);
}

/// What leaves no letter or digit is named `brewster`.
pub proof fn a_name_of_other_characters_is_replaced(input: Seq<u8>)
    requires
        forall|i: int|
            0 <= i < input.len() ==> !(97 <= #[trigger] input[i] <= 122 || 48 <= input[i] <= 57
                || 65 <= input[i] <= 90),
    ensures
        host_name(input) == "brewster"@,
{
    let mapped = input.map_values(|b: u8| host_char(b));
    assert forall|i: int| 0 <= i < mapped.len() implies #[trigger] mapped[i] == '-' by {
        let b = input[i];
    }
    only_dashes(mapped);
}

proof fn only_dashes(s: Seq<char>)
    requires
        forall|i: int| 0 <= i < s.len() ==> #[trigger] s[i] == '-',
    ensures
        strip_front(s).len() == 0,
    decreases s.len(),
{
    if s.len() > 0 {
        let t = s.drop_first();
        assert forall|i: int| 0 <= i < t.len() implies #[trigger] t[i] == '-' by {
            assert(t[i] == s[i + 1]);
        }
        only_dashes(t);
    }
}

/// Years have 365 days, leap years 366. A leap year is each fourth, but of the
/// hundreds only each fourth hundred.
pub proof fn leap_years_have_a_day_more(y: int)
    ensures
        y % 4 != 0 ==> day_number(y + 1, 1, 1) - day_number(y, 1, 1) == 365,
        y % 4 == 0 && y % 100 != 0 ==> day_number(y + 1, 1, 1) - day_number(y, 1, 1) == 366,
        y % 100 == 0 && y % 400 != 0 ==> day_number(y + 1, 1, 1) - day_number(y, 1, 1) == 365,
        y % 400 == 0 ==> day_number(y + 1, 1, 1) - day_number(y, 1, 1) == 366,
{
    leap_year_counts(y);
    hundreds_are_multiples_of_four(y);
    days_before_months(y);
    days_before_months(y + 1);
}

/// Days are counted from the first day of 1970, one after the other: the day
/// after the last of a month is the first of the next, and the day after the
/// last of December is the first of the next year.
pub proof fn days_follow_one_another(y: int, m: int, d: int)
    requires
        is_date(y, m, d),
    ensures
        day_number(1970, 1, 1) == 0,
        day_number(y, m, d + 1) == day_number(y, m, d) + 1,
        m < 12 ==> day_number(y, m + 1, 1) == day_number(y, m, month_length(y, m)) + 1,
        day_number(y + 1, 1, 1) == day_number(y, 12, 31) + 1,
        is_date(y, m, 28) && is_date(y, m, 1) && !is_date(y, m, 32) && !is_date(y, m, 0),
        !is_date(y, 13, d) && !is_date(y, 0, d),
        m == 4 || m == 6 || m == 9 || m == 11 ==> is_date(y, m, 30) && !is_date(y, m, 31),
        m == 1 || m == 3 || m == 5 || m == 7 || m == 8 || m == 10 || m == 12 ==> is_date(y, m, 31),
        !is_date(y, 2, 30),
        is_date(y, 2, 29) == (day_number(y + 1, 1, 1) - day_number(y, 1, 1) == 366),
{
    leap_year_counts(y);
    days_before_months(y);
    days_before_months(y + 1);
    days_before_months(1970);
}

#[verifier::rlimit(40)]
proof fn a_day_has_a_date(z: u32)
    ensures
        ({
            let t = date_of(z as int);
            is_date(t.0, t.1, t.2) && day_number(t.0, t.1, t.2) == z
        }),
{
    let days = z + 719_468;
    let era = days / 146_097;
    let doe = days - era * 146_097;
    year_of_era(doe);
    let yoe = (doe - doe / 1_460 + doe / 36_524 - doe / 146_096) / 365;
    let doy = doe - (365 * yoe + yoe / 4 - yoe / 100);
    leap_years_repeat(era, yoe + 1);
    month_of_year(doy, yoe + era * 400);
    let mp = (5 * doy + 2) / 153;
    let d = doy - (153 * mp + 2) / 5 + 1;
    let m = if mp < 10 {
        mp + 3
    } else {
        mp - 9
    };
    let y = yoe + era * 400 + if m <= 2 {
        1int
    } else {
        0
    };
    day_number_of(era, yoe, doy, m, d);
    date_of_is(z as int, y, m, d);
}

#[verifier::rlimit(40)]
proof fn written_out(y: nat, mo: nat, d: nat, h: nat, mi: nat, s: nat)
    requires
        y < 10000,
        mo < 100 && d < 100 && h < 100 && mi < 100 && s < 100,
    ensures
        ({
            let t = iso8601(y, mo, d, h, mi, s);
            &&& t.len() == 20
            &&& decimal_value(t.subrange(0, 4)) == y
            &&& t[4] == '-'
            &&& decimal_value(t.subrange(5, 7)) == mo
            &&& t[7] == '-'
            &&& decimal_value(t.subrange(8, 10)) == d
            &&& t[10] == 'T'
            &&& decimal_value(t.subrange(11, 13)) == h
            &&& t[13] == ':'
            &&& decimal_value(t.subrange(14, 16)) == mi
            &&& t[16] == ':'
            &&& decimal_value(t.subrange(17, 19)) == s
            &&& t[19] == 'Z'
        }),
{
    reveal_strlit("-");
    reveal_strlit("T");
    reveal_strlit(":");
    reveal_strlit("Z");
    fixed_width_digits_stand_for_the_number(0, 0);
    fixed_width_digits_stand_for_the_number(0, 1);
    fixed_width_digits_stand_for_the_number(0, 2);
    fixed_width_digits_stand_for_the_number(0, 3);
    assert(pow10(2) == 100 && pow10(4) == 10000);
    fixed_width_digits_stand_for_the_number(y, 4);
    fixed_width_digits_stand_for_the_number(mo, 2);
    fixed_width_digits_stand_for_the_number(d, 2);
    fixed_width_digits_stand_for_the_number(h, 2);
    fixed_width_digits_stand_for_the_number(mi, 2);
    fixed_width_digits_stand_for_the_number(s, 2);
    let t = iso8601(y, mo, d, h, mi, s);
    assert(t.subrange(0, 4) == digits(y, 4));
    assert(t.subrange(5, 7) == digits(mo, 2));
    assert(t.subrange(8, 10) == digits(d, 2));
    assert(t.subrange(11, 13) == digits(h, 2));
    assert(t.subrange(14, 16) == digits(mi, 2));
    assert(t.subrange(17, 19) == digits(s, 2));
}

/// A time is written as `YYYY-MM-DDTHH:MM:SSZ`: year, month and day are the date
/// of its day, and the hours, minutes and seconds of its time of day make up
/// the seconds since midnight.
#[verifier::rlimit(40)]
pub proof fn a_time_is_written_out(secs: u32)
    ensures
        ({
            let t = iso8601_of(secs);
            let y = decimal_value(t.subrange(0, 4)) as int;
            let mo = decimal_value(t.subrange(5, 7)) as int;
            let d = decimal_value(t.subrange(8, 10)) as int;
            let h = decimal_value(t.subrange(11, 13));
            let mi = decimal_value(t.subrange(14, 16));
            let s = decimal_value(t.subrange(17, 19));
            &&& t.len() == 20
            &&& t[4] == '-' && t[7] == '-' && t[10] == 'T' && t[13] == ':' && t[16] == ':'
            &&& t[19] == 'Z'
            &&& is_date(y, mo, d)
            &&& h < 24 && mi < 60 && s < 60
            &&& day_number(y, mo, d) * 86400 + h * 3600 + mi * 60 + s == secs
        }),
{
    let z: u32 = secs / 86400;
    a_day_has_a_date(z);
    let date = date_of(z as int);
    let y = date.0;
    assert(1970 <= y < 10000) by {
        day_of_year_bounds(y, date.1, date.2);
        if y < 1970 {
            leap_years_grow(y - 1, 1969);
            leap_years_grow(y, 1969);
            leap_year_counts(y);
        } else {
            leap_years_grow(1969, y - 1);
        }
    }
    let h = secs as nat % 86400 / 3600;
    let mi = secs as nat % 3600 / 60;
    let s = secs as nat % 60;
    time_of_day(secs);
    written_out(y as nat, date.1 as nat, date.2 as nat, h, mi, s);
    assert(h * 3600 + mi * 60 + s == secs % 86400) by {
        let r = secs % 86400;
        assert(r % 3600 == secs % 3600);
        assert(r == 3600 * (r / 3600) + r % 3600);
        let q = secs % 3600;
        assert(q == 60 * (q / 60) + q % 60);
        assert(q % 60 == secs % 60);
    }
}

/// A step of the checksum halves the register, and where a one falls out it
/// flips the bits that the polynomial of the devices on the bus names: the
/// highest and those worth 8 and 4. The checksum of one byte is what it leaves
/// after eight steps.
pub proof fn a_one_flips_the_bits_of_the_polynomial(x: u8)
    ensures
        x % 2 == 0 ==> crc8_shift(x) == x / 2,
        x % 2 == 1 && x / 2 % 16 / 4 == 0 ==> crc8_shift(x) == x / 2 + 140,
        x % 2 == 1 && x / 2 % 16 / 4 == 3 ==> crc8_shift(x) == x / 2 + 128 - 12,
        crc8(seq![x]) == crc8_shifts(x, 8),
        crc8(Seq::empty()) == 0,
{
    assert(x & 1 == x % 2) by (bit_vector);
    assert(x >> 1 == x / 2) by (bit_vector);
    let h = x >> 1;
    assert(h < 128 && h % 16 / 4 == 0 ==> h ^ 0x8c == h + 140) by (bit_vector)
        requires
            h < 128,
    ;
    assert(h % 16 / 4 == 3 ==> h ^ 0x8c == h + 128 - 12) by (bit_vector)
        requires
            h < 128,
    ;
    assert(seq![x].drop_last() == Seq::<u8>::empty());
    assert(0u8 ^ x == x) by (bit_vector);
    assert(crc8(Seq::<u8>::empty()) == 0);
}

} // verus!
