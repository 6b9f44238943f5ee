//! Configuration: constants, and the values that the build environment may
//! override. Each override is handed in as the text that was configured, if
//! any was.
//!
//! The overrides and the probes come from a configuration file with lines of
//! the form `KEY = "value"`, and a `[[sensors]]` section for each probe.

use vstd::prelude::*;
use vstd::utf8::{
    encode_utf8, encode_utf8_valid_utf8, is_char_boundary, is_char_boundary_start_end_of_seq,
};
use vstd::slice::slice_subrange;
use crate::text::{
    all_digits, chars_equal, chars_same_letters, decimal, decimal_read_back, find_any_char,
    first_in, first_in_at, is_digit, is_space, parse_unsigned, read_unsigned, same_letters, split,
    split_chars, texts, to_chars, to_string, trim, trim_chars, trim_end, trim_of_trimmed,
    trim_start, trimming_takes_only_white_space,
};

verus! {

pub const CONTROL_PERIOD_MS: u64 = 1_000;

pub const STATUS_PRINT_EVERY_SECONDS_DEFAULT: u64 = 5;

/// DS18B20 probe resolution in bits: 0.125 °C and 375 ms per conversion.
pub const DS18B20_RESOLUTION_DEFAULT: u8 = 11;

pub const SSR_WINDOW_STEPS: u32 = 10;

pub const BOOT_OK_DISPLAY_MS: u64 = 2_000;

/// Total dead zone width around the target, in hundredths of a degree.
pub const SSR_HEAT_DEADBAND_DEFAULT_CENTI: u32 = 50;

/// PID gains in units of 1/10000, and the output limit in percent.
pub const PID_OUTPUT_LIMIT_PERCENT: u32 = 100;

pub const PID_KP: u64 = 140_000;

pub const PID_KI: u64 = 3_500;

pub const PID_KD: u64 = 60_000;

pub const WS2812_T0H_TICKS: u16 = 4;

pub const WS2812_T0L_TICKS: u16 = 9;

pub const WS2812_T1H_TICKS: u16 = 8;

pub const WS2812_T1L_TICKS: u16 = 5;

/// Maximum byte length of the hostname field in UDP telemetry packets.
pub const HOSTNAME_MAX_LEN: usize = 20;

pub const UDP_SERVER_PORT_DEFAULT: u16 = 47890;

/// A probe: its GPIO pin, its name, and its serial number where one is
/// configured. The first probe is the one that is controlled.
pub struct SensorConfig {
    pub pin: u8,
    pub name: &'static str,
    pub serial: Option<&'static str>,
}

/// The unsigned number that a configured text reads as, if one is configured.
pub open spec fn configured(config: Option<&str>, max: nat) -> Option<nat> {
    match config {
        Some(s) => read_unsigned(s@, max),
        None => None,
    }
}

/// Reads a configured unsigned number.
pub fn configured_unsigned(config: Option<&str>, max: u64) -> (r: Option<u64>)
    ensures
        match r {
            Some(v) => configured(config, max as nat) == Some(v as nat) && v <= max,
            None => configured(config, max as nat) is None,
        },
{
    match config {
        Some(s) => parse_unsigned(to_chars(s).as_slice(), max),
        None => None,
    }
}

/// The probe resolution: the configured one brought into 9 to 12 bits.
pub open spec fn resolution_bits(config: Option<&str>) -> nat {
    match configured(config, 255) {
        Some(v) => if v < 9 {
            9
        } else if v > 12 {
            12
        } else {
            v
        },
        None => 11,
    }
}

/// The probe resolution in bits.
pub fn ds18b20_resolution_bits(config: Option<&str>) -> (r: u8)
    ensures
        r == resolution_bits(config),
        9 <= r <= 12,
{
    match configured_unsigned(config, 255) {
        Some(v) => if v < 9 {
            9
        } else if v > 12 {
            12
        } else {
            v as u8
        },
        None => DS18B20_RESOLUTION_DEFAULT,
    }
}

/// The conversion time in milliseconds: 750 ms at 12 bits and half as long for
/// each bit less, rounded up.
pub open spec fn conversion_ms(config: Option<&str>) -> nat {
    let bits = resolution_bits(config);
    if bits == 9 {
        94
    } else if bits == 10 {
        188
    } else if bits == 11 {
        375
    } else {
        750
    }
}

/// How long a temperature conversion takes at the configured resolution.
///
/// | Resolution | Conversion time |
/// |------------|-----------------|
/// | 9-bit      |  93.75 ms       |
/// | 10-bit     | 187.5  ms       |
/// | 11-bit     | 375    ms       |
/// | 12-bit     | 750    ms       |
pub fn ds18b20_conversion_ms(config: Option<&str>) -> (r: u64)
    ensures
        r == conversion_ms(config),
        r <= CONTROL_PERIOD_MS,
{
    match ds18b20_resolution_bits(config) {
        9 => 94,
        10 => 188,
        11 => 375,
        _ => 750,
    }
}

/// The dead zone width in hundredths of a degree: the configured one unless it
/// is negative or not a number.
pub fn ssr_heat_deadband_centi(parsed: Option<i32>) -> (r: u32)
    ensures
        r == (match parsed {
            Some(v) => if v >= 0 {
                v as u32
            } else {
                SSR_HEAT_DEADBAND_DEFAULT_CENTI
            },
            None => SSR_HEAT_DEADBAND_DEFAULT_CENTI,
        }),
{
    match parsed {
        Some(v) => if v >= 0 {
            v as u32
        } else {
            SSR_HEAT_DEADBAND_DEFAULT_CENTI
        },
        None => SSR_HEAT_DEADBAND_DEFAULT_CENTI,
    }
}

/// The seconds between two status lines on the console.
pub open spec fn print_every_seconds(config: Option<&str>) -> nat {
    match configured(config, u64::MAX as nat) {
        Some(v) => if v > 0 {
            v
        } else {
            STATUS_PRINT_EVERY_SECONDS_DEFAULT as nat
        },
        None => STATUS_PRINT_EVERY_SECONDS_DEFAULT as nat,
    }
}

/// The seconds between two status lines on the console.
pub fn status_print_every_seconds(config: Option<&str>) -> (r: u64)
    ensures
        r == print_every_seconds(config),
        r > 0,
{
    match configured_unsigned(config, u64::MAX) {
        Some(v) => if v > 0 {
            v
        } else {
            STATUS_PRINT_EVERY_SECONDS_DEFAULT
        },
        None => STATUS_PRINT_EVERY_SECONDS_DEFAULT,
    }
}

/// The control cycles between two status lines: one cycle is one second, and
/// the count is held within 32 bits.
pub fn status_print_interval_cycles(config: Option<&str>) -> (r: u32)
    ensures
        r == (if print_every_seconds(config) <= u32::MAX {
            print_every_seconds(config)
        } else {
            u32::MAX as nat
        }),
        r > 0,
{
    let seconds: u64 = status_print_every_seconds(config);
    let millis: u64 = match seconds.checked_mul(1_000) {
        Some(v) => v,
        None => u64::MAX,
    };
    let cycles: u64 = millis.saturating_add(CONTROL_PERIOD_MS - 1) / CONTROL_PERIOD_MS;
    if cycles < 1 {
        1
    } else if cycles > u32::MAX as u64 {
        u32::MAX
    } else {
        cycles as u32
    }
}

/// The configured text, or the default where it is missing or empty.
pub open spec fn configured_name(config: Option<&str>, default: Seq<char>) -> Seq<char> {
    match config {
        Some(s) => if s@.len() > 0 {
            s@
        } else {
            default
        },
        None => default,
    }
}

/// The greatest position of at most `n` where no character is cut in two.
pub open spec fn boundary_at_most(bytes: Seq<u8>, n: int) -> int
    decreases n,
{
    if n <= 0 || is_char_boundary(bytes, n) {
        n
    } else {
        boundary_at_most(bytes, n - 1)
    }
}

/// The start of a text in UTF-8 that fits the hostname field: as many whole
/// characters as 20 bytes hold.
pub open spec fn hostname_cut(bytes: Seq<u8>) -> Seq<u8> {
    if bytes.len() <= HOSTNAME_MAX_LEN {
        bytes
    } else {
        bytes.take(boundary_at_most(bytes, HOSTNAME_MAX_LEN as int))
    }
}

/// The device name, cut to the hostname field of telemetry packets.
pub fn device_hostname<'a>(config: Option<&'a str>) -> (r: &'a str)
    ensures
        encode_utf8(r@) == hostname_cut(encode_utf8(configured_name(config, "brewster"@))),
        encode_utf8(r@).len() <= HOSTNAME_MAX_LEN,
{
    let raw: &str = match config {
        Some(v) => if !v.is_empty() {
            v
        } else {
            "brewster"
        },
        None => "brewster",
    };
    if raw.as_bytes().len() <= HOSTNAME_MAX_LEN {
        raw
    } else {
        let ghost bytes = encode_utf8(raw@);
        let mut end: usize = HOSTNAME_MAX_LEN;
        proof {
            encode_utf8_valid_utf8(raw@);
            is_char_boundary_start_end_of_seq(bytes);
        }
        while !raw.is_char_boundary(end)
            invariant
                end <= HOSTNAME_MAX_LEN < bytes.len(),
                bytes == encode_utf8(raw@),
                is_char_boundary(bytes, 0),
                boundary_at_most(bytes, HOSTNAME_MAX_LEN as int) == boundary_at_most(
                    bytes,
                    end as int,
                ),
            decreases end,
        {
            end = end - 1;
        }
        let (head, tail) = raw.split_at(end);
        assert(encode_utf8(head@) == bytes.take(end as int));
        head
    }
}

/// A text followed by zero bytes, up to the width of the hostname field.
pub open spec fn zero_padded(bytes: Seq<u8>) -> Seq<u8> {
    bytes + Seq::new((HOSTNAME_MAX_LEN - bytes.len()) as nat, |i: int| 0u8)
}

/// The device name as the zero-padded hostname field of telemetry packets.
pub fn device_hostname_bytes(config: Option<&str>) -> (r: [u8; HOSTNAME_MAX_LEN])
    ensures
        r@ == zero_padded(
            hostname_cut(encode_utf8(configured_name(config, "brewster"@))),
        ),
{
    let mut out: [u8; HOSTNAME_MAX_LEN] = [0; HOSTNAME_MAX_LEN];
    let src: &[u8] = device_hostname(config).as_bytes();
    let mut i: usize = 0;
    while i < src.len()
        invariant
            i <= src@.len() <= HOSTNAME_MAX_LEN,
            forall|j: int| 0 <= j < i ==> out@[j] == src@[j],
            forall|j: int| i <= j < HOSTNAME_MAX_LEN ==> out@[j] == 0,
        decreases src@.len() - i,
    {
        out[i] = src[i];
        i = i + 1;
    }
    assert(out@ =~= zero_padded(src@));
    out
}

/// The name of the controlled probe.
pub fn temp_probe_name<'a>(config: Option<&'a str>) -> (r: &'a str)
    ensures
        r@ == configured_name(config, "probe-1"@),
{
    match config {
        Some(v) => if !v.is_empty() {
            v
        } else {
            "probe-1"
        },
        None => "probe-1",
    }
}

/// The UDP port of the telemetry server: ports up to 1024 are not accepted.
pub open spec fn server_port(config: Option<&str>) -> nat {
    match configured(config, 0xffff) {
        Some(p) => if p > 1024 {
            p
        } else {
            UDP_SERVER_PORT_DEFAULT as nat
        },
        None => UDP_SERVER_PORT_DEFAULT as nat,
    }
}

/// The UDP port of the telemetry server.
pub fn udp_server_port(config: Option<&str>) -> (r: u16)
    ensures
        r == server_port(config),
        r > 1024,
{
    match configured_unsigned(config, 0xffff) {
        Some(p) => if p > 1024 {
            p as u16
        } else {
            UDP_SERVER_PORT_DEFAULT
        },
        None => UDP_SERVER_PORT_DEFAULT,
    }
}

// ── The configuration file ───────────────────────────────────────────────────

/// The most probes there can be.
pub const MAX_SENSORS: usize = 3;

/// The pin of the probe where none is configured.
pub const SENSOR_PIN_DEFAULT: u8 = 5;

/// The key and the value of a line with an equals sign, without the white space
/// around them.
pub open spec fn setting_of(line: Seq<char>) -> Option<(Seq<char>, Seq<char>)> {
    let at = first_in(line, seq!['='], 0);
    if at < line.len() {
        Some((trim(line.take(at)), trim(line.skip(at + 1))))
    } else {
        None
    }
}

/// A value without one pair of quotes around it.
pub open spec fn unquoted(value: Seq<char>) -> Seq<char> {
    if value.len() >= 2 && value[0] == '"' && value.last() == '"' {
        value.subrange(1, value.len() - 1)
    } else {
        value
    }
}

/// The setting on a line that is no comment.
pub open spec fn uncommented_setting(line: Seq<char>) -> Option<(Seq<char>, Seq<char>)> {
    let t = trim(line);
    if t.len() > 0 && t[0] == '#' {
        None
    } else {
        setting_of(t)
    }
}

/// The value of a key on the first line from `from` on that has it.
pub open spec fn value_in(lines: Seq<Seq<char>>, key: Seq<char>, from: int) -> Option<Seq<char>>
    decreases lines.len() - from,
{
    if from < 0 || from >= lines.len() {
        None
    } else {
        match uncommented_setting(lines[from]) {
            Some((found, value)) => if found == key {
                Some(unquoted(value))
            } else {
                value_in(lines, key, from + 1)
            },
            None => value_in(lines, key, from + 1),
        }
    }
}

fn read_setting(line: &[char]) -> (r: Option<(&[char], &[char])>)
    ensures
        match r {
            Some(kv) => setting_of(line@) == Some((kv.0@, kv.1@)),
            None => setting_of(line@) is None,
        },
{
    let set: [char; 1] = ['='];
    assert(set@ == seq!['=']);
    let at: usize = find_any_char(line, &set);
    if at >= line.len() {
        return None;
    }
    let lhs: &[char] = slice_subrange(line, 0, at);
    let rhs: &[char] = slice_subrange(line, at + 1, line.len());
    assert(lhs@ == line@.take(at as int));
    assert(rhs@ == line@.skip(at + 1));
    Some((trim_chars(lhs), trim_chars(rhs)))
}

fn unquote(value: &[char]) -> (r: &[char])
    ensures
        r@ == unquoted(value@),
{
    let n: usize = value.len();
    if n >= 2 && value[0] == '"' && value[n - 1] == '"' {
        slice_subrange(value, 1, n - 1)
    } else {
        value
    }
}

/// Reads the value of a key from a configuration file.
pub fn env_value(contents: &str, key: &str) -> (r: Option<String>)
    ensures
        match r {
            Some(value) => value_in(split(contents@, '\n'), key@, 0) == Some(value@),
            None => value_in(split(contents@, '\n'), key@, 0) is None,
        },
{
    let chars: Vec<char> = to_chars(contents);
    let wanted: Vec<char> = to_chars(key);
    let lines: Vec<Vec<char>> = split_chars(chars.as_slice(), '\n');
    let ghost all = texts(lines@);
    let mut i: usize = 0;
    while i < lines.len()
        invariant
            i <= lines@.len(),
            wanted@ == key@,
            all == texts(lines@),
            all == split(contents@, '\n'),
            value_in(all, key@, 0) == value_in(all, key@, i as int),
        decreases lines@.len() - i,
    {
        assert(all[i as int] == lines@[i as int]@);
        let line: &[char] = trim_chars(lines[i].as_slice());
        if line.len() == 0 || line[0] != '#' {
            if let Some((found, value)) = read_setting(line) {
                if chars_equal(found, wanted.as_slice()) {
                    return Some(to_string(unquote(value)));
                }
            }
        }
        i = i + 1;
    }
    None
}

/// A value in quotes is read back, whatever it holds but a line end, where no
/// line before it has its key.
pub proof fn a_quoted_value_is_read(
    before: Seq<Seq<char>>,
    after: Seq<Seq<char>>,
    key: Seq<char>,
    value: Seq<char>,
)
    requires
        key.len() > 0,
        !is_space(key[0]),
        !is_space(key.last()),
        key[0] != '#',
        !key.contains('='),
        value_in(before, key, 0) is None,
    ensures
        value_in(before.push(key + " = \""@ + value + "\""@) + after, key, 0) == Some(value),
{
    let line = key + " = \""@ + value + "\""@;
    let lines = before.push(line) + after;
    reveal_strlit(" = \"");
    reveal_strlit("\"");
    let n = key.len() as int;
    assert(line.last() == '"');
    assert(line[0] == key[0]);
    trim_of_trimmed(line);
    let mark = seq!['='];
    assert(mark[0] == '=');
    assert(line[n + 1] == '=');
    assert forall|i: int| 0 <= i < n + 1 implies !mark.contains(#[trigger] line[i]) by {
        if i < n {
            assert(line[i] == key[i]);
            assert(key.contains(key[i]));
        }
    }
    first_in_at(line, mark, 0, n + 1);
    let lhs = line.take(n + 1);
    let rhs = line.skip(n + 2);
    let quoted = "\""@ + value + "\""@;
    assert(lhs[0] == key[0] && lhs.last() == ' ');
    assert(lhs.drop_last() == key);
    assert(trim_end(lhs) == key) by {
        assert(trim_end(lhs) == trim_end(lhs.drop_last()));
        assert(trim_end(key) == key);
    }
    assert(trim(lhs) == key);
    assert(rhs[0] == ' ');
    assert(rhs.drop_first() == quoted);
    assert(trim_start(rhs) == quoted) by {
        assert(trim_start(rhs) == trim_start(rhs.drop_first()));
    }
    assert(quoted[0] == '"' && quoted.last() == '"');
    assert(trim(rhs) == quoted);
    assert(unquoted(quoted) == value);
    value_after_others(before, line, after, key, 0);
}

/// Lines without a key do not keep it from being found.
proof fn value_after_others(
    before: Seq<Seq<char>>,
    line: Seq<char>,
    after: Seq<Seq<char>>,
    key: Seq<char>,
    from: int,
)
    requires
        0 <= from <= before.len(),
        value_in(before, key, from) is None,
    ensures
        value_in(before.push(line) + after, key, from) == value_in(
            before.push(line) + after,
            key,
            before.len() as int,
        ),
        (before.push(line) + after)[before.len() as int] == line,
    decreases before.len() - from,
{
    if from < before.len() {
        assert((before.push(line) + after)[from] == before[from]);
        value_after_others(before, line, after, key, from + 1);
    }
}

/// The keys of the values that the file may override.
pub open spec fn override_keys() -> Seq<Seq<char>> {
    seq![
        "SSID"@,
        "PASSWORD"@,
        "DEVICE_HOSTNAME"@,
        "TEMP_PROBE_NAME"@,
        "WIFI_SCAN_EVERY_ATTEMPTS"@,
        "STATUS_PRINT_EVERY_SECONDS"@,
        "NTP_SERVERS"@,
        "NTP_SERVER"@,
        "UDP_SERVER_IP"@,
        "UDP_SERVER_PORT"@,
        "DS18B20_RESOLUTION"@,
        "SSR_HEAT_DEADBAND"@,
    ]
}

/// The keys that have a value, in order, with their values.
pub open spec fn values_in(lines: Seq<Seq<char>>, keys: Seq<Seq<char>>) -> Seq<
    (Seq<char>, Seq<char>),
>
    decreases keys.len(),
{
    if keys.len() == 0 {
        Seq::empty()
    } else {
        let before = values_in(lines, keys.drop_last());
        match value_in(lines, keys.last(), 0) {
            Some(value) => before.push((keys.last(), value)),
            None => before,
        }
    }
}

/// Keys and values as texts.
pub open spec fn key_texts(v: Seq<(&'static str, String)>) -> Seq<(Seq<char>, Seq<char>)> {
    v.map_values(|kv: (&'static str, String)| (kv.0@, kv.1@))
}

fn add_override(
    out: &mut Vec<(&'static str, String)>,
    contents: &str,
    key: &'static str,
    Ghost(keys): Ghost<Seq<Seq<char>>>,
)
    requires
        key_texts(old(out)@) == values_in(split(contents@, '\n'), keys),
    ensures
        key_texts(final(out)@) == values_in(split(contents@, '\n'), keys.push(key@)),
{
    assert(keys.push(key@).drop_last() == keys);
    if let Some(value) = env_value(contents, key) {
        assert(key_texts(out@.push((key, value))) == key_texts(out@).push((key@, value@)));
        out.push((key, value));
    }
}

/// Reads the values that a configuration file overrides.
pub fn overrides(contents: &str) -> (r: Vec<(&'static str, String)>)
    ensures
        key_texts(r@) == values_in(split(contents@, '\n'), override_keys()),
{
    let mut out: Vec<(&'static str, String)> = Vec::new();
    let ghost k = override_keys();
    assert(key_texts(out@) == Seq::<(Seq<char>, Seq<char>)>::empty());
    add_override(&mut out, contents, "SSID", Ghost(k.take(0)));
    assert(k.take(0).push(k[0]) == k.take(1));
    add_override(&mut out, contents, "PASSWORD", Ghost(k.take(1)));
    assert(k.take(1).push(k[1]) == k.take(2));
    add_override(&mut out, contents, "DEVICE_HOSTNAME", Ghost(k.take(2)));
    assert(k.take(2).push(k[2]) == k.take(3));
    add_override(&mut out, contents, "TEMP_PROBE_NAME", Ghost(k.take(3)));
    assert(k.take(3).push(k[3]) == k.take(4));
    add_override(&mut out, contents, "WIFI_SCAN_EVERY_ATTEMPTS", Ghost(k.take(4)));
    assert(k.take(4).push(k[4]) == k.take(5));
    add_override(&mut out, contents, "STATUS_PRINT_EVERY_SECONDS", Ghost(k.take(5)));
    assert(k.take(5).push(k[5]) == k.take(6));
    add_override(&mut out, contents, "NTP_SERVERS", Ghost(k.take(6)));
    assert(k.take(6).push(k[6]) == k.take(7));
    add_override(&mut out, contents, "NTP_SERVER", Ghost(k.take(7)));
    assert(k.take(7).push(k[7]) == k.take(8));
    add_override(&mut out, contents, "UDP_SERVER_IP", Ghost(k.take(8)));
    assert(k.take(8).push(k[8]) == k.take(9));
    add_override(&mut out, contents, "UDP_SERVER_PORT", Ghost(k.take(9)));
    assert(k.take(9).push(k[9]) == k.take(10));
    add_override(&mut out, contents, "DS18B20_RESOLUTION", Ghost(k.take(10)));
    assert(k.take(10).push(k[10]) == k.take(11));
    add_override(&mut out, contents, "SSR_HEAT_DEADBAND", Ghost(k.take(11)));
    assert(k.take(11).push(k[11]) == k.take(12));
    assert(k.take(12) == k);
    out
}

/// A probe that is configured.
pub struct SensorBlock {
    pub pin: u8,
    pub name: String,
}

/// The pins and names of probes.
pub open spec fn pins_and_names(blocks: Seq<SensorBlock>) -> Seq<(u8, Seq<char>)> {
    blocks.map_values(|b: SensorBlock| (b.pin, b.name@))
}

/// A line without its comment and the white space around it.
pub open spec fn uncommented(line: Seq<char>) -> Seq<char> {
    trim(line.take(first_in(line, seq!['#'], 0)))
}

/// Whether a line starts a section.
pub open spec fn is_header(line: Seq<char>) -> bool {
    line.len() > 0 && line[0] == '['
}

/// Whether what follows these lines belongs to a probe.
pub open spec fn in_sensors(lines: Seq<Seq<char>>) -> bool
    decreases lines.len(),
{
    if lines.len() == 0 {
        false
    } else if is_header(uncommented(lines.last())) {
        uncommented(lines.last()) == "[[sensors]]"@
    } else {
        in_sensors(lines.drop_last())
    }
}

/// The settings of each probe's section.
pub open spec fn sensor_sections(lines: Seq<Seq<char>>) -> Seq<Seq<(Seq<char>, Seq<char>)>>
    decreases lines.len(),
{
    if lines.len() == 0 {
        Seq::empty()
    } else {
        let before = sensor_sections(lines.drop_last());
        let line = uncommented(lines.last());
        if line == "[[sensors]]"@ {
            before.push(Seq::empty())
        } else if !is_header(line) && in_sensors(lines.drop_last()) && setting_of(line) is Some {
            before.drop_last().push(before.last().push(setting_of(line)->0))
        } else {
            before
        }
    }
}

/// The last value that a section gives to a key.
pub open spec fn last_value(section: Seq<(Seq<char>, Seq<char>)>, key: Seq<char>) -> Option<
    Seq<char>,
>
    decreases section.len(),
{
    if section.len() == 0 {
        None
    } else if section.last().0 == key {
        Some(section.last().1)
    } else {
        last_value(section.drop_last(), key)
    }
}

/// Text without the quotes at its start.
pub open spec fn without_quotes_before(s: Seq<char>) -> Seq<char>
    decreases s.len(),
{
    if s.len() > 0 && s[0] == '"' {
        without_quotes_before(s.drop_first())
    } else {
        s
    }
}

/// Text without the quotes at its end.
pub open spec fn without_quotes_after(s: Seq<char>) -> Seq<char>
    decreases s.len(),
{
    if s.len() > 0 && s.last() == '"' {
        without_quotes_after(s.drop_last())
    } else {
        s
    }
}

/// The pin that a section gives, where it is a number of 8 bits.
pub open spec fn pin_of(section: Seq<(Seq<char>, Seq<char>)>) -> Option<u8> {
    match last_value(section, "pin"@) {
        Some(v) => match read_unsigned(without_quotes_after(without_quotes_before(v)), 255) {
            Some(n) => Some(n as u8),
            None => None,
        },
        None => None,
    }
}

/// The name that a section gives.
pub open spec fn name_of(section: Seq<(Seq<char>, Seq<char>)>) -> Option<Seq<char>> {
    match last_value(section, "name"@) {
        Some(v) => Some(unquoted(v)),
        None => None,
    }
}

/// Whether a section is that of the probe to control.
pub open spec fn is_control(section: Seq<(Seq<char>, Seq<char>)>) -> bool {
    match last_value(section, "control"@) {
        Some(v) => same_letters(v, "true"@),
        None => false,
    }
}

/// Whether a section gives both the pin and the name of a probe.
pub open spec fn is_complete(section: Seq<(Seq<char>, Seq<char>)>) -> bool {
    pin_of(section) is Some && name_of(section) is Some
}

/// The probes of the sections that are complete.
pub open spec fn probes_of(sections: Seq<Seq<(Seq<char>, Seq<char>)>>) -> Seq<(u8, Seq<char>)>
    decreases sections.len(),
{
    if sections.len() == 0 {
        Seq::empty()
    } else {
        let before = probes_of(sections.drop_last());
        let section = sections.last();
        if is_complete(section) {
            before.push((pin_of(section)->0, name_of(section)->0))
        } else {
            before
        }
    }
}

/// The number of the first probe that is to be controlled.
pub open spec fn control_of(sections: Seq<Seq<(Seq<char>, Seq<char>)>>) -> Option<nat>
    decreases sections.len(),
{
    if sections.len() == 0 {
        None
    } else if control_of(sections.drop_last()) is Some {
        control_of(sections.drop_last())
    } else if is_complete(sections.last()) && is_control(sections.last()) {
        Some(probes_of(sections.drop_last()).len())
    } else {
        None
    }
}

/// The probes in a configuration file, 3 at most.
pub open spec fn file_probes(contents: Seq<char>) -> Seq<(u8, Seq<char>)> {
    let all = probes_of(sensor_sections(split(contents, '\n')));
    if all.len() > MAX_SENSORS {
        all.take(MAX_SENSORS as int)
    } else {
        all
    }
}

/// The number of the probe to control: the first that says so among those that
/// are kept, and 0 otherwise.
pub open spec fn file_control(contents: Seq<char>) -> nat {
    match control_of(sensor_sections(split(contents, '\n'))) {
        Some(i) => if i < file_probes(contents).len() {
            i
        } else {
            0
        },
        None => 0,
    }
}

fn uncomment(line: &[char]) -> (r: &[char])
    ensures
        r@ == uncommented(line@),
{
    let set: [char; 1] = ['#'];
    assert(set@ == seq!['#']);
    let at: usize = find_any_char(line, &set);
    let head: &[char] = slice_subrange(line, 0, at);
    assert(head@ == line@.take(at as int));
    trim_chars(head)
}

fn drop_quotes(s: &[char]) -> (r: &[char])
    ensures
        r@ == without_quotes_after(without_quotes_before(s@)),
{
    let mut i: usize = 0;
    assert(s@.skip(0) == s@);
    while i < s.len() && s[i] == '"'
        invariant
            i <= s@.len(),
            without_quotes_before(s@) == without_quotes_before(s@.skip(i as int)),
        decreases s@.len() - i,
    {
        assert(s@.skip(i as int).drop_first() == s@.skip(i + 1));
        i = i + 1;
    }
    let t: &[char] = slice_subrange(s, i, s.len());
    assert(t@ == s@.skip(i as int));
    let mut n: usize = t.len();
    assert(t@.take(n as int) == t@);
    while n > 0 && t[n - 1] == '"'
        invariant
            n <= t@.len(),
            without_quotes_after(t@) == without_quotes_after(t@.take(n as int)),
        decreases n,
    {
        assert(t@.take(n as int).drop_last() == t@.take(n - 1));
        n = n - 1;
    }
    let r: &[char] = slice_subrange(t, 0, n);
    assert(r@ == t@.take(n as int));
    r
}

/// What a section has given so far.
struct Section {
    pin: Option<u8>,
    name: Option<String>,
    control: bool,
}

impl Section {
    spec fn of(self, section: Seq<(Seq<char>, Seq<char>)>) -> bool {
        &&& self.pin == pin_of(section)
        &&& match self.name {
            Some(name) => name_of(section) == Some(name@),
            None => name_of(section) is None,
        }
        &&& self.control == is_control(section)
    }

    fn new() -> (r: Self)
        ensures
            r.of(Seq::empty()),
    {
        Section { pin: None, name: None, control: false }
    }

    fn add_setting(&mut self, key: &[char], value: &[char], Ghost(section): Ghost<
        Seq<(Seq<char>, Seq<char>)>,
    >)
        requires
            old(self).of(section),
        ensures
            final(self).of(section.push((key@, value@))),
    {
        proof {
            let after = section.push((key@, value@));
            assert(after.drop_last() == section);
            assert(after.last() == (key@, value@));
            assert forall|k: Seq<char>| #[trigger]
                last_value(after, k) == (if key@ == k {
                    Some(value@)
                } else {
                    last_value(section, k)
                }) by {}
            reveal_strlit("pin");
            reveal_strlit("name");
            reveal_strlit("control");
            assert("pin"@.len() == 3 && "name"@.len() == 4 && "control"@.len() == 7);
        }
        if chars_equal(key, to_chars("pin").as_slice()) {
            self.pin =
            match parse_unsigned(drop_quotes(value), 255) {
                Some(n) => Some(n as u8),
                None => None,
            };
        } else if chars_equal(key, to_chars("name").as_slice()) {
            self.name = Some(to_string(unquote(value)));
        } else if chars_equal(key, to_chars("control").as_slice()) {
            self.control = chars_same_letters(value, to_chars("true").as_slice());
        }
    }
}

/// The probes that were found so far.
struct Found {
    blocks: Vec<SensorBlock>,
    control: Option<usize>,
}

impl Found {
    spec fn of(self, sections: Seq<Seq<(Seq<char>, Seq<char>)>>) -> bool {
        &&& pins_and_names(self.blocks@) == probes_of(sections)
        &&& match self.control {
            Some(i) => control_of(sections) == Some(i as nat),
            None => control_of(sections) is None,
        }
    }

    fn add_section(&mut self, done: Section, Ghost(sections): Ghost<
        Seq<Seq<(Seq<char>, Seq<char>)>>,
    >)
        requires
            sections.len() > 0,
            old(self).of(sections.drop_last()),
            done.of(sections.last()),
        ensures
            final(self).of(sections),
    {
        if let (Some(pin), Some(name)) = (done.pin, done.name) {
            let at: usize = self.blocks.len();
            assert(pins_and_names(self.blocks@).len() == at);
            let block: SensorBlock = SensorBlock { pin, name };
            assert(pins_and_names(self.blocks@.push(block)) == pins_and_names(self.blocks@).push(
                (pin, block.name@),
            ));
            self.blocks.push(block);
            if done.control && self.control.is_none() {
                self.control = Some(at);
            }
        }
    }
}

/// Finds the probes in a configuration file: at most 3 of them, in order, and
/// the number of the one to control.
pub fn sensor_blocks(contents: &str) -> (r: (Vec<SensorBlock>, usize))
    ensures
        pins_and_names(r.0@) == file_probes(contents@),
        r.1 == file_control(contents@),
{
    let chars: Vec<char> = to_chars(contents);
    let header: Vec<char> = to_chars("[[sensors]]");
    let lines: Vec<Vec<char>> = split_chars(chars.as_slice(), '\n');
    let ghost all = texts(lines@);
    let mut found: Found = Found { blocks: Vec::new(), control: None };
    let mut section: Section = Section::new();
    let mut inside: bool = false;
    let ghost mut sections: Seq<Seq<(Seq<char>, Seq<char>)>> = Seq::empty();
    assert(pins_and_names(found.blocks@) == Seq::<(u8, Seq<char>)>::empty());
    let mut i: usize = 0;
    while i < lines.len()
        invariant
            i <= lines@.len(),
            header@ == "[[sensors]]"@,
            all == texts(lines@),
            inside == in_sensors(all.take(i as int)),
            sections == sensor_sections(all.take(i as int)),
            inside ==> sections.len() > 0 && found.of(sections.drop_last()) && section.of(
                sections.last(),
            ),
            !inside ==> found.of(sections),
        decreases lines@.len() - i,
    {
        assert(all.take(i + 1).drop_last() == all.take(i as int));
        assert(all.take(i + 1).last() == lines@[i as int]@);
        proof {
            reveal_strlit("[[sensors]]");
        }
        let line: &[char] = uncomment(lines[i].as_slice());
        if chars_equal(line, header.as_slice()) {
            if inside {
                found.add_section(section, Ghost(sections));
            }
            section = Section::new();
            inside = true;
            proof {
                assert(sections.push(Seq::empty()).drop_last() == sections);
                sections = sections.push(Seq::empty());
            }
        } else if line.len() > 0 && line[0] == '[' {
            if inside {
                found.add_section(section, Ghost(sections));
                section = Section::new();
                inside = false;
            }
        } else if inside {
            if let Some((key, value)) = read_setting(line) {
                section.add_setting(key, value, Ghost(sections.last()));
                proof {
                    let last = sections.last().push((key@, value@));
                    assert(sections.drop_last().push(last).drop_last() == sections.drop_last());
                    sections = sections.drop_last().push(last);
                }
            }
        }
        i = i + 1;
    }
    assert(all.take(i as int) == all);
    if inside {
        found.add_section(section, Ghost(sections));
    }
    let Found { mut blocks, control } = found;
    let ghost every = pins_and_names(blocks@);
    if blocks.len() > MAX_SENSORS {
        blocks.truncate(MAX_SENSORS);
        assert(pins_and_names(blocks@) == every.take(MAX_SENSORS as int));
    }
    assert(pins_and_names(blocks@) == file_probes(contents@));
    assert(pins_and_names(blocks@).len() == blocks@.len());
    let index: usize = match control {
        Some(at) => if at < blocks.len() {
            at
        } else {
            0
        },
        None => 0,
    };
    (blocks, index)
}

/// The probes of the device: those that are configured, and one where there
/// are none.
pub fn configured_sensors(contents: &str) -> (r: (Vec<SensorBlock>, usize))
    ensures
        pins_and_names(r.0@) == (if file_probes(contents@).len() == 0 {
            seq![(SENSOR_PIN_DEFAULT, "probe-1"@)]
        } else {
            file_probes(contents@)
        }),
        r.1 == file_control(contents@),
        1 <= r.0@.len() <= MAX_SENSORS,
        r.1 < r.0@.len(),
{
    let (mut blocks, control) = sensor_blocks(contents);
    assert(pins_and_names(blocks@).len() == blocks@.len());
    if blocks.len() == 0 {
        blocks.push(SensorBlock { pin: SENSOR_PIN_DEFAULT, name: "probe-1".to_owned() });
        assert(pins_and_names(blocks@) == seq![(SENSOR_PIN_DEFAULT, "probe-1"@)]);
    }
    (blocks, control)
}

// ── Laws ─────────────────────────────────────────────────────────────────────

/// A configured resolution is taken where it has 9 to 12 bits, and counts as
/// the nearest of these where it is a smaller or larger byte. Without one, and
/// with what is no byte, the resolution has 11 bits.
pub proof fn a_resolution_is_9_to_12_bits(s: &str, n: nat)
    requires
        s@ == decimal(n),
    ensures
        9 <= n <= 12 ==> resolution_bits(Some(s)) == n,
        n < 9 ==> resolution_bits(Some(s)) == 9,
        12 < n <= 255 ==> resolution_bits(Some(s)) == 12,
        n > 255 ==> resolution_bits(Some(s)) == 11,
        resolution_bits(None) == 11,
{
    decimal_reads(n, 255);
}

/// What a written number reads as, under any limit.
proof fn decimal_reads(n: nat, max: nat)
    ensures
        read_unsigned(decimal(n), max) == (if n <= max {
            Some(n)
        } else {
            None
        }),
{
    decimal_read_back(n, n);
    let c = decimal(n)[0];
    assert(decimal(n).len() > 0) by {
        decimal_read_back(n, n);
        assert(read_unsigned(Seq::<char>::empty(), n) is None);
        if decimal(n).len() == 0 {
            assert(decimal(n) == Seq::<char>::empty());
        }
    }
    assert(is_digit(c));
}

/// A conversion takes 750 ms at 12 bits and half as long for each bit less,
/// with less than a millisecond added in all.
pub proof fn a_conversion_halves_with_each_bit(config: Option<&str>)
    ensures
        resolution_bits(config) == 12 ==> conversion_ms(config) == 750,
        resolution_bits(config) == 11 ==> 750 <= 2 * conversion_ms(config) < 752,
        resolution_bits(config) == 10 ==> 750 <= 4 * conversion_ms(config) < 754,
        resolution_bits(config) == 9 ==> 750 <= 8 * conversion_ms(config) < 758,
{
}

/// A configured number of seconds between two status lines is taken unless it
/// is zero; without one a line is due every five seconds.
pub proof fn status_lines_come_as_configured(s: &str, n: nat)
    requires
        s@ == decimal(n),
        n <= u64::MAX,
    ensures
        n > 0 ==> print_every_seconds(Some(s)) == n,
        n == 0 ==> print_every_seconds(Some(s)) == print_every_seconds(None),
        print_every_seconds(None) == 5,
{
    decimal_reads(n, u64::MAX as nat);
}

/// A configured port of the telemetry server is taken where it is above 1024
/// and a port at all, and 47890 is used otherwise.
pub proof fn a_port_is_taken_above_1024(s: &str, n: nat)
    requires
        s@ == decimal(n),
    ensures
        1024 < n <= 65535 ==> server_port(Some(s)) == n,
        n <= 1024 || n > 65535 ==> server_port(Some(s)) == 47890,
        server_port(None) == 47890,
{
    decimal_reads(n, 0xffff);
}

/// A name that is configured is taken, unless it is empty.
pub proof fn a_configured_name_is_taken(s: &str, default: Seq<char>)
    ensures
        s@.len() > 0 ==> configured_name(Some(s), default) == s@,
        s@.len() == 0 ==> configured_name(Some(s), default) == default,
        configured_name(None, default) == default,
{
}

proof fn boundary_is_the_last(bytes: Seq<u8>, n: int)
    requires
        n >= 0,
    ensures
        0 <= boundary_at_most(bytes, n) <= n,
        boundary_at_most(bytes, n) == 0 || is_char_boundary(bytes, boundary_at_most(bytes, n)),
        forall|k: int| boundary_at_most(bytes, n) < k <= n ==> !is_char_boundary(bytes, k),
    decreases n,
{
    if n > 0 && !is_char_boundary(bytes, n) {
        boundary_is_the_last(bytes, n - 1);
    }
}

/// A host name of up to 20 bytes stays as it is. A longer one is cut to as many
/// bytes as can be kept, of 20, without cutting a character in two.
pub proof fn a_host_name_is_cut_between_characters(bytes: Seq<u8>)
    ensures
        bytes.len() <= 20 ==> hostname_cut(bytes) == bytes,
        hostname_cut(bytes).len() <= 20,
        hostname_cut(bytes) == bytes.take(hostname_cut(bytes).len() as int),
        bytes.len() > 20 ==> forall|k: int|
            hostname_cut(bytes).len() < k <= 20 ==> !is_char_boundary(bytes, k),
        bytes.len() > 20 && hostname_cut(bytes).len() > 0 ==> is_char_boundary(
            bytes,
            hostname_cut(bytes).len() as int,
        ),
{
    boundary_is_the_last(bytes, 20);
    assert(bytes.take(bytes.len() as int) == bytes);
}

/// The host name field starts with the name and is filled up with zeros to 20
/// bytes.
pub proof fn a_host_name_is_padded_with_zeros(bytes: Seq<u8>)
    requires
        bytes.len() <= 20,
    ensures
        zero_padded(bytes).len() == 20,
        zero_padded(bytes).take(bytes.len() as int) == bytes,
        forall|i: int| bytes.len() <= i < 20 ==> zero_padded(bytes)[i] == 0,
{
    assert(zero_padded(bytes).take(bytes.len() as int) == bytes);
}

/// Comments and lines without an equals sign set nothing.
pub proof fn comments_set_nothing(line: Seq<char>)
    ensures
        uncommented_setting(seq!['#'] + line) is None,
        !line.contains('=') ==> setting_of(line) is None,
{
    let c = seq!['#'] + line;
    let s = trim_start(c);
    assert(c[0] == '#');
    assert(s == c);
    trim_keeps_the_first(c);
    if !line.contains('=') {
        nowhere(line, 0);
    }
}

proof fn trim_keeps_the_first(s: Seq<char>)
    requires
        s.len() > 0,
        !is_space(s[0]),
    ensures
        trim_end(s).len() > 0,
        trim_end(s)[0] == s[0],
    decreases s.len(),
{
    if is_space(s.last()) {
        trim_keeps_the_first(s.drop_last());
    }
}

proof fn nowhere(line: Seq<char>, from: int)
    requires
        0 <= from <= line.len(),
        !line.contains('='),
    ensures
        first_in(line, seq!['='], from) == line.len(),
    decreases line.len() - from,
{
    if from < line.len() {
        assert(line.contains(line[from]));
        nowhere(line, from + 1);
    }
}

/// A key and its value stand on either side of the first equals sign, without
/// the white space around them.
pub proof fn a_setting_is_split_at_the_equals_sign(
    key: Seq<char>,
    gap: Seq<char>,
    gap2: Seq<char>,
    value: Seq<char>,
)
    requires
        !key.contains('='),
        key.len() > 0 ==> !is_space(key[0]) && !is_space(key.last()),
        value.len() > 0 ==> !is_space(value[0]) && !is_space(value.last()),
        forall|i: int| 0 <= i < gap.len() ==> is_space(#[trigger] gap[i]),
        forall|i: int| 0 <= i < gap2.len() ==> is_space(#[trigger] gap2[i]),
    ensures
        setting_of(key + gap + seq!['='] + gap2 + value) == Some((key, value)),
{
    let line = key + gap + seq!['='] + gap2 + value;
    let n = key.len() + gap.len();
    let mark = seq!['='];
    assert(mark[0] == '=');
    assert(line[n as int] == '=');
    assert forall|i: int| 0 <= i < n implies !mark.contains(#[trigger] line[i]) by {
        if i < key.len() {
            assert(line[i] == key[i]);
            assert(key.contains(key[i]));
        } else {
            assert(line[i] == gap[i - key.len()]);
        }
    }
    first_in_at(line, mark, 0, n as int);
    let none = Seq::<char>::empty();
    assert(line.take(n as int) == none + key + gap);
    trimming_takes_only_white_space(none, key, gap);
    assert(line.skip(n as int + 1) == gap2 + value + none);
    trimming_takes_only_white_space(gap2, value, none);
}

proof fn plain_line(line: Seq<char>)
    requires
        !line.contains('#'),
        line.len() > 0 ==> !is_space(line[0]) && !is_space(line.last()),
    ensures
        uncommented(line) == line,
{
    no_comment(line, 0);
    assert(line.take(line.len() as int) == line);
    trim_of_trimmed(line);
}

proof fn no_comment(line: Seq<char>, from: int)
    requires
        0 <= from <= line.len(),
        !line.contains('#'),
    ensures
        first_in(line, seq!['#'], from) == line.len(),
    decreases line.len() - from,
{
    if from < line.len() {
        assert(line.contains(line[from]));
        no_comment(line, from + 1);
    }
}

/// What follows a number sign on a line of a probe's section is a comment.
pub proof fn what_follows_a_number_sign_is_a_comment(text: Seq<char>, comment: Seq<char>)
    requires
        !text.contains('#'),
        text.len() > 0 ==> !is_space(text[0]) && !is_space(text.last()),
    ensures
        uncommented(text + seq!['#'] + comment) == text,
        uncommented(text) == text,
{
    let line = text + seq!['#'] + comment;
    let mark = seq!['#'];
    assert(mark[0] == '#');
    let n = text.len() as int;
    assert(line[n] == '#');
    assert forall|i: int| 0 <= i < n implies !mark.contains(#[trigger] line[i]) by {
        assert(line[i] == text[i]);
        assert(text.contains(text[i]));
    }
    first_in_at(line, mark, 0, n);
    assert(line.take(n) == text);
    trim_of_trimmed(text);
    plain_line(text);
}

/// A header starts a section of its own, and a setting behind it belongs to the
/// section of the last header. Only sections of probes count.
#[verifier::rlimit(40)]
pub proof fn settings_belong_to_the_section_before(
    lines: Seq<Seq<char>>,
    line: Seq<char>,
    key: Seq<char>,
    value: Seq<char>,
)
    requires
        setting_of(uncommented(line)) == Some((key, value)),
        !is_header(uncommented(line)),
    ensures
        ({
            let s = sensor_sections(lines);
            let after = sensor_sections(lines.push("[[sensors]]"@));
            &&& after == s.push(Seq::empty())
            &&& sensor_sections(lines.push("[[sensors]]"@).push(line)) == s.push(
                seq![(key, value)],
            )
            &&& in_sensors(lines) && s.len() > 0 ==> sensor_sections(lines.push(line)) == s.update(
                s.len() - 1,
                s.last().push((key, value)),
            )
            &&& !in_sensors(lines) ==> sensor_sections(lines.push(line)) == s
            &&& in_sensors(lines.push(line)) == in_sensors(lines)
            &&& in_sensors(lines.push("[[sensors]]"@))
        }),
{
    let header = "[[sensors]]"@;
    header_is_plain();
    let s = sensor_sections(lines);
    let with = lines.push(header);
    assert(with.drop_last() == lines);
    assert(sensor_sections(with) == s.push(Seq::empty()));
    let both = with.push(line);
    assert(both.drop_last() == with);
    assert(uncommented(line) != header) by {
        reveal_strlit("[[sensors]]");
    }
    assert(s.push(Seq::empty()).drop_last() == s);
    assert(Seq::<(Seq<char>, Seq<char>)>::empty().push((key, value)) == seq![(key, value)]);
    let longer = lines.push(line);
    assert(longer.drop_last() == lines);
    if in_sensors(lines) && s.len() > 0 {
        assert(s.drop_last().push(s.last().push((key, value))) == s.update(
            s.len() - 1,
            s.last().push((key, value)),
        ));
    }
}

proof fn header_is_plain()
    ensures
        uncommented("[[sensors]]"@) == "[[sensors]]"@,
        is_header("[[sensors]]"@),
{
    reveal_strlit("[[sensors]]");
    let h = "[[sensors]]"@;
    assert(!h.contains('#'));
    plain_line(h);
}

/// The settings that make up a probe are its pin and its name: a section with
/// both adds the probe, whatever else it holds before them, and one that lacks
/// either adds none.
#[verifier::rlimit(40)]
pub proof fn a_section_with_pin_and_name_is_a_probe(
    sections: Seq<Seq<(Seq<char>, Seq<char>)>>,
    others: Seq<(Seq<char>, Seq<char>)>,
    pin: u8,
    name: Seq<char>,
)
    ensures
        ({
            let pin_setting = ("pin"@, decimal(pin as nat));
            let name_setting = ("name"@, seq!['"'] + name + seq!['"']);
            &&& probes_of(sections.push(others.push(pin_setting).push(name_setting))) == probes_of(
                sections,
            ).push((pin, name))
            &&& probes_of(sections.push(others.push(name_setting).push(pin_setting))) == probes_of(
                sections,
            ).push((pin, name))
            &&& probes_of(sections.push(seq![pin_setting])) == probes_of(sections)
            &&& probes_of(sections.push(seq![name_setting])) == probes_of(sections)
            &&& probes_of(sections.push(Seq::empty())) == probes_of(sections)
        }),
{
    let quoted = seq!['"'] + name + seq!['"'];
    let pin_setting = ("pin"@, decimal(pin as nat));
    let name_setting = ("name"@, quoted);
    reveal_strlit("pin");
    reveal_strlit("name");
    assert("pin"@.len() != "name"@.len());
    assert(quoted[0] == '"' && quoted.last() == '"');
    assert(quoted.subrange(1, quoted.len() - 1) == name);
    decimal_reads(pin as nat, 255);
    decimal_read_back(pin as nat, 255);
    digits_have_no_quotes(decimal(pin as nat));
    let a = others.push(pin_setting).push(name_setting);
    assert(a.drop_last() == others.push(pin_setting));
    assert(others.push(pin_setting).drop_last() == others);
    assert(last_value(others.push(pin_setting), "pin"@) == Some(decimal(pin as nat)));
    assert(pin_of(a) == Some(pin) && name_of(a) == Some(name));
    assert(sections.push(a).drop_last() == sections);
    let b = others.push(name_setting).push(pin_setting);
    assert(b.drop_last() == others.push(name_setting));
    assert(last_value(others.push(name_setting), "name"@) == Some(quoted));
    assert(pin_of(b) == Some(pin) && name_of(b) == Some(name));
    assert(sections.push(b).drop_last() == sections);
    let none = Seq::<(Seq<char>, Seq<char>)>::empty();
    assert(seq![pin_setting].drop_last() == none);
    assert(seq![name_setting].drop_last() == none);
    assert(last_value(none, "name"@) is None && last_value(none, "pin"@) is None);
    assert(name_of(seq![pin_setting]) is None);
    assert(pin_of(seq![name_setting]) is None);
    assert(sections.push(seq![pin_setting]).drop_last() == sections);
    assert(sections.push(seq![name_setting]).drop_last() == sections);
    assert(sections.push(none).drop_last() == sections);
}

proof fn digits_have_no_quotes(s: Seq<char>)
    requires
        all_digits(s),
    ensures
        without_quotes_after(without_quotes_before(s)) == s,
{
    if s.len() > 0 {
        assert(is_digit(s[0]) && is_digit(s[s.len() - 1]));
    }
}

/// The first probe whose section says `control = true` is the one to control,
/// counted among the probes; later ones do not change that, and one without
/// does not count.
pub proof fn the_first_marked_probe_is_controlled(
    sections: Seq<Seq<(Seq<char>, Seq<char>)>>,
    section: Seq<(Seq<char>, Seq<char>)>,
    value: Seq<char>,
)
    requires
        last_value(section, "control"@) == Some(value),
        pin_of(section) is Some,
        name_of(section) is Some,
    ensures
        control_of(Seq::empty()) is None,
        control_of(sections) is Some ==> control_of(sections.push(section)) == control_of(sections),
        control_of(sections) is None && same_letters(value, "true"@) ==> control_of(
            sections.push(section),
        ) == Some(probes_of(sections).len()),
        control_of(sections) is None && !same_letters(value, "true"@) ==> control_of(
            sections.push(section),
        ) is None,
{
    assert(sections.push(section).drop_last() == sections);
}

/// No more than three probes are kept, and these are the first ones. The probe
/// to control is one of them.
pub proof fn the_first_three_probes_are_kept(contents: Seq<char>)
    ensures
        file_probes(contents).len() <= 3,
        ({
            let all = probes_of(sensor_sections(split(contents, '\n')));
            &&& all.len() <= 3 ==> file_probes(contents) == all
            &&& all.len() > 3 ==> file_probes(contents) == all.take(3)
        }),
        file_control(contents) == 0 || file_control(contents) < file_probes(contents).len(),
{
}

/// Every key that the file sets, and no other, is overridden, each with its own
/// value.
pub proof fn every_key_gets_its_own_value(lines: Seq<Seq<char>>, keys: Seq<Seq<char>>, key: Seq<char>)
    ensures
        keys.contains(key) && value_in(lines, key, 0) is Some ==> values_in(lines, keys).contains(
            (key, value_in(lines, key, 0)->0),
        ),
        forall|i: int|
            0 <= i < values_in(lines, keys).len() ==> {
                let kv = #[trigger] values_in(lines, keys)[i];
                keys.contains(kv.0) && value_in(lines, kv.0, 0) == Some(kv.1)
            },
    decreases keys.len(),
{
    if keys.len() > 0 {
        let shorter = keys.drop_last();
        every_key_gets_its_own_value(lines, shorter, key);
        let before = values_in(lines, shorter);
        let now = values_in(lines, keys);
        assert(keys[keys.len() - 1] == keys.last());
        if keys.contains(key) && value_in(lines, key, 0) is Some {
            let kv = (key, value_in(lines, key, 0)->0);
            if key == keys.last() {
                assert(now[now.len() - 1] == kv);
            } else {
                let k = choose|k: int| 0 <= k < keys.len() && keys[k] == key;
                assert(shorter[k] == key);
                let m = choose|m: int| 0 <= m < before.len() && before[m] == kv;
                assert(now[m] == kv);
            }
        }
        assert forall|i: int| 0 <= i < now.len() implies {
            let kv = #[trigger] now[i];
            keys.contains(kv.0) && value_in(lines, kv.0, 0) == Some(kv.1)
        } by {
            if i < before.len() {
                assert(now[i] == before[i]);
                let kv = before[i];
                let k = choose|k: int| 0 <= k < shorter.len() && shorter[k] == kv.0;
                assert(keys[k] == kv.0);
            }
        }
    }
}

} // verus!
