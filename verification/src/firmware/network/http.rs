//! The device's HTTP interface: reading requests and composing replies.
//!
//! A request is read from the bytes of its first segment. A number that is
//! held as floating point elsewhere is handed on as its text.

use vstd::prelude::*;
use vstd::slice::slice_subrange;
use vstd::utf8::{
    encode_utf8, encode_utf8_decode_utf8, encode_utf8_valid_utf8, is_ascii_chars,
    is_ascii_chars_encode_utf8,
};
use crate::bytes::{
    bytes_start_with, find_any_byte, find_bytes, find_other_byte, utf8_chars, utf8_text,
};
use crate::text::{
    chars_start_with, decimal, decimal_read_back, find, find_any_char, find_chars, find_from_at,
    first_in, first_in_at, first_not_in, is_digit, parse_unsigned, read_unsigned, split,
    split_chars, split_of_part, starts_with, texts, to_chars, to_string, trim, trim_chars,
    trim_start, trim_start_chars, trim_start_len,
};

verus! {

pub const HISTORY_DEFAULT_POINTS: usize = 400;

pub const HISTORY_MAX_POINTS: usize = 1000;

// ── Requests ─────────────────────────────────────────────────────────────────

/// A profile step as it was posted: the target as text, the hold in seconds.
pub struct StepText {
    pub target: String,
    pub hold_secs: u32,
}

/// What a client asks for.
pub enum ParsedRequest {
    GetStatus,
    GetHistory(usize),
    GetSensorScan,
    GetConfig,
    GetMetrics,
    /// The target temperature as text.
    PostTemperature(String),
    PostCollection(bool),
    PostHistoryClear,
    PostProbeName(String),
    PostConfig { http: bool, prometheus: bool },
    GetProfiles,
    GetProfile(String),
    GetActiveProfile,
    PostProfile { name: String, steps: Vec<StepText> },
    DeleteProfile(String),
    StartProfile(String),
    StopProfile,
    BadRequest,
    NotFound,
}

/// What a client asks for, as mathematical values.
pub enum Request {
    GetStatus,
    GetHistory(int),
    GetSensorScan,
    GetConfig,
    GetMetrics,
    PostTemperature(Seq<char>),
    PostCollection(bool),
    PostHistoryClear,
    PostProbeName(Seq<char>),
    PostConfig { http: bool, prometheus: bool },
    GetProfiles,
    GetProfile(Seq<char>),
    GetActiveProfile,
    PostProfile { name: Seq<char>, steps: Seq<(Seq<char>, u32)> },
    DeleteProfile(Seq<char>),
    StartProfile(Seq<char>),
    StopProfile,
    BadRequest,
    NotFound,
}

/// The steps of a profile as mathematical values.
pub open spec fn step_texts(steps: Seq<StepText>) -> Seq<(Seq<char>, u32)> {
    steps.map_values(|s: StepText| (s.target@, s.hold_secs))
}

impl View for ParsedRequest {
    type V = Request;

    open spec fn view(&self) -> Request {
        match self {
            ParsedRequest::GetStatus => Request::GetStatus,
            ParsedRequest::GetHistory(n) => Request::GetHistory(*n as int),
            ParsedRequest::GetSensorScan => Request::GetSensorScan,
            ParsedRequest::GetConfig => Request::GetConfig,
            ParsedRequest::GetMetrics => Request::GetMetrics,
            ParsedRequest::PostTemperature(s) => Request::PostTemperature(s@),
            ParsedRequest::PostCollection(b) => Request::PostCollection(*b),
            ParsedRequest::PostHistoryClear => Request::PostHistoryClear,
            ParsedRequest::PostProbeName(s) => Request::PostProbeName(s@),
            ParsedRequest::PostConfig { http, prometheus } => Request::PostConfig {
                http: *http,
                prometheus: *prometheus,
            },
            ParsedRequest::GetProfiles => Request::GetProfiles,
            ParsedRequest::GetProfile(s) => Request::GetProfile(s@),
            ParsedRequest::GetActiveProfile => Request::GetActiveProfile,
            ParsedRequest::PostProfile { name, steps } => Request::PostProfile {
                name: name@,
                steps: step_texts(steps@),
            },
            ParsedRequest::DeleteProfile(s) => Request::DeleteProfile(s@),
            ParsedRequest::StartProfile(s) => Request::StartProfile(s@),
            ParsedRequest::StopProfile => Request::StopProfile,
            ParsedRequest::BadRequest => Request::BadRequest,
            ParsedRequest::NotFound => Request::NotFound,
        }
    }
}

/// An optional string as text.
pub open spec fn opt_view(s: Option<String>) -> Option<Seq<char>> {
    match s {
        Some(v) => Some(v@),
        None => None,
    }
}

// ── Bodies ───────────────────────────────────────────────────────────────────

/// What follows the empty line that ends the header.
pub open spec fn body_of(buf: Seq<u8>) -> Option<Seq<u8>> {
    match find(buf, seq![13u8, 10, 13, 10]) {
        Some(i) => Some(buf.skip(i + 4)),
        None => None,
    }
}

/// The body as text, without the white space around it.
pub open spec fn text_body(buf: Seq<u8>) -> Option<Seq<char>> {
    match body_of(buf) {
        Some(body) => match utf8_text(body) {
            Some(text) => Some(trim(text)),
            None => None,
        },
        None => None,
    }
}

/// Finds the body.
fn find_body(buf: &[u8]) -> (r: Option<&[u8]>)
    ensures
        match r {
            Some(body) => body_of(buf@) == Some(body@),
            None => body_of(buf@) is None,
        },
{
    let n: usize = buf.len();
    let blank: [u8; 4] = [13, 10, 13, 10];
    assert(blank@ == seq![13u8, 10, 13, 10]);
    match find_bytes(buf, &blank) {
        Some(i) => {
            let body: &[u8] = slice_subrange(buf, i + 4, n);
            assert(body@ == buf@.skip(i + 4));
            Some(body)
        },
        None => None,
    }
}

/// Reads the body as text.
fn read_text_body(buf: &[u8]) -> (r: Option<Vec<char>>)
    ensures
        match r {
            Some(text) => text_body(buf@) == Some(text@),
            None => text_body(buf@) is None,
        },
{
    match find_body(buf) {
        Some(body) => match utf8_chars(body) {
            Some(text) => {
                let trimmed: &[char] = trim_chars(text.as_slice());
                Some(vstd::slice::slice_to_vec(trimmed))
            },
            None => None,
        },
        None => None,
    }
}

// ── Fields ───────────────────────────────────────────────────────────────────

/// A key in double quotes.
pub open spec fn quoted_key(key: Seq<char>) -> Seq<char> {
    seq!['"'] + key + seq!['"']
}

/// What follows a key and its colon, without white space before it.
pub open spec fn field_value(body: Seq<char>, key: Seq<char>) -> Option<Seq<char>> {
    match find(body, quoted_key(key)) {
        Some(i) => {
            let after = body.skip(i + quoted_key(key).len());
            let colon = first_in(after, seq![':'], 0);
            if colon < after.len() {
                Some(trim_start(after.skip(colon + 1)))
            } else {
                None
            }
        },
        None => None,
    }
}

/// The characters that end a bare value.
pub open spec fn value_end() -> Seq<char> {
    seq![',', '}', ' ', '\t', '\r', '\n']
}

/// A bare value: up to a comma, a brace or white space.
pub open spec fn bare_value(body: Seq<char>, key: Seq<char>) -> Option<Seq<char>> {
    match field_value(body, key) {
        Some(value) => Some(value.take(first_in(value, value_end(), 0))),
        None => None,
    }
}

/// A boolean field.
pub open spec fn bool_field(body: Seq<char>, key: Seq<char>) -> Option<bool> {
    match field_value(body, key) {
        Some(value) => if starts_with(value, "true"@) {
            Some(true)
        } else if starts_with(value, "false"@) {
            Some(false)
        } else {
            None
        },
        None => None,
    }
}

/// A string field: what stands between its quotes.
pub open spec fn string_field(body: Seq<char>, key: Seq<char>) -> Option<Seq<char>> {
    match field_value(body, key) {
        Some(value) => if value.len() > 0 && value[0] == '"' {
            let rest = value.skip(1);
            let end = first_in(rest, seq!['"'], 0);
            if end < rest.len() {
                Some(rest.take(end))
            } else {
                None
            }
        } else {
            None
        },
        None => None,
    }
}

/// An unsigned 32-bit field.
pub open spec fn u32_field(body: Seq<char>, key: Seq<char>) -> Option<nat> {
    match bare_value(body, key) {
        Some(token) => read_unsigned(token, u32::MAX as nat),
        None => None,
    }
}

/// Finds what follows a key and its colon.
fn find_field<'a>(body: &'a [char], key: &str) -> (r: Option<&'a [char]>)
    ensures
        match r {
            Some(value) => field_value(body@, key@) == Some(value@),
            None => field_value(body@, key@) is None,
        },
{
    let n: usize = body.len();
    let mut needle: Vec<char> = Vec::new();
    needle.push('"');
    let mut name: Vec<char> = to_chars(key);
    needle.append(&mut name);
    needle.push('"');
    assert(needle@ == quoted_key(key@));
    match find_chars(body, needle.as_slice()) {
        Some(i) => {
            let after: &[char] = slice_subrange(body, i + needle.len(), n);
            assert(after@ == body@.skip(i + needle@.len()));
            let set: [char; 1] = [':'];
            assert(set@ == seq![':']);
            let colon: usize = find_any_char(after, &set);
            if colon < after.len() {
                let rest: &[char] = slice_subrange(after, colon + 1, after.len());
                assert(rest@ == after@.skip(colon + 1));
                Some(trim_start_chars(rest))
            } else {
                None
            }
        },
        None => None,
    }
}

/// Finds a bare value.
fn find_bare_value<'a>(body: &'a [char], key: &str) -> (r: Option<&'a [char]>)
    ensures
        match r {
            Some(token) => bare_value(body@, key@) == Some(token@),
            None => bare_value(body@, key@) is None,
        },
{
    match find_field(body, key) {
        Some(value) => {
            let set: [char; 6] = [',', '}', ' ', '\t', '\r', '\n'];
            assert(set@ == value_end());
            let end: usize = find_any_char(value, &set);
            let token: &[char] = slice_subrange(value, 0, end);
            assert(token@ == value@.take(end as int));
            Some(token)
        },
        None => None,
    }
}

/// Reads a boolean field.
pub fn parse_json_bool_field(body: &[char], key: &str) -> (r: Option<bool>)
    ensures
        r == bool_field(body@, key@),
{
    match find_field(body, key) {
        Some(value) => if chars_start_with(value, to_chars("true").as_slice()) {
            Some(true)
        } else if chars_start_with(value, to_chars("false").as_slice()) {
            Some(false)
        } else {
            None
        },
        None => None,
    }
}

/// Reads a string field.
pub fn parse_json_string_field(body: &[char], key: &str) -> (r: Option<String>)
    ensures
        opt_view(r) == string_field(body@, key@),
{
    match find_field(body, key) {
        Some(value) => {
            if value.len() == 0 || value[0] != '"' {
                return None;
            }
            let rest: &[char] = slice_subrange(value, 1, value.len());
            assert(rest@ == value@.skip(1));
            let set: [char; 1] = ['"'];
            assert(set@ == seq!['"']);
            let end: usize = find_any_char(rest, &set);
            if end < rest.len() {
                let inner: &[char] = slice_subrange(rest, 0, end);
                assert(inner@ == rest@.take(end as int));
                Some(to_string(inner))
            } else {
                None
            }
        },
        None => None,
    }
}

/// Reads an unsigned 32-bit field.
pub fn parse_json_u32_field(body: &[char], key: &str) -> (r: Option<u32>)
    ensures
        match r {
            Some(v) => u32_field(body@, key@) == Some(v as nat),
            None => u32_field(body@, key@) is None,
        },
{
    match find_bare_value(body, key) {
        Some(token) => match parse_unsigned(token, u32::MAX as u64) {
            Some(v) => Some(v as u32),
            None => None,
        },
        None => None,
    }
}

/// The text of a number field, which is held as floating point.
pub fn parse_json_f32_field(body: &[char], key: &str) -> (r: Option<String>)
    ensures
        opt_view(r) == bare_value(body@, key@),
{
    match find_bare_value(body, key) {
        Some(token) => Some(to_string(token)),
        None => None,
    }
}

/// The feature flags that a body sets: HTTP server and Prometheus.
pub open spec fn config_body(buf: Seq<u8>) -> Option<(bool, bool)> {
    match text_body(buf) {
        Some(body) => match (bool_field(body, "http_server"@), bool_field(body, "prometheus"@)) {
            (Some(http), Some(prometheus)) => Some((http, prometheus)),
            _ => None,
        },
        None => None,
    }
}

/// Reads the feature flags that a body sets.
pub fn parse_config_body(buf: &[u8]) -> (r: Option<(bool, bool)>)
    ensures
        r == config_body(buf@),
{
    match read_text_body(buf) {
        Some(body) => match (
            parse_json_bool_field(body.as_slice(), "http_server"),
            parse_json_bool_field(body.as_slice(), "prometheus"),
        ) {
            (Some(http), Some(prometheus)) => Some((http, prometheus)),
            _ => None,
        },
        None => None,
    }
}

/// The probe name that a body gives: the field `probe_name` or `name` of an
/// object, a quoted string, or the plain text.
pub open spec fn probe_name_body(buf: Seq<u8>) -> Option<Seq<char>> {
    match text_body(buf) {
        Some(body) => if body.len() == 0 {
            None
        } else if body[0] == '{' {
            if string_field(body, "probe_name"@) is Some {
                string_field(body, "probe_name"@)
            } else {
                string_field(body, "name"@)
            }
        } else if body[0] == '"' && body.last() == '"' && body.len() >= 2 {
            Some(body.subrange(1, body.len() - 1))
        } else {
            Some(body)
        },
        None => None,
    }
}

/// Reads the probe name that a body gives.
pub fn parse_probe_name(buf: &[u8]) -> (r: Option<String>)
    ensures
        opt_view(r) == probe_name_body(buf@),
{
    match read_text_body(buf) {
        Some(body) => {
            let n: usize = body.len();
            if n == 0 {
                return None;
            }
            if body[0] == '{' {
                return match parse_json_string_field(body.as_slice(), "probe_name") {
                    Some(name) => Some(name),
                    None => parse_json_string_field(body.as_slice(), "name"),
                };
            }
            if body[0] == '"' && body[n - 1] == '"' && n >= 2 {
                return Some(to_string(slice_subrange(body.as_slice(), 1, n - 1)));
            }
            Some(to_string(body.as_slice()))
        },
        None => None,
    }
}

// ── Request lines ────────────────────────────────────────────────────────────

/// Whether a request line starts with this method and path, and the path ends
/// there: before a space, a line end or, where it may, a query.
pub open spec fn routed(buf: Seq<u8>, path: Seq<char>, query: bool) -> bool {
    let p = encode_utf8(path);
    &&& starts_with(buf, p)
    &&& buf.len() > p.len()
    &&& buf[p.len() as int] == 32 || buf[p.len() as int] == 13 || (query && buf[p.len() as int]
        == 63)
}

/// Tests whether a request line starts with this method and path.
fn is_routed(buf: &[u8], path: &str, query: bool) -> (r: bool)
    ensures
        r == routed(buf@, path@, query),
{
    let p: &[u8] = path.as_bytes();
    if !bytes_start_with(buf, p) || buf.len() <= p.len() {
        return false;
    }
    let next: u8 = buf[p.len()];
    next == 32 || next == 13 || (query && next == 63)
}

/// The first number of points that the pairs of a query ask for.
pub open spec fn asked_points(pairs: Seq<Seq<char>>, from: int) -> Option<int>
    decreases pairs.len() - from,
{
    if from < 0 || from >= pairs.len() {
        None
    } else if starts_with(pairs[from], "points="@) && read_unsigned(
        pairs[from].skip("points="@.len() as int),
        usize::MAX as nat,
    ) is Some {
        Some(read_unsigned(pairs[from].skip("points="@.len() as int), usize::MAX as nat)->0 as int)
    } else {
        asked_points(pairs, from + 1)
    }
}

/// The query of a request line: from behind the first question mark up to a
/// space.
pub open spec fn query_of(line: Seq<char>) -> Option<Seq<char>> {
    let mark = first_in(line, seq!['?'], 0);
    if mark < line.len() {
        let rest = line.skip(mark + 1);
        Some(rest.take(first_in(rest, seq![' '], 0)))
    } else {
        None
    }
}

/// The number of history points that a request asks for: at least 1 and at
/// most 1000, and 400 where it does not say.
pub open spec fn history_points(buf: Seq<u8>) -> int {
    match find(buf, seq![13u8, 10]) {
        Some(end) => match utf8_text(buf.take(end)) {
            Some(line) => match query_of(line) {
                Some(query) => match asked_points(split(query, '&'), 0) {
                    Some(n) => if n < 1 {
                        1
                    } else if n > HISTORY_MAX_POINTS {
                        HISTORY_MAX_POINTS as int
                    } else {
                        n
                    },
                    None => HISTORY_DEFAULT_POINTS as int,
                },
                None => HISTORY_DEFAULT_POINTS as int,
            },
            None => HISTORY_DEFAULT_POINTS as int,
        },
        None => HISTORY_DEFAULT_POINTS as int,
    }
}

/// Finds the number of points that the pairs of a query ask for.
fn find_points(pairs: &Vec<Vec<char>>) -> (r: Option<usize>)
    ensures
        match r {
            Some(n) => asked_points(texts(pairs@), 0) == Some(n as int),
            None => asked_points(texts(pairs@), 0) is None,
        },
{
    let key: Vec<char> = to_chars("points=");
    let ghost all = texts(pairs@);
    let mut i: usize = 0;
    while i < pairs.len()
        invariant
            i <= pairs@.len(),
            key@ == "points="@,
            all == texts(pairs@),
            asked_points(all, 0) == asked_points(all, i as int),
        decreases pairs@.len() - i,
    {
        let pair: &[char] = pairs[i].as_slice();
        assert(all[i as int] == pair@);
        if chars_start_with(pair, key.as_slice()) {
            let value: &[char] = slice_subrange(pair, key.len(), pair.len());
            assert(value@ == pair@.skip(key@.len() as int));
            if let Some(v) = parse_unsigned(value, usize::MAX as u64) {
                return Some(v as usize);
            }
        }
        i = i + 1;
    }
    None
}

/// Reads the number of history points that a request asks for.
pub fn parse_history_points(buf: &[u8]) -> (r: usize)
    ensures
        r == history_points(buf@),
        1 <= r <= HISTORY_MAX_POINTS,
{
    let crlf: [u8; 2] = [13, 10];
    assert(crlf@ == seq![13u8, 10]);
    let line: Vec<char> = match find_bytes(buf, &crlf) {
        Some(end) => {
            let head: &[u8] = slice_subrange(buf, 0, end);
            assert(head@ == buf@.take(end as int));
            match utf8_chars(head) {
                Some(line) => line,
                None => {
                    return HISTORY_DEFAULT_POINTS;
                },
            }
        },
        None => {
            return HISTORY_DEFAULT_POINTS;
        },
    };
    let set: [char; 1] = ['?'];
    assert(set@ == seq!['?']);
    let mark: usize = find_any_char(line.as_slice(), &set);
    if mark >= line.len() {
        return HISTORY_DEFAULT_POINTS;
    }
    let rest: &[char] = slice_subrange(line.as_slice(), mark + 1, line.len());
    assert(rest@ == line@.skip(mark + 1));
    let blank: [char; 1] = [' '];
    assert(blank@ == seq![' ']);
    let query: &[char] = slice_subrange(rest, 0, find_any_char(rest, &blank));
    assert(Some(query@) == query_of(line@));
    match find_points(&split_chars(query, '&')) {
        Some(n) => if n < 1 {
            1
        } else if n > HISTORY_MAX_POINTS {
            HISTORY_MAX_POINTS
        } else {
            n
        },
        None => HISTORY_DEFAULT_POINTS,
    }
}

/// Trimmed text in UTF-8, where there is any.
pub open spec fn segment(b: Seq<u8>) -> Option<Seq<char>> {
    match utf8_text(b) {
        Some(text) => if trim(text).len() > 0 {
            Some(trim(text))
        } else {
            None
        },
        None => None,
    }
}

fn read_segment(b: &[u8]) -> (r: Option<String>)
    ensures
        opt_view(r) == segment(b@),
{
    match utf8_chars(b) {
        Some(text) => {
            let name: &[char] = trim_chars(text.as_slice());
            if name.len() == 0 {
                None
            } else {
                Some(to_string(name))
            }
        },
        None => None,
    }
}

/// The name after a prefix: up to a slash, a space, a query or a line end.
pub open spec fn url_name(buf: Seq<u8>, prefix: Seq<u8>) -> Option<Seq<char>> {
    if starts_with(buf, prefix) {
        let rest = buf.skip(prefix.len() as int);
        segment(rest.take(first_in(rest, seq![47u8, 32, 63, 13, 10], 0)))
    } else {
        None
    }
}

/// The name between a prefix and a suffix.
pub open spec fn url_name_before(buf: Seq<u8>, prefix: Seq<u8>, suffix: Seq<u8>) -> Option<
    Seq<char>,
> {
    if starts_with(buf, prefix) {
        let rest = buf.skip(prefix.len() as int);
        match find(rest, suffix) {
            Some(end) => segment(rest.take(end)),
            None => None,
        }
    } else {
        None
    }
}

/// Reads the name after a prefix.
pub fn parse_url_name(buf: &[u8], prefix: &[u8]) -> (r: Option<String>)
    ensures
        opt_view(r) == url_name(buf@, prefix@),
{
    if !bytes_start_with(buf, prefix) {
        return None;
    }
    let rest: &[u8] = slice_subrange(buf, prefix.len(), buf.len());
    assert(rest@ == buf@.skip(prefix@.len() as int));
    let set: [u8; 5] = [47, 32, 63, 13, 10];
    assert(set@ == seq![47u8, 32, 63, 13, 10]);
    let end: usize = find_any_byte(rest, &set);
    let name: &[u8] = slice_subrange(rest, 0, end);
    assert(name@ == rest@.take(end as int));
    read_segment(name)
}

/// Reads the name between a prefix and a suffix.
pub fn parse_url_segment_before(buf: &[u8], prefix: &[u8], suffix: &[u8]) -> (r: Option<String>)
    ensures
        opt_view(r) == url_name_before(buf@, prefix@, suffix@),
{
    if !bytes_start_with(buf, prefix) {
        return None;
    }
    let rest: &[u8] = slice_subrange(buf, prefix.len(), buf.len());
    assert(rest@ == buf@.skip(prefix@.len() as int));
    match find_bytes(rest, suffix) {
        Some(end) => {
            let name: &[u8] = slice_subrange(rest, 0, end);
            assert(name@ == rest@.take(end as int));
            read_segment(name)
        },
        None => None,
    }
}

// ── Temperature ──────────────────────────────────────────────────────────────

/// The text of the target temperature in a body: what follows the key
/// `temperature_c`, a colon and blanks, up to the end of the value.
pub open spec fn temperature_text(buf: Seq<u8>) -> Option<Seq<char>> {
    let key = encode_utf8("temperature_c"@);
    match body_of(buf) {
        Some(body) => match find(body, key) {
            Some(i) => {
                let after = body.skip(i + key.len());
                let colon = first_in(after, seq![58u8], 0);
                if colon < after.len() {
                    let rest = after.skip(colon + 1);
                    let start = first_not_in(rest, seq![32u8, 9], 0);
                    if start < rest.len() {
                        let value = rest.skip(start);
                        utf8_text(value.take(first_in(value, seq![44u8, 125, 32, 9, 13, 10], 0)))
                    } else {
                        None
                    }
                } else {
                    None
                }
            },
            None => None,
        },
        None => None,
    }
}

/// Reads the value that starts a piece of a body, after blanks.
fn read_value(rest: &[u8]) -> (r: Option<String>)
    ensures
        ({
            let start = first_not_in(rest@, seq![32u8, 9], 0);
            let value = rest@.skip(start);
            opt_view(r) == (if start < rest@.len() {
                utf8_text(value.take(first_in(value, seq![44u8, 125, 32, 9, 13, 10], 0)))
            } else {
                None
            })
        }),
{
    let blanks: [u8; 2] = [32, 9];
    assert(blanks@ == seq![32u8, 9]);
    let start: usize = find_other_byte(rest, &blanks);
    if start >= rest.len() {
        return None;
    }
    let value: &[u8] = slice_subrange(rest, start, rest.len());
    assert(value@ == rest@.skip(start as int));
    let ends: [u8; 6] = [44, 125, 32, 9, 13, 10];
    assert(ends@ == seq![44u8, 125, 32, 9, 13, 10]);
    let end: usize = find_any_byte(value, &ends);
    let token: &[u8] = slice_subrange(value, 0, end);
    assert(token@ == value@.take(end as int));
    match utf8_chars(token) {
        Some(text) => Some(to_string(text.as_slice())),
        None => None,
    }
}

/// Reads the text of the target temperature in a body.
pub fn parse_temperature(buf: &[u8]) -> (r: Option<String>)
    ensures
        opt_view(r) == temperature_text(buf@),
{
    let body: &[u8] = match find_body(buf) {
        Some(body) => body,
        None => {
            return None;
        },
    };
    let n: usize = body.len();
    let key: &[u8] = "temperature_c".as_bytes();
    match find_bytes(body, key) {
        Some(i) => {
            let after: &[u8] = slice_subrange(body, i + key.len(), n);
            assert(after@ == body@.skip(i + key@.len()));
            let set: [u8; 1] = [58];
            assert(set@ == seq![58u8]);
            let colon: usize = find_any_byte(after, &set);
            if colon >= after.len() {
                return None;
            }
            let rest: &[u8] = slice_subrange(after, colon + 1, after.len());
            assert(rest@ == after@.skip(colon + 1));
            read_value(rest)
        },
        None => None,
    }
}

// ── Profile steps ────────────────────────────────────────────────────────────

/// The step that an object describes: a target and a hold of at least one second.
pub open spec fn step_in(object: Seq<char>) -> Option<(Seq<char>, u32)> {
    match (bare_value(object, "target_c"@), u32_field(object, "hold_secs"@)) {
        (Some(target), Some(hold)) => if hold > 0 {
            Some((target, hold as u32))
        } else {
            None
        },
        _ => None,
    }
}

/// The steps of a list whose bracket was opened, after those in `done`:
/// objects up to the closing bracket, with or without commas between them,
/// and no more than `max` in all.
pub open spec fn steps_after(
    s: Seq<char>,
    done: Seq<(Seq<char>, u32)>,
    max: nat,
) -> Option<Seq<(Seq<char>, u32)>>
    decreases s.len(),
{
    proof {
        trim_start_len(s);
    }
    let c = trim_start(s);
    if c.len() == 0 {
        None
    } else if c[0] == ']' {
        Some(done)
    } else if c[0] == ',' {
        steps_after(c.skip(1), done, max)
    } else if c[0] != '{' {
        None
    } else {
        let end = first_in(c, seq!['}'], 1);
        if end < 1 || end >= c.len() {
            None
        } else {
            match step_in(c.subrange(1, end)) {
                Some(step) => if done.len() < max {
                    steps_after(c.skip(end + 1), done.push(step), max)
                } else {
                    None
                },
                None => None,
            }
        }
    }
}

/// The steps that a body lists under `steps`: at least one.
pub open spec fn profile_steps(body: Seq<char>, max: nat) -> Option<Seq<(Seq<char>, u32)>> {
    match field_value(body, "steps"@) {
        Some(value) => if value.len() > 0 && value[0] == '[' {
            match steps_after(value.skip(1), Seq::empty(), max) {
                Some(steps) => if steps.len() > 0 {
                    Some(steps)
                } else {
                    None
                },
                None => None,
            }
        } else {
            None
        },
        None => None,
    }
}

/// Reads the step that an object describes.
fn parse_step(object: &[char]) -> (r: Option<StepText>)
    ensures
        match r {
            Some(step) => step_in(object@) == Some((step.target@, step.hold_secs)),
            None => step_in(object@) is None,
        },
{
    match (
        parse_json_f32_field(object, "target_c"),
        parse_json_u32_field(object, "hold_secs"),
    ) {
        (Some(target), Some(hold_secs)) => if hold_secs > 0 {
            Some(StepText { target, hold_secs })
        } else {
            None
        },
        _ => None,
    }
}

/// Reads the steps that a body lists.
pub fn parse_profile_steps(body: &[char], max_steps: usize) -> (r: Option<Vec<StepText>>)
    ensures
        match r {
            Some(steps) => profile_steps(body@, max_steps as nat) == Some(step_texts(steps@)),
            None => profile_steps(body@, max_steps as nat) is None,
        },
{
    let value: &[char] = match find_field(body, "steps") {
        Some(value) => value,
        None => {
            return None;
        },
    };
    if value.len() == 0 || value[0] != '[' {
        return None;
    }
    let mut cursor: &[char] = slice_subrange(value, 1, value.len());
    assert(cursor@ == value@.skip(1));
    let mut steps: Vec<StepText> = Vec::new();
    assert(step_texts(steps@) == Seq::<(Seq<char>, u32)>::empty());
    let ghost all = steps_after(value@.skip(1), Seq::empty(), max_steps as nat);
    loop
        invariant
            value@.len() > 0,
            value@[0] == '[',
            field_value(body@, "steps"@) == Some(value@),
            all == steps_after(value@.skip(1), Seq::empty(), max_steps as nat),
            all == steps_after(cursor@, step_texts(steps@), max_steps as nat),
            steps@.len() <= max_steps,
        decreases cursor@.len(),
    {
        proof {
            trim_start_len(cursor@);
        }
        let c: &[char] = trim_start_chars(cursor);
        if c.len() == 0 {
            return None;
        }
        if c[0] == ']' {
            return if steps.len() > 0 {
                Some(steps)
            } else {
                None
            };
        }
        if c[0] == ',' {
            cursor = slice_subrange(c, 1, c.len());
            assert(cursor@ == c@.skip(1));
            continue;
        }
        if c[0] != '{' {
            return None;
        }
        let set: [char; 1] = ['}'];
        assert(set@ == seq!['}']);
        let end: usize = find_any_char(c, &set);
        if end >= c.len() {
            return None;
        }
        match parse_step(slice_subrange(c, 1, end)) {
            Some(step) => {
                if steps.len() >= max_steps {
                    return None;
                }
                assert(step_texts(steps@.push(step)) == step_texts(steps@).push(
                    (step.target@, step.hold_secs),
                ));
                steps.push(step);
                cursor = slice_subrange(c, end + 1, c.len());
                assert(cursor@ == c@.skip(end + 1));
            },
            None => {
                return None;
            },
        }
    }
}

// ── Routing ──────────────────────────────────────────────────────────────────

/// A request that carries a text, or a bad request where it has none.
pub open spec fn with_text(text: Option<Seq<char>>, request: spec_fn(Seq<char>) -> Request) -> Request {
    match text {
        Some(t) => request(t),
        None => Request::BadRequest,
    }
}

/// What a request under `/profiles` asks for. A step count over `max_steps`
/// makes a bad request.
pub open spec fn profile_request(buf: Seq<u8>, max_steps: nat) -> Request {
    let get = encode_utf8("GET /profiles/"@);
    let post = encode_utf8("POST /profiles/"@);
    let delete = encode_utf8("DELETE /profiles/"@);
    let start = encode_utf8("/start "@);
    if routed(buf, "GET /profiles"@, true) {
        Request::GetProfiles
    } else if routed(buf, "GET /profiles/active"@, false) {
        Request::GetActiveProfile
    } else if routed(buf, "POST /profiles/stop"@, false) {
        Request::StopProfile
    } else if url_name_before(buf, post, start) is Some {
        Request::StartProfile(url_name_before(buf, post, start)->0)
    } else if starts_with(buf, get) {
        with_text(url_name(buf, get), |name: Seq<char>| Request::GetProfile(name))
    } else if starts_with(buf, post) {
        match (text_body(buf), url_name(buf, post)) {
            (Some(body), Some(name)) => match profile_steps(body, max_steps) {
                Some(steps) => Request::PostProfile { name, steps },
                None => Request::BadRequest,
            },
            _ => Request::BadRequest,
        }
    } else if starts_with(buf, delete) {
        with_text(url_name(buf, delete), |name: Seq<char>| Request::DeleteProfile(name))
    } else {
        Request::NotFound
    }
}

/// What a request that posts asks for, where it is none under `/profiles`.
pub open spec fn post_request(buf: Seq<u8>) -> Option<Request> {
    if routed(buf, "POST /temperature"@, false) {
        Some(
            with_text(temperature_text(buf), |text: Seq<char>| Request::PostTemperature(text)),
        )
    } else if routed(buf, "POST /probe-name"@, false) {
        Some(with_text(probe_name_body(buf), |name: Seq<char>| Request::PostProbeName(name)))
    } else if routed(buf, "POST /collection/start"@, false) {
        Some(Request::PostCollection(true))
    } else if routed(buf, "POST /collection/stop"@, false) {
        Some(Request::PostCollection(false))
    } else if routed(buf, "POST /history/clear"@, false) {
        Some(Request::PostHistoryClear)
    } else if routed(buf, "POST /config"@, false) {
        match config_body(buf) {
            Some(flags) => Some(Request::PostConfig { http: flags.0, prometheus: flags.1 }),
            None => Some(Request::BadRequest),
        }
    } else {
        None
    }
}

/// What a request asks for.
pub open spec fn request_of(buf: Seq<u8>, max_steps: nat) -> Request {
    if routed(buf, "GET /"@, true) || routed(buf, "GET /status"@, true) {
        Request::GetStatus
    } else if routed(buf, "GET /history"@, true) {
        Request::GetHistory(history_points(buf))
    } else if routed(buf, "GET /sensors/scan"@, true) {
        Request::GetSensorScan
    } else if routed(buf, "GET /metrics"@, true) {
        Request::GetMetrics
    } else if routed(buf, "GET /config"@, false) {
        Request::GetConfig
    } else if post_request(buf) is Some {
        post_request(buf)->0
    } else {
        profile_request(buf, max_steps)
    }
}

/// Reads a request under `/profiles`.
fn parse_profile_request(buf: &[u8], max_steps: usize) -> (r: ParsedRequest)
    ensures
        r@ == profile_request(buf@, max_steps as nat),
{
    if is_routed(buf, "GET /profiles", true) {
        return ParsedRequest::GetProfiles;
    }
    if is_routed(buf, "GET /profiles/active", false) {
        return ParsedRequest::GetActiveProfile;
    }
    if is_routed(buf, "POST /profiles/stop", false) {
        return ParsedRequest::StopProfile;
    }
    let get: &[u8] = "GET /profiles/".as_bytes();
    let post: &[u8] = "POST /profiles/".as_bytes();
    let delete: &[u8] = "DELETE /profiles/".as_bytes();
    if let Some(name) = parse_url_segment_before(buf, post, "/start ".as_bytes()) {
        return ParsedRequest::StartProfile(name);
    }
    if bytes_start_with(buf, get) {
        return match parse_url_name(buf, get) {
            Some(name) => ParsedRequest::GetProfile(name),
            None => ParsedRequest::BadRequest,
        };
    }
    if bytes_start_with(buf, post) {
        return match (read_text_body(buf), parse_url_name(buf, post)) {
            (Some(body), Some(name)) => match parse_profile_steps(body.as_slice(), max_steps) {
                Some(steps) => ParsedRequest::PostProfile { name, steps },
                None => ParsedRequest::BadRequest,
            },
            _ => ParsedRequest::BadRequest,
        };
    }
    if bytes_start_with(buf, delete) {
        return match parse_url_name(buf, delete) {
            Some(name) => ParsedRequest::DeleteProfile(name),
            None => ParsedRequest::BadRequest,
        };
    }
    ParsedRequest::NotFound
}

/// Reads a request that posts, where it is none under `/profiles`.
fn parse_post_request(buf: &[u8]) -> (r: Option<ParsedRequest>)
    ensures
        match r {
            Some(request) => post_request(buf@) == Some(request@),
            None => post_request(buf@) is None,
        },
{
    if is_routed(buf, "POST /temperature", false) {
        return match parse_temperature(buf) {
            Some(text) => Some(ParsedRequest::PostTemperature(text)),
            None => Some(ParsedRequest::BadRequest),
        };
    }
    if is_routed(buf, "POST /probe-name", false) {
        return match parse_probe_name(buf) {
            Some(name) => Some(ParsedRequest::PostProbeName(name)),
            None => Some(ParsedRequest::BadRequest),
        };
    }
    if is_routed(buf, "POST /collection/start", false) {
        return Some(ParsedRequest::PostCollection(true));
    }
    if is_routed(buf, "POST /collection/stop", false) {
        return Some(ParsedRequest::PostCollection(false));
    }
    if is_routed(buf, "POST /history/clear", false) {
        return Some(ParsedRequest::PostHistoryClear);
    }
    if is_routed(buf, "POST /config", false) {
        return match parse_config_body(buf) {
            Some((http, prometheus)) => Some(ParsedRequest::PostConfig { http, prometheus }),
            None => Some(ParsedRequest::BadRequest),
        };
    }
    None
}

/// Reads a request from the bytes that came with it.
pub fn parse_request(buf: &[u8], max_steps: usize) -> (r: ParsedRequest)
    ensures
        r@ == request_of(buf@, max_steps as nat),
{
    if is_routed(buf, "GET /", true) || is_routed(buf, "GET /status", true) {
        return ParsedRequest::GetStatus;
    }
    if is_routed(buf, "GET /history", true) {
        return ParsedRequest::GetHistory(parse_history_points(buf));
    }
    if is_routed(buf, "GET /sensors/scan", true) {
        return ParsedRequest::GetSensorScan;
    }
    if is_routed(buf, "GET /metrics", true) {
        return ParsedRequest::GetMetrics;
    }
    if is_routed(buf, "GET /config", false) {
        return ParsedRequest::GetConfig;
    }
    match parse_post_request(buf) {
        Some(request) => request,
        None => parse_profile_request(buf, max_steps),
    }
}

/// The request line that asks for `n` points of the history.
pub open spec fn history_line(n: nat) -> Seq<char> {
    "GET /history?points="@ + decimal(n) + " HTTP/1.1"@
}

/// The query of a request for `n` points.
proof fn history_query(n: nat)
    ensures
        query_of(history_line(n)) == Some("points="@ + decimal(n)),
        is_ascii_chars(history_line(n)),
        forall|i: int| 0 <= i < history_line(n).len() ==> #[trigger] history_line(n)[i] != '\r',
{
    let line = history_line(n);
    let d = decimal(n);
    let query = "points="@ + d;
    reveal_strlit("GET /history?points=");
    reveal_strlit("points=");
    reveal_strlit(" HTTP/1.1");
    decimal_read_back(n, n);
    assert forall|i: int| 0 <= i < d.len() implies d[i] != ' ' && d[i] != '?' && d[i] != '\r'
        && (#[trigger] d[i] as u32) < 128 by {
        assert(is_digit(d[i]));
    }
    assert forall|i: int| 0 <= i < line.len() implies #[trigger] line[i] != '\r' && (line[i] as u32)
        < 128 by {
        if 20 <= i < 20 + d.len() {
            assert(line[i] == d[i - 20]);
        }
    }
    let mark = seq!['?'];
    assert(mark[0] == '?');
    assert(line[12] == '?');
    first_in_at(line, mark, 0, 12);
    let rest = line.skip(13);
    let blank = seq![' '];
    assert(blank[0] == ' ');
    assert forall|i: int| 0 <= i < 7 + d.len() implies !blank.contains(#[trigger] rest[i]) by {
        if i >= 7 {
            assert(rest[i] == d[i - 7]);
        } else {
            assert(rest[i] == "points="@[i]);
        }
    }
    assert(rest[7 + d.len() as int] == ' ');
    first_in_at(rest, blank, 0, 7 + d.len() as int);
    assert(rest.take(7 + d.len() as int) == query);
}

/// A query that only asks for points asks for that many.
proof fn asked_points_alone(n: nat)
    requires
        n <= usize::MAX,
    ensures
        asked_points(split("points="@ + decimal(n), '&'), 0) == Some(n as int),
{
    let key = "points="@;
    let query = key + decimal(n);
    reveal_strlit("points=");
    decimal_read_back(n, usize::MAX as nat);
    assert forall|i: int| 0 <= i < query.len() implies #[trigger] query[i] != '&' by {
        if i >= key.len() {
            assert(query[i] == decimal(n)[i - key.len()]);
            assert(is_digit(decimal(n)[i - key.len()]));
        }
    }
    let none = Seq::<char>::empty();
    split_of_part(none, query, '&');
    assert(none + query == query);
    assert(split(none, '&') == seq![none]);
    assert(split(query, '&') == seq![query]);
    assert(query.take(key.len() as int) == key);
    assert(query.skip(key.len() as int) == decimal(n));
}

/// A request line for points goes to the history.
proof fn history_line_routed(n: nat, after: Seq<u8>)
    ensures
        ({
            let buf = encode_utf8(history_line(n)) + after;
            &&& routed(buf, "GET /history"@, true)
            &&& !routed(buf, "GET /"@, true)
            &&& !routed(buf, "GET /status"@, true)
        }),
{
    let line = history_line(n);
    let buf = encode_utf8(line) + after;
    history_query(n);
    is_ascii_chars_encode_utf8(line);
    reveal_strlit("GET /history?points=");
    reveal_strlit("GET /history");
    reveal_strlit("GET /");
    reveal_strlit("GET /status");
    let path = "GET /history"@;
    is_ascii_chars_encode_utf8(path);
    is_ascii_chars_encode_utf8("GET /"@);
    is_ascii_chars_encode_utf8("GET /status"@);
    let p = encode_utf8(path);
    assert forall|i: int| 0 <= i < 12 implies #[trigger] buf.take(12)[i] == p[i] by {
        assert(line[i] == path[i]);
        assert(buf[i] == line[i] as u8 && p[i] == path[i] as u8);
    }
    assert(buf.take(12) == p);
    assert(line[12] == '?' && buf[12] == 63);
    assert(line[5] == 'h' && buf[5] == 104);
    let other = encode_utf8("GET /status"@);
    assert(other[5] == 's' as u8);
    assert(buf.take(11)[5] == buf[5]);
}

/// A request for `n` points is read as one for that many, but for at least 1
/// and at most 1000, whatever follows its first line.
pub proof fn asked_history_is_read(n: nat, after: Seq<u8>, max_steps: nat)
    requires
        n <= usize::MAX,
    ensures
        request_of(encode_utf8(history_line(n)) + seq![13u8, 10] + after, max_steps)
            == Request::GetHistory(
            if n < 1 {
                1
            } else if n > 1000 {
                1000
            } else {
                n as int
            },
        ),
{
    let line = history_line(n);
    let head = encode_utf8(line);
    let end = seq![13u8, 10];
    let buf = head + end + after;
    history_query(n);
    is_ascii_chars_encode_utf8(line);
    encode_utf8_valid_utf8(line);
    encode_utf8_decode_utf8(line);
    let at = head.len() as int;
    assert(buf.take(at) == head);
    assert(buf.subrange(at, at + 2) == end);
    assert forall|i: int| 0 <= i < at implies #[trigger] buf[i] != end[0] by {
        assert(buf[i] == line[i] as u8);
    }
    find_from_at(buf, end, 0, at);
    asked_points_alone(n);
    assert(history_points(buf) == (if n < 1 {
        1
    } else if n > HISTORY_MAX_POINTS {
        HISTORY_MAX_POINTS as int
    } else {
        n as int
    }));
    history_line_routed(n, end + after);
    assert(head + (end + after) == buf);
}

} // verus!
