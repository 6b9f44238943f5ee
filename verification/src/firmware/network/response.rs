//! Replies of the device's HTTP interface.
//!
//! A reply is composed from what a request asks for and from the outcome of
//! the work that it takes. Work on flash lies with the caller: where it is
//! needed, one function decides what to write and another composes the reply.

use vstd::prelude::*;
use vstd::utf8::encode_utf8;
use crate::bytes::bytes_equal;
use crate::text::{
    append_decimal, bool_str, bool_text, chars_same_letters, chars_start_with, decimal,
    same_letters, starts_with, to_chars, to_string, trim, trim_chars,
};
use crate::firmware::bounded::{string16_str, string32, string32_str};
use crate::firmware::config::SensorConfig;
use crate::firmware::error::StorageError;
use crate::firmware::metrics::{
    celsius, celsius_text, fahrenheit, fahrenheit_text, TargetText,
};
use crate::firmware::profile::{
    start_profile, stop_profile, stopped, ActiveProfileState, ProfileError, ProfileState,
    ProfileStep, TempProfile, STEP_TARGET_MAX_CENTI, STEP_TARGET_MIN_CENTI,
};
use crate::firmware::sensor::{
    compact, digit_pair, digits_of, format_ds18b20_serial, parse_ds18b20_serial, serial_text,
};
use crate::firmware::status::{set_collection_enabled, RuntimeState};
use crate::firmware::storage::{
    history_cleared, probe_name_error, probe_name_of, set_target_temp_c_persistent,
    set_temp_probe_name, target_record, target_store_error, temp_probe_name, valid_target,
    HistoryRing, ProbeNameError, StorageState, TargetWrite,
};
use super::http::StepText;
use super::udp::{set_history_clear_pending, TelemetryState};

verus! {

/// The body of a reply.
pub enum ResponseBody {
    Static(&'static str),
    Owned(String),
}

impl ResponseBody {
    /// The text of the body.
    pub open spec fn text(self) -> Seq<char> {
        match self {
            ResponseBody::Static(s) => s@,
            ResponseBody::Owned(s) => s@,
        }
    }

    /// The text of the body.
    pub fn as_str(&self) -> (r: &str)
        ensures
            r@ == self.text(),
    {
        match self {
            ResponseBody::Static(body) => body,
            ResponseBody::Owned(body) => body.as_str(),
        }
    }
}

/// A reply.
pub struct Response {
    pub status_line: &'static str,
    pub content_type: &'static str,
    pub cache_control: &'static str,
    pub body: ResponseBody,
}

/// Whether a reply carries this status, this type and this body. No reply may
/// be cached.
pub open spec fn is_reply(
    r: Response,
    status: Seq<char>,
    content_type: Seq<char>,
    body: Seq<char>,
) -> bool {
    &&& r.status_line@ == status
    &&& r.content_type@ == content_type
    &&& r.cache_control@ == "no-store"@
    &&& r.body.text() == body
}

/// Whether a reply is a JSON document with this status.
pub open spec fn is_json(r: Response, status: Seq<char>, body: Seq<char>) -> bool {
    is_reply(r, status, "application/json"@, body)
}

fn json_text(status_line: &'static str, body: &'static str) -> (r: Response)
    ensures
        is_json(r, status_line@, body@),
{
    Response {
        status_line,
        content_type: "application/json",
        cache_control: "no-store",
        body: ResponseBody::Static(body),
    }
}

/// A JSON document with the status `200 OK`.
pub fn json_response(document: String) -> (r: Response)
    ensures
        is_json(r, "200 OK"@, document@),
{
    Response {
        status_line: "200 OK",
        content_type: "application/json",
        cache_control: "no-store",
        body: ResponseBody::Owned(document),
    }
}

/// The reply to a request that is not understood.
pub fn bad_request() -> (r: Response)
    ensures
        is_json(r, "400 Bad Request"@, "{\n  \"error\": \"bad_request\"\n}\n"@),
{
    json_text("400 Bad Request", "{\n  \"error\": \"bad_request\"\n}\n")
}

/// The reply to a request for something unknown.
pub fn not_found() -> (r: Response)
    ensures
        is_json(r, "404 Not Found"@, "{\n  \"error\": \"not_found\"\n}\n"@),
{
    json_text("404 Not Found", "{\n  \"error\": \"not_found\"\n}\n")
}

/// The reply to a change that was made.
fn done() -> (r: Response)
    ensures
        is_json(r, "200 OK"@, "{\n  \"ok\": true\n}\n"@),
{
    json_text("200 OK", "{\n  \"ok\": true\n}\n")
}

/// The reply to a change that could not be stored.
fn persist_failed() -> (r: Response)
    ensures
        is_json(r, "500 Internal Server Error"@, "{\n  \"error\": \"persist_failed\"\n}\n"@),
{
    json_text("500 Internal Server Error", "{\n  \"error\": \"persist_failed\"\n}\n")
}

/// Whether a reply reports an error.
pub fn is_error(r: &Response) -> (e: bool)
    ensures
        e == !starts_with(r.status_line@, "200"@),
{
    let line: Vec<char> = to_chars(r.status_line);
    let ok: Vec<char> = to_chars("200");
    !chars_start_with(line.as_slice(), ok.as_slice())
}

/// The header of a reply, with the length of its body in bytes.
pub open spec fn header_text(r: Response) -> Seq<char> {
    "HTTP/1.1 "@ + r.status_line@ + "\r\nContent-Type: "@ + r.content_type@
        + "\r\nCache-Control: "@ + r.cache_control@ + "\r\nContent-Length: "@ + decimal(
        encode_utf8(r.body.text()).len(),
    ) + "\r\nConnection: close\r\n\r\n"@
}

/// The header of a reply.
pub fn response_header(r: &Response) -> (header: String)
    ensures
        header@ == header_text(*r),
{
    let mut out: String = "HTTP/1.1 ".to_owned();
    out.append(r.status_line);
    out.append("\r\nContent-Type: ");
    out.append(r.content_type);
    out.append("\r\nCache-Control: ");
    out.append(r.cache_control);
    out.append("\r\nContent-Length: ");
    append_decimal(&mut out, r.body.as_str().as_bytes().len() as u64);
    out.append("\r\nConnection: close\r\n\r\n");
    out
}

// ── Metrics and configuration ────────────────────────────────────────────────

/// The reply to a request for metrics, which may be switched off.
pub fn metrics_response(enabled: bool, document: String) -> (r: Response)
    ensures
        enabled ==> is_reply(
            r,
            "200 OK"@,
            "text/plain; version=0.0.4; charset=utf-8"@,
            document@,
        ),
        !enabled ==> is_json(r, "404 Not Found"@, "{\n  \"error\": \"not_found\"\n}\n"@),
{
    if !enabled {
        return not_found();
    }
    Response {
        status_line: "200 OK",
        content_type: "text/plain; version=0.0.4; charset=utf-8",
        cache_control: "no-store",
        body: ResponseBody::Owned(document),
    }
}

/// The feature flags as JSON.
pub open spec fn config_document(http: bool, prometheus: bool) -> Seq<char> {
    "{\n  \"http_server\": "@ + bool_text(http) + ",\n  \"prometheus\": "@ + bool_text(prometheus)
        + "\n}\n"@
}

/// The feature flags as JSON.
pub fn config_json(http: bool, prometheus: bool) -> (r: String)
    ensures
        r@ == config_document(http, prometheus),
{
    let mut out: String = "{\n  \"http_server\": ".to_owned();
    out.append(bool_str(http));
    out.append(",\n  \"prometheus\": ");
    out.append(bool_str(prometheus));
    out.append("\n}\n");
    out
}

/// The reply to new feature flags, once they were stored or not.
pub fn config_stored(http: bool, prometheus: bool, stored: Result<(), StorageError>) -> (r: Response)
    ensures
        stored is Ok ==> is_json(r, "200 OK"@, config_document(http, prometheus)),
        stored is Err ==> is_json(
            r,
            "500 Internal Server Error"@,
            "{\n  \"error\": \"persist_failed\"\n}\n"@,
        ),
{
    match stored {
        Ok(()) => json_response(config_json(http, prometheus)),
        Err(_) => persist_failed(),
    }
}

// ── Target temperature ───────────────────────────────────────────────────────

/// What the text of a posted temperature reads as.
#[derive(Clone, Copy, Debug, PartialEq, Eq, Structural)]
pub enum TargetReading {
    NotANumber,
    /// Outside of the accepted range.
    OutOfRange,
    /// In hundredths of a degree.
    Value(i32),
}

/// Takes a posted temperature as the new target. Returns what to write to
/// flash, or the reply where it was refused or there is nowhere to write it.
pub fn post_temperature(storage: &mut StorageState, reading: TargetReading, flash_ready: bool) -> (r:
    Result<TargetWrite, Response>)
    ensures
        match reading {
            TargetReading::NotANumber => *final(storage) == *old(storage) && r is Err && is_json(
                r->Err_0,
                "400 Bad Request"@,
                "{\n  \"error\": \"bad_request\"\n}\n"@,
            ),
            TargetReading::OutOfRange => *final(storage) == *old(storage) && r is Err && is_json(
                r->Err_0,
                "400 Bad Request"@,
                "{\n  \"error\": \"out_of_range\"\n}\n"@,
            ),
            TargetReading::Value(centi) => if !valid_target(centi as int) {
                *final(storage) == *old(storage) && r is Err && is_json(
                    r->Err_0,
                    "400 Bad Request"@,
                    "{\n  \"error\": \"out_of_range\"\n}\n"@,
                )
            } else {
                &&& *final(storage) == (StorageState { target_centi: centi, ..*old(storage) })
                &&& match target_store_error(old(storage).store_len, flash_ready) {
                    None => r is Ok && r->Ok_0.offset == old(storage).store_offset && r->Ok_0.raw@
                        == target_record(centi),
                    Some(e) => r is Err && is_json(
                        r->Err_0,
                        "500 Internal Server Error"@,
                        "{\n  \"error\": \"persist_failed\"\n}\n"@,
                    ),
                }
            },
        },
{
    match reading {
        TargetReading::NotANumber => Err(bad_request()),
        TargetReading::OutOfRange => Err(
            json_text("400 Bad Request", "{\n  \"error\": \"out_of_range\"\n}\n"),
        ),
        TargetReading::Value(centi) => match set_target_temp_c_persistent(
            storage,
            centi,
            flash_ready,
        ) {
            Ok(write) => Ok(write),
            Err(StorageError::OutOfRange) => Err(
                json_text("400 Bad Request", "{\n  \"error\": \"out_of_range\"\n}\n"),
            ),
            Err(_) => Err(persist_failed()),
        },
    }
}

/// The target temperature that was set as JSON.
pub open spec fn temperature_document(target: TargetText) -> Seq<char> {
    "{\n  \"ok\": true,\n  \"temperature_c\": "@ + target.celsius@ + ",\n  \"temperature_f\": "@
        + target.fahrenheit@ + "\n}\n"@
}

/// The target temperature that was set as JSON.
pub fn temperature_ok_json(target: &TargetText) -> (r: String)
    ensures
        r@ == temperature_document(*target),
{
    let mut out: String = "{\n  \"ok\": true,\n  \"temperature_c\": ".to_owned();
    out.append(target.celsius.as_str());
    out.append(",\n  \"temperature_f\": ");
    out.append(target.fahrenheit.as_str());
    out.append("\n}\n");
    out
}

/// The reply to a new target temperature, once it was written to flash or not.
pub fn temperature_written(target: &TargetText, written: Result<(), StorageError>) -> (r: Response)
    ensures
        written is Ok ==> is_json(r, "200 OK"@, temperature_document(*target)),
        written is Err ==> is_json(
            r,
            "500 Internal Server Error"@,
            "{\n  \"error\": \"persist_failed\"\n}\n"@,
        ),
{
    match written {
        Ok(()) => json_response(temperature_ok_json(target)),
        Err(_) => persist_failed(),
    }
}

// ── Probe name ───────────────────────────────────────────────────────────────

/// The probe name that was set as JSON.
pub open spec fn probe_name_document(name: Seq<char>) -> Seq<char> {
    "{\n  \"ok\": true,\n  \"probe_name\": \""@ + name + "\"\n}\n"@
}

/// The probe name that was set as JSON.
pub fn probe_name_ok_json(name: &str) -> (r: String)
    ensures
        r@ == probe_name_document(name@),
{
    let mut out: String = "{\n  \"ok\": true,\n  \"probe_name\": \"".to_owned();
    out.append(name);
    out.append("\"\n}\n");
    out
}

/// The reply to a probe name that was refused.
pub open spec fn probe_name_refusal(error: ProbeNameError) -> Seq<char> {
    match error {
        ProbeNameError::Empty => "{\n  \"error\": \"empty_probe_name\"\n}\n"@,
        ProbeNameError::TooLong => "{\n  \"error\": \"probe_name_too_long\"\n}\n"@,
        ProbeNameError::InvalidChar =>
            "{\n  \"error\": \"invalid_probe_name\", \"allowed\": \"[A-Za-z0-9 ._-]\"\n}\n"@,
    }
}

/// Sets the probe name and replies.
pub fn post_probe_name(storage: &mut StorageState, name: &str) -> (r: Response)
    ensures
        match probe_name_error(name@) {
            None => {
                &&& string32(final(storage).probe_name) == trim(name@)
                &&& *final(storage) == (StorageState {
                    probe_name: final(storage).probe_name,
                    ..*old(storage)
                })
                &&& is_json(r, "200 OK"@, probe_name_document(probe_name_of(trim(name@))))
            },
            Some(e) => *final(storage) == *old(storage) && is_json(
                r,
                "400 Bad Request"@,
                probe_name_refusal(e),
            ),
        },
{
    match set_temp_probe_name(storage, name) {
        Ok(()) => {
            let stored = temp_probe_name(storage);
            json_response(probe_name_ok_json(string32_str(&stored)))
        },
        Err(ProbeNameError::Empty) => json_text(
            "400 Bad Request",
            "{\n  \"error\": \"empty_probe_name\"\n}\n",
        ),
        Err(ProbeNameError::TooLong) => json_text(
            "400 Bad Request",
            "{\n  \"error\": \"probe_name_too_long\"\n}\n",
        ),
        Err(ProbeNameError::InvalidChar) => json_text(
            "400 Bad Request",
            "{\n  \"error\": \"invalid_probe_name\", \"allowed\": \"[A-Za-z0-9 ._-]\"\n}\n",
        ),
    }
}

// ── Collection and history ───────────────────────────────────────────────────

/// Whether something is collected as JSON.
pub open spec fn collection_document(enabled: bool) -> Seq<char> {
    "{\n  \"ok\": true,\n  \"collecting\": "@ + bool_text(enabled) + "\n}\n"@
}

/// Whether something is collected as JSON.
pub fn collection_ok_json(enabled: bool) -> (r: String)
    ensures
        r@ == collection_document(enabled),
{
    let mut out: String = "{\n  \"ok\": true,\n  \"collecting\": ".to_owned();
    out.append(bool_str(enabled));
    out.append("\n}\n");
    out
}

/// Starts or stops collection and replies.
pub fn post_collection(state: &mut RuntimeState, enabled: bool) -> (r: Response)
    ensures
        *final(state) == (RuntimeState { collection_enabled: enabled, ..*old(state) }),
        is_json(r, "200 OK"@, collection_document(enabled)),
{
    set_collection_enabled(state, enabled);
    json_response(collection_ok_json(enabled))
}

/// The reply to a request to clear the history, once its sectors were erased
/// or not. The server is told with the next packet.
pub fn history_clear_done(
    storage: &mut StorageState,
    telemetry: &mut TelemetryState,
    erased: Result<(), StorageError>,
) -> (r: Response)
    requires
        old(storage).history.wf(),
    ensures
        final(storage).history.wf(),
        erased is Ok ==> {
            &&& *final(storage) == (StorageState {
                history: HistoryRing {
                    write_index: 0,
                    next_seq: 0,
                    count: 0,
                    last_persist_uptime_s: 0,
                    ..old(storage).history
                },
                ..*old(storage)
            })
            &&& *final(telemetry) == (TelemetryState {
                history_clear_pending: true,
                ..*old(telemetry)
            })
            &&& is_json(r, "200 OK"@, "{\n  \"ok\": true\n}\n"@)
        },
        erased is Err ==> {
            &&& *final(storage) == *old(storage)
            &&& *final(telemetry) == *old(telemetry)
            &&& is_json(
                r,
                "500 Internal Server Error"@,
                "{\n  \"error\": \"history_clear_failed\"\n}\n"@,
            )
        },
{
    match erased {
        Ok(()) => {
            history_cleared(storage);
            set_history_clear_pending(telemetry);
            done()
        },
        Err(_) => json_text(
            "500 Internal Server Error",
            "{\n  \"error\": \"history_clear_failed\"\n}\n",
        ),
    }
}

// ── Sensor scan ──────────────────────────────────────────────────────────────

/// Whether a probe is configured with this ROM code.
pub open spec fn has_serial(config: SensorConfig, rom: Seq<u8>) -> bool {
    config.serial matches Some(s) && digits_of(compact(encode_utf8(s@)), rom)
}

/// The name of the first probe from `from` on that is configured with a ROM code.
pub open spec fn name_of(sensors: Seq<SensorConfig>, rom: Seq<u8>, from: int) -> Option<Seq<char>>
    decreases sensors.len() - from,
{
    if from < 0 || from >= sensors.len() {
        None
    } else if has_serial(sensors[from], rom) {
        Some(sensors[from].name@)
    } else {
        name_of(sensors, rom, from + 1)
    }
}

/// A device that was found as JSON.
pub open spec fn found_item(sensors: Seq<SensorConfig>, rom: [u8; 8]) -> Seq<char> {
    let start = "\n    { \"serial\": \""@ + serial_text(rom@);
    match name_of(sensors, rom@, 0) {
        Some(name) => start + "\", \"name\": \""@ + name + "\" }"@,
        None => start + "\", \"name\": null }"@,
    }
}

/// The devices that were found as JSON, with commas between them.
pub open spec fn found_items(sensors: Seq<SensorConfig>, scan: Seq<[u8; 8]>) -> Seq<char>
    decreases scan.len(),
{
    if scan.len() == 0 {
        Seq::empty()
    } else if scan.len() == 1 {
        found_items(sensors, scan.drop_last()) + found_item(sensors, scan.last())
    } else {
        found_items(sensors, scan.drop_last()) + ","@ + found_item(sensors, scan.last())
    }
}

/// The result of a scan of the bus as JSON.
pub open spec fn scan_document(
    sensors: Seq<SensorConfig>,
    scan: Seq<[u8; 8]>,
    last_scan_uptime_s: u32,
) -> Seq<char> {
    "{\n  \"ok\": true,\n  \"last_scan_uptime_s\": "@ + decimal(last_scan_uptime_s as nat)
        + ",\n  \"found\": ["@ + found_items(sensors, scan) + (if scan.len() > 0 {
        "\n"@
    } else {
        ""@
    }) + "  ]\n}\n"@
}

/// A serial number has one ROM code.
proof fn one_code(digits: Seq<u8>, a: Seq<u8>, b: Seq<u8>)
    requires
        digits_of(digits, a),
        digits_of(digits, b),
    ensures
        a == b,
{
    assert forall|i: int| 0 <= i < 8 implies a[i] == b[i] by {
        assert(digit_pair(digits[2 * i], digits[2 * i + 1], a[i]));
        assert(digit_pair(digits[2 * i], digits[2 * i + 1], b[i]));
    }
    assert(a == b);
}

fn find_name(sensors: &[SensorConfig], rom: [u8; 8]) -> (r: Option<&'static str>)
    ensures
        match r {
            Some(name) => name_of(sensors@, rom@, 0) == Some(name@),
            None => name_of(sensors@, rom@, 0) is None,
        },
{
    let mut i: usize = 0;
    while i < sensors.len()
        invariant
            i <= sensors@.len(),
            name_of(sensors@, rom@, 0) == name_of(sensors@, rom@, i as int),
        decreases sensors@.len() - i,
    {
        if let Some(serial) = sensors[i].serial {
            if let Some(parsed) = parse_ds18b20_serial(serial) {
                if bytes_equal(&parsed, &rom) {
                    return Some(sensors[i].name);
                }
                proof {
                    if has_serial(sensors@[i as int], rom@) {
                        one_code(compact(encode_utf8(serial@)), parsed@, rom@);
                    }
                }
            }
        }
        i = i + 1;
    }
    None
}

fn found_item_str(sensors: &[SensorConfig], rom: [u8; 8]) -> (r: String)
    ensures
        r@ == found_item(sensors@, rom),
{
    let serial = format_ds18b20_serial(rom);
    let mut out: String = "\n    { \"serial\": \"".to_owned();
    out.append(string16_str(&serial));
    match find_name(sensors, rom) {
        Some(name) => {
            out.append("\", \"name\": \"");
            out.append(name);
            out.append("\" }");
        },
        None => {
            out.append("\", \"name\": null }");
        },
    }
    out
}

/// The result of a scan of the bus as JSON, with the configured names.
pub fn sensor_scan_json(sensors: &[SensorConfig], scan: &[[u8; 8]], last_scan_uptime_s: u32) -> (r:
    String)
    ensures
        r@ == scan_document(sensors@, scan@, last_scan_uptime_s),
{
    let mut items: String = String::new();
    let mut i: usize = 0;
    while i < scan.len()
        invariant
            i <= scan@.len(),
            items@ == found_items(sensors@, scan@.take(i as int)),
        decreases scan@.len() - i,
    {
        assert(scan@.take(i + 1).drop_last() == scan@.take(i as int));
        if i > 0 {
            items.append(",");
        }
        let item: String = found_item_str(sensors, scan[i]);
        items.append(item.as_str());
        i = i + 1;
    }
    assert(scan@.take(i as int) == scan@);
    let mut out: String = "{\n  \"ok\": true,\n  \"last_scan_uptime_s\": ".to_owned();
    append_decimal(&mut out, last_scan_uptime_s as u64);
    out.append(",\n  \"found\": [");
    out.append(items.as_str());
    out.append(
        if scan.len() > 0 {
            "\n"
        } else {
            ""
        },
    );
    out.append("  ]\n}\n");
    out
}

// ── Profiles ─────────────────────────────────────────────────────────────────

/// The reply to a request for a profile that does not exist.
fn profile_not_found() -> (r: Response)
    ensures
        is_json(r, "404 Not Found"@, "{\n  \"error\": \"profile_not_found\"\n}\n"@),
{
    json_text("404 Not Found", "{\n  \"error\": \"profile_not_found\"\n}\n")
}

/// A stored profile in the list of profiles.
pub open spec fn profile_item(slot: nat, p: TempProfile) -> Seq<char> {
    "\n    { \"slot\": "@ + decimal(slot) + ", \"name\": \""@ + p.name@ + "\", \"steps\": "@
        + decimal(p.steps@.len()) + " }"@
}

/// Whether any slot holds a profile.
pub open spec fn any_profile(slots: Seq<Option<TempProfile>>) -> bool
    decreases slots.len(),
{
    slots.len() > 0 && (slots.last() is Some || any_profile(slots.drop_last()))
}

/// The stored profiles as JSON, with commas between them.
pub open spec fn profile_items(slots: Seq<Option<TempProfile>>) -> Seq<char>
    decreases slots.len(),
{
    if slots.len() == 0 {
        Seq::empty()
    } else {
        let before = profile_items(slots.drop_last());
        match slots.last() {
            None => before,
            Some(p) => if any_profile(slots.drop_last()) {
                before + ","@ + profile_item((slots.len() - 1) as nat, p)
            } else {
                before + profile_item((slots.len() - 1) as nat, p)
            },
        }
    }
}

/// The stored profiles as JSON.
pub open spec fn profiles_document(slots: Seq<Option<TempProfile>>) -> Seq<char> {
    "{\n  \"profiles\": ["@ + profile_items(slots) + (if any_profile(slots) {
        "\n"@
    } else {
        ""@
    }) + "  ]\n}\n"@
}

fn profile_item_str(slot: usize, p: &TempProfile) -> (r: String)
    ensures
        r@ == profile_item(slot as nat, *p),
{
    let mut out: String = "\n    { \"slot\": ".to_owned();
    append_decimal(&mut out, slot as u64);
    out.append(", \"name\": \"");
    out.append(p.name.as_str());
    out.append("\", \"steps\": ");
    append_decimal(&mut out, p.steps.len() as u64);
    out.append(" }");
    out
}

/// The stored profiles as JSON, by slot.
pub fn profiles_list_json(slots: &[Option<TempProfile>]) -> (r: String)
    ensures
        r@ == profiles_document(slots@),
{
    let mut items: String = String::new();
    let mut any: bool = false;
    let mut slot: usize = 0;
    while slot < slots.len()
        invariant
            slot <= slots@.len(),
            items@ == profile_items(slots@.take(slot as int)),
            any == any_profile(slots@.take(slot as int)),
        decreases slots@.len() - slot,
    {
        assert(slots@.take(slot + 1).drop_last() == slots@.take(slot as int));
        if let Some(p) = &slots[slot] {
            if any {
                items.append(",");
            }
            any = true;
            let item: String = profile_item_str(slot, p);
            items.append(item.as_str());
        }
        slot = slot + 1;
    }
    assert(slots@.take(slot as int) == slots@);
    let mut out: String = "{\n  \"profiles\": [".to_owned();
    out.append(items.as_str());
    out.append(
        if any {
            "\n"
        } else {
            ""
        },
    );
    out.append("  ]\n}\n");
    out
}

/// A step of a profile as JSON.
pub open spec fn step_item(step: ProfileStep) -> Seq<char> {
    "\n    { \"target_c\": "@ + celsius_text(step.target_centi as int) + ", \"target_f\": "@
        + fahrenheit_text(step.target_centi as int) + ", \"hold_secs\": "@ + decimal(
        step.hold_secs as nat,
    ) + " }"@
}

/// The steps of a profile as JSON, with commas between them.
pub open spec fn step_items(steps: Seq<ProfileStep>) -> Seq<char>
    decreases steps.len(),
{
    if steps.len() == 0 {
        Seq::empty()
    } else if steps.len() == 1 {
        step_items(steps.drop_last()) + step_item(steps.last())
    } else {
        step_items(steps.drop_last()) + ","@ + step_item(steps.last())
    }
}

/// A stored profile as JSON.
pub open spec fn profile_document(slot: nat, p: TempProfile) -> Seq<char> {
    "{\n  \"ok\": true,\n  \"slot\": "@ + decimal(slot) + ",\n  \"name\": \""@ + p.name@
        + "\",\n  \"steps\": ["@ + step_items(p.steps@) + (if p.steps@.len() > 0 {
        "\n"@
    } else {
        ""@
    }) + "  ]\n}\n"@
}

fn step_item_str(step: ProfileStep) -> (r: String)
    ensures
        r@ == step_item(step),
{
    let target_c: String = celsius(step.target_centi);
    let target_f: String = fahrenheit(step.target_centi);
    let mut out: String = "\n    { \"target_c\": ".to_owned();
    out.append(target_c.as_str());
    out.append(", \"target_f\": ");
    out.append(target_f.as_str());
    out.append(", \"hold_secs\": ");
    append_decimal(&mut out, step.hold_secs as u64);
    out.append(" }");
    out
}

/// A stored profile as JSON.
pub fn profile_json(slot: usize, profile: &TempProfile) -> (r: String)
    ensures
        r@ == profile_document(slot as nat, *profile),
{
    let steps: &[ProfileStep] = profile.steps.as_slice();
    let mut items: String = String::new();
    let mut i: usize = 0;
    while i < steps.len()
        invariant
            i <= steps@.len(),
            items@ == step_items(steps@.take(i as int)),
        decreases steps@.len() - i,
    {
        assert(steps@.take(i + 1).drop_last() == steps@.take(i as int));
        if i > 0 {
            items.append(",");
        }
        let item: String = step_item_str(steps[i]);
        items.append(item.as_str());
        i = i + 1;
    }
    assert(steps@.take(i as int) == steps@);
    let mut out: String = "{\n  \"ok\": true,\n  \"slot\": ".to_owned();
    append_decimal(&mut out, slot as u64);
    out.append(",\n  \"name\": \"");
    out.append(profile.name.as_str());
    out.append("\",\n  \"steps\": [");
    out.append(items.as_str());
    out.append(
        if steps.len() > 0 {
            "\n"
        } else {
            ""
        },
    );
    out.append("  ]\n}\n");
    out
}

/// The running profile as JSON.
pub open spec fn active_document(active: Option<ActiveProfileState>) -> Seq<char> {
    match active {
        None => "{\n  \"active\": false\n}\n"@,
        Some(s) => "{\n  \"active\": true,\n  \"name\": \""@ + s.name@
            + "\",\n  \"step_index\": "@ + decimal(s.step_index as nat)
            + ",\n  \"total_steps\": "@ + decimal(s.total_steps as nat)
            + ",\n  \"step_target_c\": "@ + celsius_text(s.step_target_centi as int)
            + ",\n  \"step_target_f\": "@ + fahrenheit_text(s.step_target_centi as int)
            + ",\n  \"step_hold_secs\": "@ + decimal(s.step_hold_secs as nat)
            + ",\n  \"at_target\": "@ + bool_text(s.at_target) + ",\n  \"hold_elapsed_secs\": "@
            + decimal(s.hold_elapsed_secs as nat) + "\n}\n"@,
    }
}

/// The running profile as JSON.
pub fn active_profile_json(active: &Option<ActiveProfileState>) -> (r: String)
    ensures
        r@ == active_document(*active),
{
    match active {
        None => "{\n  \"active\": false\n}\n".to_owned(),
        Some(s) => {
            let target_c: String = celsius(s.step_target_centi);
            let target_f: String = fahrenheit(s.step_target_centi);
            let mut out: String = "{\n  \"active\": true,\n  \"name\": \"".to_owned();
            out.append(s.name.as_str());
            out.append("\",\n  \"step_index\": ");
            append_decimal(&mut out, s.step_index as u64);
            out.append(",\n  \"total_steps\": ");
            append_decimal(&mut out, s.total_steps as u64);
            out.append(",\n  \"step_target_c\": ");
            out.append(target_c.as_str());
            out.append(",\n  \"step_target_f\": ");
            out.append(target_f.as_str());
            out.append(",\n  \"step_hold_secs\": ");
            append_decimal(&mut out, s.step_hold_secs as u64);
            out.append(",\n  \"at_target\": ");
            out.append(bool_str(s.at_target));
            out.append(",\n  \"hold_elapsed_secs\": ");
            append_decimal(&mut out, s.hold_elapsed_secs as u64);
            out.append("\n}\n");
            out
        },
    }
}

/// The reply to a request for one profile.
pub fn get_profile(found: &Option<(usize, TempProfile)>) -> (r: Response)
    ensures
        match found {
            Some(p) => is_json(r, "200 OK"@, profile_document(p.0 as nat, p.1)),
            None => is_json(
                r,
                "404 Not Found"@,
                "{\n  \"error\": \"profile_not_found\"\n}\n"@,
            ),
        },
{
    match found {
        Some(p) => json_response(profile_json(p.0, &p.1)),
        None => profile_not_found(),
    }
}

/// The slot that a posted profile goes to: that of the profile of its name,
/// else a free one, else none, which is the reply.
pub fn profile_slot(named: Option<usize>, free: Option<usize>) -> (r: Result<usize, Response>)
    ensures
        match (named, free) {
            (Some(slot), _) => r == Ok::<usize, Response>(slot),
            (None, Some(slot)) => r == Ok::<usize, Response>(slot),
            (None, None) => r is Err && is_json(
                r->Err_0,
                "409 Conflict"@,
                "{\n  \"error\": \"profile_slots_full\"\n}\n"@,
            ),
        },
{
    match (named, free) {
        (Some(slot), _) => Ok(slot),
        (None, Some(slot)) => Ok(slot),
        (None, None) => Err(
            json_text("409 Conflict", "{\n  \"error\": \"profile_slots_full\"\n}\n"),
        ),
    }
}

/// Whether a step may have this target.
pub open spec fn valid_step_target(target_centi: i32) -> bool {
    STEP_TARGET_MIN_CENTI <= target_centi <= STEP_TARGET_MAX_CENTI
}

/// The steps that posted targets make, once their texts were read: `None` for
/// a text that is no number. There are none where any target is out of range.
pub open spec fn steps_of(texts: Seq<StepText>, targets: Seq<Option<i32>>) -> Option<
    Seq<ProfileStep>,
>
    decreases texts.len(),
{
    if texts.len() != targets.len() {
        None
    } else if texts.len() == 0 {
        Some(Seq::empty())
    } else {
        match (steps_of(texts.drop_last(), targets.drop_last()), targets.last()) {
            (Some(before), Some(target_centi)) => if valid_step_target(target_centi) {
                Some(before.push(ProfileStep { target_centi, hold_secs: texts.last().hold_secs }))
            } else {
                None
            },
            _ => None,
        }
    }
}

/// Makes the steps of a posted profile. Fails where any target was not read or
/// is out of range.
pub fn read_steps(texts: &[StepText], targets: &[Option<i32>]) -> (r: Option<Vec<ProfileStep>>)
    ensures
        match r {
            Some(steps) => steps_of(texts@, targets@) == Some(steps@),
            None => steps_of(texts@, targets@) is None,
        },
{
    if texts.len() != targets.len() {
        return None;
    }
    let mut steps: Vec<ProfileStep> = Vec::new();
    let mut failed: bool = false;
    let mut i: usize = 0;
    assert(steps@ == Seq::<ProfileStep>::empty());
    while i < texts.len()
        invariant
            i <= texts@.len() == targets@.len(),
            failed ==> steps_of(texts@.take(i as int), targets@.take(i as int)) is None,
            !failed ==> steps_of(texts@.take(i as int), targets@.take(i as int)) == Some(steps@),
        decreases texts@.len() - i,
    {
        assert(texts@.take(i + 1).drop_last() == texts@.take(i as int));
        assert(targets@.take(i + 1).drop_last() == targets@.take(i as int));
        match targets[i] {
            Some(target_centi) => {
                if STEP_TARGET_MIN_CENTI <= target_centi && target_centi <= STEP_TARGET_MAX_CENTI {
                    steps.push(ProfileStep { target_centi, hold_secs: texts[i].hold_secs });
                } else {
                    failed = true;
                }
            },
            None => {
                failed = true;
            },
        }
        i = i + 1;
    }
    assert(texts@.take(i as int) == texts@);
    assert(targets@.take(i as int) == targets@);
    if failed {
        None
    } else {
        Some(steps)
    }
}

/// The profile that is stored for a post: its name without white space around
/// it, and empty where that takes more than `max_name_len` bytes.
pub fn posted_profile(name: &str, steps: Vec<ProfileStep>, max_name_len: usize) -> (r: TempProfile)
    ensures
        r.name@ == (if encode_utf8(trim(name@)).len() <= max_name_len {
            trim(name@)
        } else {
            Seq::empty()
        }),
        r.steps == steps,
{
    let chars: Vec<char> = to_chars(name);
    let trimmed: String = to_string(trim_chars(chars.as_slice()));
    if trimmed.as_str().as_bytes().len() <= max_name_len {
        TempProfile { name: trimmed, steps }
    } else {
        TempProfile { name: String::new(), steps }
    }
}

/// The reply to a posted profile, once it was stored or not.
pub fn profile_saved(slot: usize, profile: &TempProfile, saved: Result<(), ProfileError>) -> (r:
    Response)
    ensures
        match saved {
            Ok(()) => is_json(r, "200 OK"@, profile_document(slot as nat, *profile)),
            Err(ProfileError::InvalidName) => is_json(
                r,
                "400 Bad Request"@,
                "{\n  \"error\": \"invalid_profile_name\"\n}\n"@,
            ),
            Err(ProfileError::InvalidStep) => is_json(
                r,
                "400 Bad Request"@,
                "{\n  \"error\": \"invalid_profile_step\"\n}\n"@,
            ),
            Err(_) => is_json(
                r,
                "500 Internal Server Error"@,
                "{\n  \"error\": \"profile_save_failed\"\n}\n"@,
            ),
        },
{
    match saved {
        Ok(()) => json_response(profile_json(slot, profile)),
        Err(ProfileError::InvalidName) => json_text(
            "400 Bad Request",
            "{\n  \"error\": \"invalid_profile_name\"\n}\n",
        ),
        Err(ProfileError::InvalidStep) => json_text(
            "400 Bad Request",
            "{\n  \"error\": \"invalid_profile_step\"\n}\n",
        ),
        Err(_) => json_text(
            "500 Internal Server Error",
            "{\n  \"error\": \"profile_save_failed\"\n}\n",
        ),
    }
}

/// Prepares to delete the profile of a name. Where it runs, it is stopped.
/// Returns the slot to clear, or the reply where there is no such profile.
pub fn delete_profile(state: &mut ProfileState, name: &str, found: Option<usize>) -> (r: Result<
    usize,
    Response,
>)
    requires
        old(state).wf(),
    ensures
        final(state).wf(),
        match found {
            None => {
                &&& *final(state) == *old(state)
                &&& r is Err && is_json(
                    r->Err_0,
                    "404 Not Found"@,
                    "{\n  \"error\": \"profile_not_found\"\n}\n"@,
                )
            },
            Some(slot) => {
                &&& r == Ok::<usize, Response>(slot)
                &&& if old(state).active_slot is Some && old(state).active_step
                    < old(state).steps@.len() && same_letters(old(state).name@, name@) {
                    stopped(*final(state))
                } else {
                    *final(state) == *old(state)
                }
            },
        },
{
    match found {
        None => Err(profile_not_found()),
        Some(slot) => {
            if state.active_slot.is_some() && (state.active_step as usize) < state.steps.len() {
                let active: Vec<char> = to_chars(state.name.as_str());
                let wanted: Vec<char> = to_chars(name);
                if chars_same_letters(active.as_slice(), wanted.as_slice()) {
                    stop_profile(state);
                }
            }
            Ok(slot)
        },
    }
}

/// The reply to a request to delete a profile, once its slot was cleared or not.
pub fn profile_deleted(deleted: Result<(), ProfileError>) -> (r: Response)
    ensures
        deleted is Ok ==> is_json(r, "200 OK"@, "{\n  \"ok\": true\n}\n"@),
        deleted is Err ==> is_json(
            r,
            "500 Internal Server Error"@,
            "{\n  \"error\": \"profile_delete_failed\"\n}\n"@,
        ),
{
    match deleted {
        Ok(()) => done(),
        Err(_) => json_text(
            "500 Internal Server Error",
            "{\n  \"error\": \"profile_delete_failed\"\n}\n",
        ),
    }
}

/// A profile that was started as JSON.
pub open spec fn started_document(name: Seq<char>, target_centi: i32) -> Seq<char> {
    "{\n  \"ok\": true,\n  \"name\": \""@ + name + "\",\n  \"step\": 0,\n  \"target_c\": "@
        + celsius_text(target_centi as int) + "\n}\n"@
}

fn started_json(name: &str, target_centi: i32) -> (r: String)
    ensures
        r@ == started_document(name@, target_centi),
{
    let target_c: String = celsius(target_centi);
    let mut out: String = "{\n  \"ok\": true,\n  \"name\": \"".to_owned();
    out.append(name);
    out.append("\",\n  \"step\": 0,\n  \"target_c\": ");
    out.append(target_c.as_str());
    out.append("\n}\n");
    out
}

/// Starts the profile that was found under a name, and replies.
pub fn post_start_profile(
    state: &mut ProfileState,
    storage: &mut StorageState,
    name: &str,
    found: Option<(u8, TempProfile)>,
) -> (r: Response)
    requires
        found matches Some(p) ==> p.1.steps@.len() <= 255,
    ensures
        match found {
            None => {
                &&& *final(state) == *old(state) && *final(storage) == *old(storage)
                &&& is_json(
                    r,
                    "404 Not Found"@,
                    "{\n  \"error\": \"profile_not_found\"\n}\n"@,
                )
            },
            Some(p) => if p.1.steps@.len() == 0 {
                &&& *final(state) == *old(state) && *final(storage) == *old(storage)
                &&& is_json(
                    r,
                    "400 Bad Request"@,
                    "{\n  \"error\": \"profile_has_no_steps\"\n}\n"@,
                )
            } else {
                let target = p.1.steps@[0].target_centi;
                &&& final(state).wf()
                &&& final(state).active_slot == Some(p.0)
                &&& final(state).active_step == 0
                &&& !final(state).at_target
                &&& final(state).hold_started_ticks == 0
                &&& final(state).steps@ == p.1.steps@
                &&& final(state).name@ == p.1.name@
                &&& *final(storage) == (StorageState { target_centi: target, ..*old(storage) })
                &&& is_json(r, "200 OK"@, started_document(name@, target))
            },
        },
{
    match start_profile(state, storage, found) {
        Ok(()) => json_response(started_json(name, storage.target_centi)),
        Err(ProfileError::NotFound) => profile_not_found(),
        Err(ProfileError::InvalidStep) => json_text(
            "400 Bad Request",
            "{\n  \"error\": \"profile_has_no_steps\"\n}\n",
        ),
        Err(_) => json_text(
            "500 Internal Server Error",
            "{\n  \"error\": \"start_profile_failed\"\n}\n",
        ),
    }
}

/// Stops the running profile and replies.
pub fn post_stop_profile(state: &mut ProfileState) -> (r: Response)
    ensures
        stopped(*final(state)),
        final(state).wf(),
        is_json(r, "200 OK"@, "{\n  \"ok\": true\n}\n"@),
{
    stop_profile(state);
    done()
}

/// The steps of a posted profile are as many as its targets, each with its own
/// target and hold, and there are none where any target was not read or lies
/// outside of -20 to 100 degrees.
pub proof fn posted_steps_keep_their_order(texts: Seq<StepText>, targets: Seq<Option<i32>>, i: int)
    requires
        texts.len() == targets.len(),
        0 <= i < texts.len(),
    ensures
        steps_of(texts, targets) matches Some(steps) ==> {
            &&& steps.len() == texts.len()
            &&& targets[i] == Some(steps[i].target_centi)
            &&& steps[i].hold_secs == texts[i].hold_secs
            &&& -20 * 100 <= steps[i].target_centi <= 100 * 100
        },
        targets[i] is None || targets[i]->0 < -2000 || targets[i]->0 > 10000 ==> steps_of(
            texts,
            targets,
        ) is None,
    decreases texts.len(),
{
    if i < texts.len() - 1 {
        posted_steps_keep_their_order(texts.drop_last(), targets.drop_last(), i);
        assert(texts.drop_last()[i] == texts[i] && targets.drop_last()[i] == targets[i]);
        if let Some(before) = steps_of(texts.drop_last(), targets.drop_last()) {
            posted_count(texts.drop_last(), targets.drop_last());
        }
    } else {
        posted_count(texts.drop_last(), targets.drop_last());
    }
}

proof fn posted_count(texts: Seq<StepText>, targets: Seq<Option<i32>>)
    ensures
        steps_of(texts, targets) matches Some(steps) ==> steps.len() == texts.len(),
    decreases texts.len(),
{
    if texts.len() > 0 {
        posted_count(texts.drop_last(), targets.drop_last());
    }
}

/// Where every target was read and is in range, a posted profile has steps.
pub proof fn sound_steps_are_accepted(texts: Seq<StepText>, targets: Seq<Option<i32>>)
    requires
        texts.len() == targets.len(),
        forall|i: int|
            0 <= i < targets.len() ==> (#[trigger] targets[i]) is Some && -2000 <= targets[i]->0
                <= 10000,
    ensures
        steps_of(texts, targets) is Some,
    decreases texts.len(),
{
    if texts.len() > 0 {
        let before = targets.drop_last();
        assert forall|i: int| 0 <= i < before.len() implies (#[trigger] before[i]) is Some && -2000
            <= before[i]->0 <= 10000 by {
            assert(before[i] == targets[i]);
        }
        sound_steps_are_accepted(texts.drop_last(), before);
        assert(targets[targets.len() - 1] == targets.last());
    }
}

/// A device that was found is named after the first probe that is configured
/// with its serial number.
pub proof fn a_found_device_is_named_by_its_serial(
    sensors: Seq<SensorConfig>,
    rom: Seq<u8>,
    from: int,
    i: int,
)
    requires
        0 <= from <= i < sensors.len(),
        has_serial(sensors[i], rom),
        forall|k: int| from <= k < i ==> !has_serial(#[trigger] sensors[k], rom),
    ensures
        name_of(sensors, rom, from) == Some(sensors[i].name@),
    decreases i - from,
{
    if from < i {
        a_found_device_is_named_by_its_serial(sensors, rom, from + 1, i);
    }
}

} // verus!
