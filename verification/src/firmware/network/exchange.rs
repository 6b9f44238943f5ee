//! One exchange with an HTTP client: from a request to its reply.
//!
//! A request is answered at once where the state of the device is enough. Where
//! it takes more, such as a flash write, the step says what is to be done, and
//! the reply is composed from its outcome.

use vstd::prelude::*;
use vstd::utf8::encode_utf8;
use crate::firmware::bounded::string32;
use crate::firmware::error::StorageError;
use crate::firmware::profile::{
    active_state, is_report, stopped, ActiveProfileState, ProfileState, TempProfile,
};
use crate::firmware::status::RuntimeState;
use crate::firmware::storage::{
    clear_history_persistent, history_clear_error, probe_name_error, probe_name_of, sector_count,
    StorageState, HISTORY_SECTOR_SIZE,
};
use crate::text::{same_letters, starts_with, trim};
use super::http::{request_of, ParsedRequest, Request, StepText};
use super::http_laws::collection_is_switched_by_its_line;
use super::response::{
    active_document, active_profile_json, bad_request, collection_document, config_document,
    config_json, config_stored, delete_profile, get_profile, history_clear_done, is_json, json_response,
    not_found, post_collection, post_probe_name, post_start_profile, post_stop_profile,
    posted_profile, probe_name_document, probe_name_refusal, profile_document, profile_slot,
    read_steps, started_document, steps_of, Response,
};
use super::udp::TelemetryState;

verus! {

/// The state of the device that clients see and change.
pub struct Device {
    pub runtime: RuntimeState,
    pub storage: StorageState,
    pub profile: ProfileState,
    pub telemetry: TelemetryState,
    pub http_enabled: bool,
    pub prometheus_enabled: bool,
}

impl Device {
    pub open spec fn wf(self) -> bool {
        self.storage.history.wf() && self.profile.wf()
    }
}

/// What comes next in an exchange.
pub enum Step {
    /// The reply is sent.
    Reply(Response),
    /// The status document is sent.
    Status,
    /// The document of so many history points is sent.
    History(usize),
    /// The result of the last scan of the bus is sent.
    SensorScan,
    /// The metrics are sent.
    Metrics,
    /// The list of stored profiles is sent.
    Profiles,
    /// The feature flags are stored.
    StoreFeatures { http: bool, prometheus: bool },
    /// The text is read as a target temperature.
    ReadTemperature(String),
    /// The state of the collection is stored, and the reply sent either way.
    StoreCollection { enabled: bool, reply: Response },
    /// The flash sectors at these offsets are erased.
    EraseHistory(Vec<u32>),
    /// The targets of a posted profile are read as temperatures.
    ReadTargets { name: String, steps: Vec<StepText> },
    /// The slot of a profile is cleared.
    ClearProfile(usize),
}

/// Whether a step is to send a JSON document with this status.
pub open spec fn replies(step: Step, status: Seq<char>, body: Seq<char>) -> bool {
    step matches Step::Reply(r) && is_json(r, status, body)
}

/// Whether a step says that a profile was not found.
pub open spec fn refuses_profile(step: Step) -> bool {
    replies(step, "404 Not Found"@, "{\n  \"error\": \"profile_not_found\"\n}\n"@)
}

/// The name of the profile that a request is about, if it is about one.
pub open spec fn named_profile(request: ParsedRequest) -> Option<Seq<char>> {
    match request {
        ParsedRequest::GetProfile(name) => Some(name@),
        ParsedRequest::PostProfile { name, steps } => Some(name@),
        ParsedRequest::DeleteProfile(name) => Some(name@),
        ParsedRequest::StartProfile(name) => Some(name@),
        _ => None,
    }
}

/// The name of the profile that a request is about, if it is about one.
pub fn wanted_profile(request: &ParsedRequest) -> (r: Option<&str>)
    ensures
        match r {
            Some(name) => named_profile(*request) == Some(name@),
            None => named_profile(*request) is None,
        },
{
    match request {
        ParsedRequest::GetProfile(name) => Some(name.as_str()),
        ParsedRequest::PostProfile { name, .. } => Some(name.as_str()),
        ParsedRequest::DeleteProfile(name) => Some(name.as_str()),
        ParsedRequest::StartProfile(name) => Some(name.as_str()),
        _ => None,
    }
}

/// Whether a device has changed in its running profile alone.
pub open spec fn same_but_profile(a: Device, b: Device) -> bool {
    b == (Device { profile: b.profile, ..a })
}

/// What a request for a posted or stored profile, or about the running one,
/// comes to.
pub open spec fn profile_step_is(
    request: ParsedRequest,
    found: Option<(u8, TempProfile)>,
    before: Device,
    after: Device,
    step: Step,
    now_ticks: u64,
    tick_hz: u64,
) -> bool {
    match request {
        ParsedRequest::GetProfiles => step is Profiles && after == before,
        ParsedRequest::GetActiveProfile => after == before && exists|a: Option<ActiveProfileState>|
            #[trigger] is_report(a, before.profile, now_ticks, tick_hz) && replies(
                step,
                "200 OK"@,
                active_document(a),
            ),
        ParsedRequest::GetProfile(name) => after == before && match found {
            Some(p) => replies(step, "200 OK"@, profile_document(p.0 as nat, p.1)),
            None => refuses_profile(step),
        },
        ParsedRequest::PostProfile { name, steps } => after == before && step
            == (Step::ReadTargets { name, steps }),
        ParsedRequest::DeleteProfile(name) => match found {
            None => after == before && refuses_profile(step),
            Some(p) => {
                &&& step == Step::ClearProfile(p.0 as usize)
                &&& same_but_profile(before, after)
                &&& if before.profile.active_slot is Some && before.profile.active_step
                    < before.profile.steps@.len() && same_letters(before.profile.name@, name@) {
                    stopped(after.profile)
                } else {
                    after.profile == before.profile
                }
            },
        },
        ParsedRequest::StartProfile(name) => match found {
            None => after == before && refuses_profile(step),
            Some(p) => if p.1.steps@.len() == 0 {
                after == before && replies(
                    step,
                    "400 Bad Request"@,
                    "{\n  \"error\": \"profile_has_no_steps\"\n}\n"@,
                )
            } else {
                let target = p.1.steps@[0].target_centi;
                &&& after == (Device {
                    profile: after.profile,
                    storage: StorageState { target_centi: target, ..before.storage },
                    ..before
                })
                &&& after.profile.active_slot == Some(p.0)
                &&& after.profile.active_step == 0
                &&& !after.profile.at_target
                &&& after.profile.hold_started_ticks == 0
                &&& after.profile.steps@ == p.1.steps@
                &&& after.profile.name@ == p.1.name@
                &&& replies(step, "200 OK"@, started_document(name@, target))
            },
        },
        _ => {
            &&& same_but_profile(before, after)
            &&& stopped(after.profile)
            &&& replies(step, "200 OK"@, "{\n  \"ok\": true\n}\n"@)
        },
    }
}

/// What a request comes to.
pub open spec fn step_is(
    request: ParsedRequest,
    found: Option<(u8, TempProfile)>,
    before: Device,
    after: Device,
    step: Step,
    flash_ready: bool,
    now_ticks: u64,
    tick_hz: u64,
) -> bool {
    match request {
        ParsedRequest::GetStatus => step is Status && after == before,
        ParsedRequest::GetHistory(n) => step == Step::History(n) && after == before,
        ParsedRequest::GetSensorScan => step is SensorScan && after == before,
        ParsedRequest::GetMetrics => after == before && if before.prometheus_enabled {
            step is Metrics
        } else {
            replies(step, "404 Not Found"@, "{\n  \"error\": \"not_found\"\n}\n"@)
        },
        ParsedRequest::GetConfig => after == before && replies(
            step,
            "200 OK"@,
            config_document(before.http_enabled, before.prometheus_enabled),
        ),
        ParsedRequest::PostConfig { http, prometheus } => after == before && step
            == (Step::StoreFeatures { http, prometheus }),
        ParsedRequest::PostTemperature(text) => after == before && step == Step::ReadTemperature(
            text,
        ),
        ParsedRequest::PostCollection(enabled) => {
            &&& after == (Device {
                runtime: RuntimeState { collection_enabled: enabled, ..before.runtime },
                ..before
            })
            &&& step matches Step::StoreCollection { enabled: stored, reply } && stored == enabled
                && is_json(reply, "200 OK"@, collection_document(enabled))
        },
        ParsedRequest::PostHistoryClear => after == before && match history_clear_error(
            before.storage.history,
            flash_ready,
        ) {
            None => step matches Step::EraseHistory(sectors) && sectors@.len() == sector_count(
                before.storage.history,
            ) && forall|i: int|
                0 <= i < sectors@.len() ==> #[trigger] sectors@[i] == before.storage.history.base
                    + i * HISTORY_SECTOR_SIZE,
            Some(e) => replies(
                step,
                "500 Internal Server Error"@,
                "{\n  \"error\": \"history_clear_failed\"\n}\n"@,
            ),
        },
        ParsedRequest::PostProbeName(name) => match probe_name_error(name@) {
            None => {
                &&& string32(after.storage.probe_name) == trim(name@)
                &&& after == (Device {
                    storage: StorageState {
                        probe_name: after.storage.probe_name,
                        ..before.storage
                    },
                    ..before
                })
                &&& replies(step, "200 OK"@, probe_name_document(probe_name_of(trim(name@))))
            },
            Some(e) => after == before && replies(step, "400 Bad Request"@, probe_name_refusal(e)),
        },
        ParsedRequest::BadRequest => after == before && replies(
            step,
            "400 Bad Request"@,
            "{\n  \"error\": \"bad_request\"\n}\n"@,
        ),
        ParsedRequest::NotFound => after == before && replies(
            step,
            "404 Not Found"@,
            "{\n  \"error\": \"not_found\"\n}\n"@,
        ),
        _ => profile_step_is(request, found, before, after, step, now_ticks, tick_hz),
    }
}

/// A slot and its profile with the slot as a number of its own.
fn with_slot(found: Option<(u8, TempProfile)>) -> (r: Option<(usize, TempProfile)>)
    ensures
        match found {
            Some(p) => r == Some((p.0 as usize, p.1)),
            None => r is None,
        },
{
    match found {
        Some((slot, profile)) => Some((slot as usize, profile)),
        None => None,
    }
}

/// Takes in a request. `found` is the stored profile of the name that it is
/// about, with its slot, if there is one.
pub fn handle(
    request: ParsedRequest,
    found: Option<(u8, TempProfile)>,
    device: &mut Device,
    flash_ready: bool,
    now_ticks: u64,
    tick_hz: u64,
) -> (r: Step)
    requires
        old(device).wf(),
        found matches Some(p) ==> p.1.steps@.len() <= 255,
        tick_hz > 0,
    ensures
        final(device).wf(),
        step_is(request, found, *old(device), *final(device), r, flash_ready, now_ticks, tick_hz),
{
    match request {
        ParsedRequest::GetStatus => Step::Status,
        ParsedRequest::GetHistory(points) => Step::History(points),
        ParsedRequest::GetSensorScan => Step::SensorScan,
        ParsedRequest::GetMetrics => if device.prometheus_enabled {
            Step::Metrics
        } else {
            Step::Reply(not_found())
        },
        ParsedRequest::GetConfig => Step::Reply(
            json_response(config_json(device.http_enabled, device.prometheus_enabled)),
        ),
        ParsedRequest::PostConfig { http, prometheus } => Step::StoreFeatures { http, prometheus },
        ParsedRequest::PostTemperature(text) => Step::ReadTemperature(text),
        ParsedRequest::PostCollection(enabled) => {
            let reply: Response = post_collection(&mut device.runtime, enabled);
            Step::StoreCollection { enabled, reply }
        },
        ParsedRequest::PostHistoryClear => match clear_history_persistent(
            &device.storage,
            flash_ready,
        ) {
            Ok(sectors) => Step::EraseHistory(sectors),
            Err(e) => Step::Reply(
                history_clear_done(&mut device.storage, &mut device.telemetry, Err(e)),
            ),
        },
        ParsedRequest::PostProbeName(name) => Step::Reply(
            post_probe_name(&mut device.storage, name.as_str()),
        ),
        ParsedRequest::GetProfiles => Step::Profiles,
        ParsedRequest::GetProfile(_) => Step::Reply(get_profile(&with_slot(found))),
        ParsedRequest::GetActiveProfile => {
            let active: Option<ActiveProfileState> = active_state(
                &device.profile,
                now_ticks,
                tick_hz,
            );
            assert(is_report(active, device.profile, now_ticks, tick_hz));
            Step::Reply(json_response(active_profile_json(&active)))
        },
        ParsedRequest::PostProfile { name, steps } => Step::ReadTargets { name, steps },
        ParsedRequest::DeleteProfile(name) => {
            let slot: Option<usize> = match found {
                Some((slot, _)) => Some(slot as usize),
                None => None,
            };
            match delete_profile(&mut device.profile, name.as_str(), slot) {
                Ok(slot) => Step::ClearProfile(slot),
                Err(reply) => Step::Reply(reply),
            }
        },
        ParsedRequest::StartProfile(name) => Step::Reply(
            post_start_profile(&mut device.profile, &mut device.storage, name.as_str(), found),
        ),
        ParsedRequest::StopProfile => Step::Reply(post_stop_profile(&mut device.profile)),
        ParsedRequest::BadRequest => Step::Reply(bad_request()),
        ParsedRequest::NotFound => Step::Reply(not_found()),
    }
}

/// Whether a request only asks to be told something.
pub open spec fn only_reads(request: ParsedRequest) -> bool {
    request is GetStatus || request is GetHistory || request is GetSensorScan
        || request is GetMetrics || request is GetConfig || request is GetProfiles
        || request is GetProfile || request is GetActiveProfile
}

/// A request that only asks to be told something leaves the device as it was.
pub proof fn reading_changes_nothing(
    request: ParsedRequest,
    found: Option<(u8, TempProfile)>,
    before: Device,
    after: Device,
    step: Step,
    flash_ready: bool,
    now_ticks: u64,
    tick_hz: u64,
)
    requires
        only_reads(request),
        step_is(request, found, before, after, step, flash_ready, now_ticks, tick_hz),
    ensures
        after == before,
{
}

/// A request that is refused at once leaves the device as it was.
pub proof fn refused_requests_change_nothing(
    request: ParsedRequest,
    found: Option<(u8, TempProfile)>,
    before: Device,
    after: Device,
    step: Step,
    flash_ready: bool,
    now_ticks: u64,
    tick_hz: u64,
)
    requires
        step_is(request, found, before, after, step, flash_ready, now_ticks, tick_hz),
        step is Reply,
        !starts_with(step->Reply_0.status_line@, "200"@),
    ensures
        after == before,
{
    reveal_strlit("200");
    reveal_strlit("200 OK");
    assert("200 OK"@.take(3) == "200"@);
}

/// Takes over new feature flags once they were stored. Returns the reply.
pub fn features_stored(
    device: &mut Device,
    http: bool,
    prometheus: bool,
    stored: Result<(), StorageError>,
) -> (r: Response)
    ensures
        stored is Ok ==> {
            &&& *final(device) == (Device {
                http_enabled: http,
                prometheus_enabled: prometheus,
                ..*old(device)
            })
            &&& is_json(r, "200 OK"@, config_document(http, prometheus))
        },
        stored is Err ==> {
            &&& *final(device) == *old(device)
            &&& is_json(
                r,
                "500 Internal Server Error"@,
                "{\n  \"error\": \"persist_failed\"\n}\n"@,
            )
        },
{
    if stored.is_ok() {
        device.http_enabled = http;
        device.prometheus_enabled = prometheus;
    }
    config_stored(http, prometheus, stored)
}

/// Takes in the targets of a posted profile, `None` for one that is no number.
/// Returns the slot and the profile to store, or the reply where a target was
/// not read or is out of range, or there is no slot for it.
pub fn targets_read(
    name: &str,
    steps: &[StepText],
    targets: &[Option<i32>],
    named: Option<usize>,
    free: Option<usize>,
    max_name_len: usize,
) -> (r: Result<(usize, TempProfile), Response>)
    ensures
        match steps_of(steps@, targets@) {
            None => r matches Err(reply) && is_json(
                reply,
                "400 Bad Request"@,
                "{\n  \"error\": \"bad_request\"\n}\n"@,
            ),
            Some(made) => if named is None && free is None {
                r matches Err(reply) && is_json(
                    reply,
                    "409 Conflict"@,
                    "{\n  \"error\": \"profile_slots_full\"\n}\n"@,
                )
            } else {
                r matches Ok(stored) && {
                    &&& stored.0 == (if named is Some {
                        named->0
                    } else {
                        free->0
                    })
                    &&& stored.1.steps@ == made
                    &&& stored.1.name@ == (if encode_utf8(trim(name@)).len()
                        <= max_name_len {
                        trim(name@)
                    } else {
                        Seq::empty()
                    })
                }
            },
        },
{
    match read_steps(steps, targets) {
        None => Err(bad_request()),
        Some(made) => match profile_slot(named, free) {
            Err(reply) => Err(reply),
            Ok(slot) => Ok((slot, posted_profile(name, made, max_name_len))),
        },
    }
}

/// A request to switch collection switches it as it says, has it stored so, and
/// touches nothing else.
pub proof fn collection_follows_the_request(
    request: ParsedRequest,
    enabled: bool,
    found: Option<(u8, TempProfile)>,
    before: Device,
    after: Device,
    step: Step,
    flash_ready: bool,
    now_ticks: u64,
    tick_hz: u64,
)
    requires
        step_is(request, found, before, after, step, flash_ready, now_ticks, tick_hz),
        request@ == Request::PostCollection(enabled),
    ensures
        after.runtime.collection_enabled == enabled,
        after.storage == before.storage,
        after.profile == before.profile,
        after.telemetry == before.telemetry,
        step matches Step::StoreCollection { enabled: stored, reply } && stored == enabled
            && reply.status_line@ == "200 OK"@,
{
}

/// The device collects nothing after the line that stops collection, and
/// collects after the line that starts it, whatever follows them.
pub proof fn the_lines_start_and_stop_collection(
    request: ParsedRequest,
    rest: Seq<u8>,
    max_steps: nat,
    found: Option<(u8, TempProfile)>,
    before: Device,
    after: Device,
    step: Step,
    flash_ready: bool,
    now_ticks: u64,
    tick_hz: u64,
)
    requires
        step_is(request, found, before, after, step, flash_ready, now_ticks, tick_hz),
    ensures
        request@ == request_of(encode_utf8("POST /collection/stop HTTP/1.1"@) + rest, max_steps)
            ==> !after.runtime.collection_enabled,
        request@ == request_of(encode_utf8("POST /collection/start HTTP/1.1"@) + rest, max_steps)
            ==> after.runtime.collection_enabled,
{
    collection_is_switched_by_its_line(rest, max_steps);
}

/// Starting a profile runs it from its first step, whose target is in force at
/// once. Where no profile of the name is stored, or it has no steps, nothing
/// changes.
pub proof fn a_started_profile_runs_from_its_first_step(
    request: ParsedRequest,
    found: Option<(u8, TempProfile)>,
    before: Device,
    after: Device,
    step: Step,
    flash_ready: bool,
    now_ticks: u64,
    tick_hz: u64,
)
    requires
        step_is(request, found, before, after, step, flash_ready, now_ticks, tick_hz),
        request is StartProfile,
    ensures
        found is None ==> after == before && (step matches Step::Reply(r) && r.status_line@ == "404 Not Found"@),
        found matches Some(p) ==> {
            &&& p.1.steps@.len() == 0 ==> after == before
            &&& p.1.steps@.len() > 0 ==> {
                &&& after.profile.active_slot == Some(p.0)
                &&& after.profile.active_step == 0
                &&& after.profile.hold_started_ticks == 0
                &&& after.profile.steps@ == p.1.steps@
                &&& after.storage.target_centi == p.1.steps@[0].target_centi
                &&& after.storage.history == before.storage.history
                &&& after.runtime == before.runtime
                &&& (step matches Step::Reply(r) && r.status_line@ == "200 OK"@)
            }
        },
{
}

/// Stopping a profile leaves none running and the target as it is.
pub proof fn a_stopped_profile_keeps_the_target(
    request: ParsedRequest,
    found: Option<(u8, TempProfile)>,
    before: Device,
    after: Device,
    step: Step,
    flash_ready: bool,
    now_ticks: u64,
    tick_hz: u64,
)
    requires
        step_is(request, found, before, after, step, flash_ready, now_ticks, tick_hz),
        request is StopProfile,
    ensures
        after.profile.active_slot is None,
        after.profile.steps@.len() == 0,
        after.profile.hold_started_ticks == 0,
        after.storage == before.storage,
        after.runtime == before.runtime,
{
}

/// Deleting a profile clears its own slot, and stops the running profile only
/// where it is the one that is deleted.
pub proof fn deleting_stops_only_the_deleted_profile(
    request: ParsedRequest,
    name: Seq<char>,
    found: Option<(u8, TempProfile)>,
    before: Device,
    after: Device,
    step: Step,
    flash_ready: bool,
    now_ticks: u64,
    tick_hz: u64,
)
    requires
        step_is(request, found, before, after, step, flash_ready, now_ticks, tick_hz),
        request@ == Request::DeleteProfile(name),
    ensures
        after.storage == before.storage,
        after.runtime == before.runtime,
        found is None ==> after == before,
        found matches Some(p) ==> step == Step::ClearProfile(p.0 as usize),
        before.profile.name@.len() != name.len() ==> after.profile == before.profile,
        found is Some && before.profile.name@ == name && before.profile.active_slot is Some
            && before.profile.active_step < before.profile.steps@.len()
            ==> after.profile.active_slot is None,
{
}

/// The metrics are there only while they are switched on, and a request that
/// asks for a number of points is handed on with that number.
pub proof fn documents_are_served_as_asked(
    request: ParsedRequest,
    found: Option<(u8, TempProfile)>,
    before: Device,
    after: Device,
    step: Step,
    flash_ready: bool,
    now_ticks: u64,
    tick_hz: u64,
)
    requires
        step_is(request, found, before, after, step, flash_ready, now_ticks, tick_hz),
    ensures
        request is GetMetrics && before.prometheus_enabled ==> step is Metrics,
        request is GetMetrics && !before.prometheus_enabled ==> (step matches Step::Reply(r) && r.status_line@ == "404 Not Found"@),
        request is GetStatus ==> step is Status,
        request matches ParsedRequest::GetHistory(n) ==> step == Step::History(n),
        request is GetSensorScan ==> step is SensorScan,
        request is GetProfiles ==> step is Profiles,
        request matches ParsedRequest::PostTemperature(text) ==> step == Step::ReadTemperature(
            text,
        ),
        request matches ParsedRequest::PostConfig { http, prometheus } ==> step
            == (Step::StoreFeatures { http, prometheus }),
        request is BadRequest ==> (step matches Step::Reply(r) && r.status_line@ == "400 Bad Request"@),
        request is NotFound ==> (step matches Step::Reply(r) && r.status_line@ == "404 Not Found"@),
{
}

/// Clearing the history erases every sector that the ring stands in, from its
/// first on, where the flash is there, and is refused otherwise.
pub proof fn clearing_erases_the_whole_ring(
    request: ParsedRequest,
    found: Option<(u8, TempProfile)>,
    before: Device,
    after: Device,
    step: Step,
    flash_ready: bool,
    now_ticks: u64,
    tick_hz: u64,
)
    requires
        step_is(request, found, before, after, step, flash_ready, now_ticks, tick_hz),
        request is PostHistoryClear,
    ensures
        after == before,
        flash_ready && before.storage.history.capacity > 0 ==> (step matches Step::EraseHistory(
            sectors,
        ) && {
            &&& forall|i: int|
                0 <= i < sectors@.len() ==> #[trigger] sectors@[i] == before.storage.history.base
                    + 4096 * i
            &&& 4096 * (sectors@.len() - 1) < 16 * before.storage.history.capacity <= 4096
                * sectors@.len()
        }),
        !flash_ready || before.storage.history.capacity == 0 ==> (step matches Step::Reply(r) && r.status_line@ == "500 Internal Server Error"@),
{
}

} // verus!
