use brewster::firmware::config::SensorConfig;
use brewster::firmware::error::StorageError;
use brewster::firmware::metrics::TargetText;
use brewster::firmware::network::exchange::{
    features_stored, handle, targets_read, wanted_profile, Device, Step,
};
use brewster::firmware::network::http::{
    parse_config_body, parse_history_points, parse_json_bool_field, parse_json_f32_field,
    parse_json_string_field, parse_json_u32_field, parse_probe_name, parse_profile_steps,
    parse_request, parse_temperature, parse_url_name, parse_url_segment_before, ParsedRequest,
    StepText,
};
use brewster::firmware::network::response::{
    active_profile_json, bad_request, collection_ok_json, config_json, config_stored,
    delete_profile, get_profile, history_clear_done, is_error, json_response, metrics_response,
    not_found, post_collection, post_probe_name, post_start_profile, post_stop_profile,
    post_temperature, posted_profile, probe_name_ok_json, profile_deleted, profile_json,
    profile_saved, profile_slot, profiles_list_json, read_steps, response_header,
    sensor_scan_json, temperature_ok_json, temperature_written, Response, TargetReading,
};
use brewster::firmware::network::udp::TelemetryState;
use brewster::firmware::profile::{
    active_state, is_active, start_profile, ProfileError, ProfileState, ProfileStep, TempProfile,
};
use brewster::firmware::status::RuntimeState;
use brewster::firmware::storage::{history_init, StorageState};

fn chars(s: &str) -> Vec<char> {
    s.chars().collect()
}

fn json(text: &str) -> serde_json::Value {
    serde_json::from_str(text).unwrap()
}

fn error_of(r: &Response) -> String {
    json(r.body.as_str())["error"].as_str().unwrap().to_string()
}

fn request(text: &str) -> ParsedRequest {
    parse_request(text.as_bytes(), 4)
}

#[test]
fn json_fields_are_read() {
    let body = chars("{ \"a\": true, \"b\" : false,\"s\":\"x y\", \"n\": 42, \"t\":-1.5}");
    assert_eq!(parse_json_bool_field(&body, "a"), Some(true));
    assert_eq!(parse_json_bool_field(&body, "b"), Some(false));
    assert_eq!(parse_json_bool_field(&body, "s"), None);
    assert_eq!(parse_json_bool_field(&body, "missing"), None);
    assert_eq!(parse_json_string_field(&body, "s"), Some("x y".to_string()));
    assert_eq!(parse_json_string_field(&body, "n"), None);
    assert_eq!(parse_json_string_field(&chars("{\"s\":\"open"), "s"), None);
    assert_eq!(parse_json_u32_field(&body, "n"), Some(42));
    assert_eq!(parse_json_u32_field(&body, "t"), None);
    assert_eq!(parse_json_f32_field(&body, "t"), Some("-1.5".to_string()));
    assert_eq!(parse_json_f32_field(&body, "z"), None);
}

#[test]
fn bodies_are_read() {
    let config = b"POST /config HTTP/1.1\r\n\r\n{\"http_server\": true, \"prometheus\": false}";
    assert_eq!(parse_config_body(config), Some((true, false)));
    assert_eq!(parse_config_body(b"POST /config HTTP/1.1\r\n\r\n{\"http_server\": true}"), None);
    assert_eq!(parse_config_body(b"no body"), None);
    assert_eq!(
        parse_temperature(b"POST /temperature HTTP/1.1\r\n\r\n{\"temperature_c\": 19.5}"),
        Some("19.5".to_string()),
    );
    assert_eq!(parse_temperature(b"POST /temperature HTTP/1.1\r\n\r\n{}"), None);
    let named = |body: &str| parse_probe_name(format!("POST /probe-name HTTP/1.1\r\n\r\n{body}").as_bytes());
    assert_eq!(named("{\"probe_name\":\"keg\"}"), Some("keg".to_string()));
    assert_eq!(named("{\"name\":\"tank\"}"), Some("tank".to_string()));
    assert_eq!(named("\"quoted\""), Some("quoted".to_string()));
    assert_eq!(named("  plain  "), Some("plain".to_string()));
    assert_eq!(named(""), None);
    assert_eq!(named("{}"), None);
}

#[test]
fn the_number_of_points_is_brought_into_range() {
    assert_eq!(parse_history_points(b"GET /history HTTP/1.1\r\n"), 400);
    assert_eq!(parse_history_points(b"GET /history?x=1&points=0\r\n"), 1);
    assert_eq!(parse_history_points(b"GET /history?points=5000&y\r\n"), 1000);
    assert_eq!(parse_history_points(b"GET /history?points=77\r\n"), 77);
    assert_eq!(parse_history_points(b"GET /history?points=77"), 400);
}

#[test]
fn the_number_of_points_ends_before_the_version() {
    assert_eq!(parse_history_points(b"GET /history?points=50 HTTP/1.1\r\n\r\n"), 50);
    assert_eq!(parse_history_points(b"GET /history?points=0 HTTP/1.1\r\n\r\n"), 1);
    assert_eq!(parse_history_points(b"GET /history?points=1000 HTTP/1.1\r\n\r\n"), 1000);
    assert_eq!(parse_history_points(b"GET /history?points=1001 HTTP/1.1\r\n\r\n"), 1000);
    assert_eq!(parse_history_points(b"GET /history?x=1&points=9 HTTP/1.1\r\n\r\n"), 9);
    assert_eq!(parse_history_points(b"GET /history?points=x HTTP/1.1\r\n\r\n"), 400);
    assert_eq!(parse_history_points(b"GET /history? HTTP/1.1\r\n\r\n"), 400);
    assert_eq!(parse_history_points(b"GET /history HTTP/1.1&points=7\r\n\r\n"), 400);
}

#[test]
fn names_are_cut_out_of_the_path() {
    assert_eq!(
        parse_url_name(b"GET /profiles/ale HTTP/1.1", b"GET /profiles/"),
        Some("ale".to_string()),
    );
    assert_eq!(parse_url_name(b"GET /profiles/ HTTP/1.1", b"GET /profiles/"), None);
    assert_eq!(parse_url_name(b"GET /other", b"GET /profiles/"), None);
    assert_eq!(
        parse_url_segment_before(b"POST /profiles/ale/start ", b"POST /profiles/", b"/start "),
        Some("ale".to_string()),
    );
    assert_eq!(
        parse_url_segment_before(b"POST /profiles/ale ", b"POST /profiles/", b"/start "),
        None,
    );
}

#[test]
fn steps_are_read_up_to_a_limit() {
    let body = chars(
        "{\"steps\": [ {\"target_c\": 20.5, \"hold_secs\": 60}, {\"target_c\":4,\"hold_secs\":5} ]}",
    );
    let steps = parse_profile_steps(&body, 2).unwrap();
    assert_eq!(steps.len(), 2);
    assert_eq!((steps[0].target.as_str(), steps[0].hold_secs), ("20.5", 60));
    assert_eq!((steps[1].target.as_str(), steps[1].hold_secs), ("4", 5));
    assert!(parse_profile_steps(&body, 1).is_none());
    assert!(parse_profile_steps(&chars("{\"steps\": []}"), 4).is_none());
    assert!(parse_profile_steps(&chars("{\"steps\": [{\"target_c\":1,\"hold_secs\":0}]}"), 4).is_none());
    assert!(parse_profile_steps(&chars("{\"steps\": [{\"target_c\":1}]}"), 4).is_none());
    assert!(parse_profile_steps(&chars("{\"steps\": ["), 4).is_none());
    assert!(parse_profile_steps(&chars("{}"), 4).is_none());
}

#[test]
fn requests_are_told_apart() {
    assert!(matches!(request("GET / HTTP/1.1\r\n"), ParsedRequest::GetStatus));
    assert!(matches!(request("GET /status HTTP/1.1\r\n"), ParsedRequest::GetStatus));
    assert!(matches!(request("GET /history?points=9 HTTP/1.1\r\n"), ParsedRequest::GetHistory(9)));
    assert!(matches!(request("GET /history HTTP/1.1\r\n"), ParsedRequest::GetHistory(400)));
    assert!(matches!(request("GET /config HTTP/1.1\r\n"), ParsedRequest::GetConfig));
    assert!(matches!(request("GET /metrics HTTP/1.1\r\n"), ParsedRequest::GetMetrics));
    assert!(matches!(request("GET /profiles HTTP/1.1\r\n"), ParsedRequest::GetProfiles));
    assert!(matches!(request("GET /profiles/active HTTP/1.1\r\n"), ParsedRequest::GetActiveProfile));
    assert!(matches!(request("POST /profiles/stop HTTP/1.1\r\n"), ParsedRequest::StopProfile));
    assert!(matches!(request("GET /nowhere HTTP/1.1\r\n"), ParsedRequest::NotFound));
    assert!(matches!(request(""), ParsedRequest::NotFound));
    match request("POST /temperature HTTP/1.1\r\n\r\n{\"temperature_c\": 3}") {
        ParsedRequest::PostTemperature(text) => assert_eq!(text, "3"),
        _ => panic!("not a temperature"),
    }
    assert!(matches!(request("POST /temperature HTTP/1.1\r\n\r\n{}"), ParsedRequest::BadRequest));
    match request("GET /profiles/lager HTTP/1.1\r\n") {
        ParsedRequest::GetProfile(name) => assert_eq!(name, "lager"),
        _ => panic!("not a profile"),
    }
    match request("POST /profiles/lager/start HTTP/1.1\r\n") {
        ParsedRequest::StartProfile(name) => assert_eq!(name, "lager"),
        _ => panic!("not a start"),
    }
    match request("DELETE /profiles/lager HTTP/1.1\r\n") {
        ParsedRequest::DeleteProfile(name) => assert_eq!(name, "lager"),
        _ => panic!("not a deletion"),
    }
    match request(
        "POST /profiles/lager HTTP/1.1\r\n\r\n{\"steps\":[{\"target_c\":9,\"hold_secs\":1}]}",
    ) {
        ParsedRequest::PostProfile { name, steps } => {
            assert_eq!(name, "lager");
            assert_eq!(steps.len(), 1);
        }
        _ => panic!("not a posted profile"),
    }
    match request("POST /config HTTP/1.1\r\n\r\n{\"http_server\":false,\"prometheus\":true}") {
        ParsedRequest::PostConfig { http, prometheus } => assert!(!http && prometheus),
        _ => panic!("not a configuration"),
    }
}

#[test]
fn headers_give_the_length_in_bytes() {
    let r = json_response("{\"ä\":1}".to_string());
    assert_eq!(
        response_header(&r),
        "HTTP/1.1 200 OK\r\nContent-Type: application/json\r\nCache-Control: no-store\r\n\
         Content-Length: 8\r\nConnection: close\r\n\r\n",
    );
    assert!(!is_error(&r));
    assert!(is_error(&bad_request()));
    assert!(is_error(&not_found()));
    assert_eq!(error_of(&bad_request()), "bad_request");
    assert_eq!(not_found().status_line, "404 Not Found");
}

#[test]
fn metrics_can_be_switched_off() {
    let on = metrics_response(true, "brewster_up 1\n".to_string());
    assert_eq!(on.body.as_str(), "brewster_up 1\n");
    assert!(on.content_type.starts_with("text/plain"));
    assert!(is_error(&metrics_response(false, String::new())));
}

#[test]
fn flags_are_reported() {
    assert_eq!(json(&config_json(true, false))["http_server"], true);
    assert_eq!(json(&config_json(true, false))["prometheus"], false);
    assert_eq!(config_stored(true, true, Ok(())).status_line, "200 OK");
    let failed = config_stored(true, true, Err(StorageError::NotInitialized));
    assert_eq!(failed.status_line, "500 Internal Server Error");
    assert_eq!(error_of(&failed), "persist_failed");
}

#[test]
fn a_posted_temperature_becomes_the_target() {
    let mut storage = StorageState::new();
    storage.store_len = 0x1000;
    storage.store_offset = 0x310000;
    let write = match post_temperature(&mut storage, TargetReading::Value(1950), true) {
        Ok(write) => write,
        Err(_) => panic!("refused"),
    };
    assert_eq!(write.offset, 0x310000);
    assert_eq!(storage.target_centi, 1950);
    let refused = |storage: &mut StorageState, reading, ready| match post_temperature(storage, reading, ready) {
        Ok(_) => panic!("accepted"),
        Err(r) => (r.status_line, error_of(&r)),
    };
    assert_eq!(
        refused(&mut storage, TargetReading::NotANumber, true),
        ("400 Bad Request", "bad_request".to_string()),
    );
    assert_eq!(
        refused(&mut storage, TargetReading::OutOfRange, true),
        ("400 Bad Request", "out_of_range".to_string()),
    );
    assert_eq!(
        refused(&mut storage, TargetReading::Value(15_001), true),
        ("400 Bad Request", "out_of_range".to_string()),
    );
    assert_eq!(storage.target_centi, 1950);
    assert_eq!(
        refused(&mut storage, TargetReading::Value(100), false),
        ("500 Internal Server Error", "persist_failed".to_string()),
    );
    assert_eq!(storage.target_centi, 100);
    let target = TargetText { celsius: "19.50".to_string(), fahrenheit: "67.10".to_string() };
    assert_eq!(json(&temperature_ok_json(&target))["temperature_c"], 19.5);
    assert_eq!(temperature_written(&target, Ok(())).status_line, "200 OK");
    assert_eq!(
        error_of(&temperature_written(&target, Err(StorageError::MissingPartition))),
        "persist_failed",
    );
}

#[test]
fn a_posted_probe_name_is_checked() {
    let mut storage = StorageState::new();
    let ok = post_probe_name(&mut storage, " keg ");
    assert_eq!(json(ok.body.as_str())["probe_name"], "keg");
    assert_eq!(storage.probe_name.as_str(), "keg");
    assert_eq!(error_of(&post_probe_name(&mut storage, " ")), "empty_probe_name");
    assert_eq!(error_of(&post_probe_name(&mut storage, &"x".repeat(33))), "probe_name_too_long");
    assert_eq!(error_of(&post_probe_name(&mut storage, "a\"b")), "invalid_probe_name");
    assert_eq!(storage.probe_name.as_str(), "keg");
    assert_eq!(json(&probe_name_ok_json("keg"))["ok"], true);
}

#[test]
fn collection_and_history_are_switched() {
    let mut state = RuntimeState::new();
    let r = post_collection(&mut state, true);
    assert!(state.collection_enabled);
    assert_eq!(r.body.as_str(), collection_ok_json(true));
    assert_eq!(json(r.body.as_str())["collecting"], true);
    let mut storage = StorageState::new();
    storage.history = history_init(0x10000, 0x1000 + 64, &[], 0);
    storage.history.count = 2;
    storage.history.write_index = 2;
    let mut telemetry = TelemetryState::new();
    let failed = history_clear_done(&mut storage, &mut telemetry, Err(StorageError::NotInitialized));
    assert_eq!(error_of(&failed), "history_clear_failed");
    assert_eq!(storage.history.count, 2);
    assert!(!telemetry.history_clear_pending);
    let done = history_clear_done(&mut storage, &mut telemetry, Ok(()));
    assert_eq!(json(done.body.as_str())["ok"], true);
    assert_eq!(storage.history.count, 0);
    assert!(telemetry.history_clear_pending);
}

#[test]
fn found_probes_are_named() {
    let sensors = [SensorConfig { pin: 4, name: "keg", serial: Some("28000000000000aa") }];
    let known = [0x28, 0, 0, 0, 0, 0, 0, 0xaa];
    let other = [0x28, 0, 0, 0, 0, 0, 0, 0xbb];
    let document = json(&sensor_scan_json(&sensors, &[known, other], 77));
    assert_eq!(document["last_scan_uptime_s"], 77);
    assert_eq!(document["found"][0]["serial"], "28000000000000aa");
    assert_eq!(document["found"][0]["name"], "keg");
    assert!(document["found"][1]["name"].is_null());
    assert_eq!(json(&sensor_scan_json(&sensors, &[], 0))["found"].as_array().unwrap().len(), 0);
}

fn ale() -> TempProfile {
    TempProfile {
        name: "ale".to_string(),
        steps: vec![
            ProfileStep { target_centi: 2000, hold_secs: 60 },
            ProfileStep { target_centi: -50, hold_secs: 5 },
        ],
    }
}

#[test]
fn profiles_are_reported() {
    let list = json(&profiles_list_json(&[None, Some(ale()), None]));
    assert_eq!(list["profiles"].as_array().unwrap().len(), 1);
    assert_eq!(list["profiles"][0]["slot"], 1);
    assert_eq!(list["profiles"][0]["steps"], 2);
    assert_eq!(json(&profiles_list_json(&[]))["profiles"].as_array().unwrap().len(), 0);
    let document = json(&profile_json(1, &ale()));
    assert_eq!(document["name"], "ale");
    assert_eq!(document["steps"][0]["target_f"], 68.0);
    assert_eq!(document["steps"][1]["target_c"], -0.5);
    assert_eq!(get_profile(&Some((1, ale()))).status_line, "200 OK");
    assert_eq!(error_of(&get_profile(&None)), "profile_not_found");
}

#[test]
fn a_posted_profile_gets_a_slot() {
    assert!(matches!(profile_slot(Some(2), Some(0)), Ok(2)));
    assert!(matches!(profile_slot(None, Some(0)), Ok(0)));
    match profile_slot(None, None) {
        Ok(_) => panic!("slot"),
        Err(r) => assert_eq!((r.status_line, error_of(&r)), ("409 Conflict", "profile_slots_full".to_string())),
    }
    let texts = [StepText { target: "20".to_string(), hold_secs: 60 }];
    assert_eq!(
        read_steps(&texts, &[Some(2000)]),
        Some(vec![ProfileStep { target_centi: 2000, hold_secs: 60 }]),
    );
    assert_eq!(read_steps(&texts, &[None]), None);
    assert_eq!(read_steps(&texts, &[Some(-2001)]), None);
    assert_eq!(read_steps(&texts, &[Some(10_001)]), None);
    assert_eq!(read_steps(&texts, &[Some(-2000)]).unwrap()[0].target_centi, -2000);
    assert_eq!(read_steps(&texts, &[Some(10_000)]).unwrap()[0].target_centi, 10_000);
    assert_eq!(read_steps(&texts, &[]), None);
    assert_eq!(posted_profile(" ale ", vec![], 16).name, "ale");
    assert_eq!(posted_profile("a longer name", vec![], 4).name, "");
    assert_eq!(profile_saved(0, &ale(), Ok(())).status_line, "200 OK");
    assert_eq!(error_of(&profile_saved(0, &ale(), Err(ProfileError::InvalidName))), "invalid_profile_name");
    assert_eq!(error_of(&profile_saved(0, &ale(), Err(ProfileError::InvalidStep))), "invalid_profile_step");
    assert_eq!(error_of(&profile_saved(0, &ale(), Err(ProfileError::Storage))), "profile_save_failed");
}

#[test]
fn a_profile_is_started_stopped_and_deleted() {
    let mut state = ProfileState::new();
    let mut storage = StorageState::new();
    let started = post_start_profile(&mut state, &mut storage, "ale", Some((1, ale())));
    assert_eq!(json(started.body.as_str())["target_c"], 20.0);
    assert_eq!(storage.target_centi, 2000);
    let active = json(&active_profile_json(&active_state(&state, 0, 1)));
    assert_eq!(active["active"], true);
    assert_eq!(active["total_steps"], 2);
    assert_eq!(
        error_of(&post_start_profile(&mut state, &mut storage, "x", None)),
        "profile_not_found",
    );
    let empty = TempProfile { name: "e".to_string(), steps: vec![] };
    assert_eq!(
        error_of(&post_start_profile(&mut state, &mut storage, "e", Some((0, empty)))),
        "profile_has_no_steps",
    );
    assert!(matches!(delete_profile(&mut state, "other", Some(3)), Ok(3)));
    assert!(is_active(&state));
    assert!(matches!(delete_profile(&mut state, "ALE", Some(1)), Ok(1)));
    assert!(!is_active(&state));
    match delete_profile(&mut state, "ale", None) {
        Ok(_) => panic!("found"),
        Err(r) => assert_eq!(error_of(&r), "profile_not_found"),
    }
    assert_eq!(json(&active_profile_json(&None))["active"], false);
    assert_eq!(profile_deleted(Ok(())).status_line, "200 OK");
    assert_eq!(error_of(&profile_deleted(Err(ProfileError::Storage))), "profile_delete_failed");
    assert_eq!(start_profile(&mut state, &mut storage, Some((0, ale()))), Ok(()));
    assert_eq!(post_stop_profile(&mut state).status_line, "200 OK");
    assert!(!is_active(&state));
}

fn device() -> Device {
    Device {
        runtime: RuntimeState::new(),
        storage: StorageState::new(),
        profile: ProfileState::new(),
        telemetry: TelemetryState::new(),
        http_enabled: true,
        prometheus_enabled: false,
    }
}

#[test]
fn flags_change_once_they_are_stored() {
    let mut d = device();
    let failed = features_stored(&mut d, false, true, Err(StorageError::NotInitialized));
    assert_eq!(error_of(&failed), "persist_failed");
    assert_eq!((d.http_enabled, d.prometheus_enabled), (true, false));
    let stored = features_stored(&mut d, false, true, Ok(()));
    assert_eq!(json(stored.body.as_str())["prometheus"], true);
    assert_eq!((d.http_enabled, d.prometheus_enabled), (false, true));
}

fn reply(step: Step) -> Response {
    match step {
        Step::Reply(r) => r,
        _ => panic!("no reply"),
    }
}

#[test]
fn an_exchange_answers_at_once_where_it_can() {
    let mut d = device();
    let mut ask = |text: &str| handle(request(text), None, &mut d, false, 0, 1);
    assert!(matches!(ask("GET / HTTP/1.1\r\n"), Step::Status));
    assert!(matches!(ask("GET /history?points=7 HTTP/1.1\r\n"), Step::History(7)));
    assert!(matches!(ask("GET /sensors/scan HTTP/1.1\r\n"), Step::SensorScan));
    assert!(matches!(ask("GET /profiles HTTP/1.1\r\n"), Step::Profiles));
    assert_eq!(error_of(&reply(ask("GET /metrics HTTP/1.1\r\n"))), "not_found");
    assert_eq!(json(reply(ask("GET /config HTTP/1.1\r\n")).body.as_str())["http_server"], true);
    assert_eq!(
        json(reply(ask("GET /profiles/active HTTP/1.1\r\n")).body.as_str())["active"],
        false,
    );
    assert_eq!(error_of(&reply(ask("GET /profiles/x HTTP/1.1\r\n"))), "profile_not_found");
    assert_eq!(error_of(&reply(ask("DELETE /profiles/x HTTP/1.1\r\n"))), "profile_not_found");
    assert_eq!(error_of(&reply(ask("POST /profiles/x/start HTTP/1.1\r\n"))), "profile_not_found");
    assert_eq!(error_of(&reply(ask("POST /history/clear HTTP/1.1\r\n"))), "history_clear_failed");
    assert_eq!(error_of(&reply(ask("POST /probe-name HTTP/1.1\r\n\r\n/"))), "invalid_probe_name");
    assert_eq!(error_of(&reply(ask("POST /temperature HTTP/1.1\r\n\r\n"))), "bad_request");
    assert_eq!(error_of(&reply(ask("PUT / HTTP/1.1\r\n"))), "not_found");
    d.prometheus_enabled = true;
    assert!(matches!(
        handle(request("GET /metrics HTTP/1.1\r\n"), None, &mut d, false, 0, 1),
        Step::Metrics
    ));
}

#[test]
fn an_exchange_says_what_is_to_be_done() {
    let mut d = device();
    d.storage.history = history_init(0x10000, 0x1000 + 64, &[], 0);
    match handle(request("POST /collection/start HTTP/1.1\r\n"), None, &mut d, true, 0, 1) {
        Step::StoreCollection { enabled, reply } => {
            assert!(enabled);
            assert_eq!(json(reply.body.as_str())["collecting"], true);
        }
        _ => panic!("not stored"),
    }
    assert!(d.runtime.collection_enabled);
    match handle(request("POST /history/clear HTTP/1.1\r\n"), None, &mut d, true, 0, 1) {
        Step::EraseHistory(sectors) => assert_eq!(sectors, [0x11000]),
        _ => panic!("not erased"),
    }
    match handle(
        request("POST /temperature HTTP/1.1\r\n\r\n{\"temperature_c\": 4}"),
        None,
        &mut d,
        true,
        0,
        1,
    ) {
        Step::ReadTemperature(text) => assert_eq!(text, "4"),
        _ => panic!("not read"),
    }
    assert!(matches!(
        handle(
            request("POST /config HTTP/1.1\r\n\r\n{\"http_server\":true,\"prometheus\":true}"),
            None,
            &mut d,
            true,
            0,
            1,
        ),
        Step::StoreFeatures { http: true, prometheus: true }
    ));
    let start = request("POST /profiles/ale/start HTTP/1.1\r\n");
    assert_eq!(wanted_profile(&start), Some("ale"));
    assert_eq!(wanted_profile(&request("GET / HTTP/1.1\r\n")), None);
    reply(handle(start, Some((1, ale())), &mut d, true, 0, 1));
    assert!(is_active(&d.profile));
    assert_eq!(d.storage.target_centi, 2000);
    assert!(matches!(
        handle(request("DELETE /profiles/Ale HTTP/1.1\r\n"), Some((1, ale())), &mut d, true, 0, 1),
        Step::ClearProfile(1)
    ));
    assert!(!is_active(&d.profile));
}

#[test]
fn a_posted_profile_is_made_once_its_targets_are_read() {
    let texts = [StepText { target: "20".to_string(), hold_secs: 60 }];
    let (slot, made) = match targets_read(" ale ", &texts, &[Some(2000)], None, Some(3), 16) {
        Ok(stored) => stored,
        Err(_) => panic!("refused"),
    };
    assert_eq!(slot, 3);
    assert_eq!(made.name, "ale");
    assert_eq!(made.steps, [ProfileStep { target_centi: 2000, hold_secs: 60 }]);
    assert!(targets_read("ale", &texts, &[Some(10_001)], None, Some(3), 16).is_err());
    match targets_read("ale", &texts, &[None], None, Some(3), 16) {
        Ok(_) => panic!("accepted"),
        Err(r) => assert_eq!(error_of(&r), "bad_request"),
    }
    match targets_read("ale", &texts, &[Some(1)], None, None, 16) {
        Ok(_) => panic!("accepted"),
        Err(r) => assert_eq!(error_of(&r), "profile_slots_full"),
    }
}

#[test]
fn what_is_refused_or_only_read_changes_nothing() {
    let mut d = device();
    for text in [
        "GET /status HTTP/1.1\r\n",
        "GET /metrics HTTP/1.1\r\n",
        "GET /profiles/active HTTP/1.1\r\n",
        "POST /probe-name HTTP/1.1\r\n\r\n\"\"",
        "POST /profiles/ale/start HTTP/1.1\r\n",
        "POST /history/clear HTTP/1.1\r\n",
        "POST /config HTTP/1.1\r\n\r\n{}",
    ] {
        handle(request(text), None, &mut d, true, 0, 1);
        assert_eq!(d.storage.target_centi, 2111);
        assert_eq!(d.storage.probe_name.as_str(), StorageState::new().probe_name.as_str());
        assert!(!is_active(&d.profile));
        assert!(!d.telemetry.history_clear_pending && !d.runtime.collection_enabled);
        assert!(d.http_enabled && !d.prometheus_enabled);
    }
}
