//! The control protocol and the service that it steers.
use serde_json::Value;
use temporal_nbd::control::frame::{
    end_of_stream, read_frame, write_frame, FrameProgress, StreamEnd,
};
use temporal_nbd::control::protocol::{
    decode_request, AddDeviceRequest, ControlRequest, EnvelopeBody, ErrorCode, HealthRequest,
    ListDevicesRequest, Operation, ProtocolError, RemoveDeviceRequest, RequestBody,
    RequestEnvelope, ResponseEnvelope, ResponseResult, DEFAULT_MAX_PAYLOAD_BYTES,
    PROTOCOL_VERSION,
};
use temporal_nbd::rpc::RpcStep;
use temporal_nbd::session::VolumeSession;
use temporal_nbd::time::Duration;
use temporal_nbd::ublk::device::state_name;
use temporal_nbd::ublk::manager::{ControlManager, DeviceState, DeviceStatus, RemovePreparation};
use temporal_nbd::ublk::server::{
    build_session_config, event_line, finish_add, finish_remove, handle_payload, map_open_error,
    next_serve_action, process_request, startup_dropped, stop_timeout, PendingAdd, PendingRemove,
    RequestStep, RuntimeStartError, ServeAction, ServeConfig, ServeEvent,
};

fn text(value: Option<&Value>) -> Option<String> {
    value.and_then(Value::as_str).map(str::to_string)
}

fn number(value: Option<&Value>) -> Option<u32> {
    value.and_then(Value::as_u64).map(|n| n as u32)
}

fn envelope(payload: &[u8]) -> Result<RequestEnvelope, String> {
    let json: Value = serde_json::from_slice(payload).map_err(|err| err.to_string())?;
    let body = json.get("body").ok_or("missing field `body`".to_string())?;
    let volume_id = text(body.get("volume_id"));
    let device_id = number(body.get("device_id"));
    let body = match text(json.get("op")).expect("an operation").as_str() {
        "AddDevice" => EnvelopeBody::AddDevice(match volume_id {
            Some(volume_id) => Ok(AddDeviceRequest {
                volume_id,
                ublk_device_id: number(body.get("ublk_device_id")),
                overrides: body.get("overrides").map(|value| value.to_string()),
            }),
            None => Err("missing field `volume_id`".to_string()),
        }),
        "RemoveDevice" => EnvelopeBody::RemoveDevice(Ok(RemoveDeviceRequest {
            device_id,
            volume_id,
            force: body.get("force").and_then(Value::as_bool).unwrap_or(false),
        })),
        "ListDevices" => EnvelopeBody::ListDevices(Ok(ListDevicesRequest {
            device_id,
            volume_id,
            state: text(body.get("state")),
        })),
        _ => EnvelopeBody::Health(Ok(HealthRequest {})),
    };
    Ok(RequestEnvelope {
        version: text(json.get("version")).expect("a version"),
        request_id: text(json.get("request_id")).expect("an id"),
        idempotency_key: text(json.get("idempotency_key")),
        body,
    })
}

fn parse_request(json: &str) -> ControlRequest {
    decode_request(envelope(json.as_bytes())).expect("request should parse")
}

fn add(id: &str, key: &str, volume: &str, device: Option<u32>) -> ControlRequest {
    ControlRequest {
        request_id: id.to_string(),
        idempotency_key: Some(key.to_string()),
        body: RequestBody::AddDevice(AddDeviceRequest {
            volume_id: volume.to_string(),
            ublk_device_id: device,
            overrides: None,
        }),
    }
}

fn remove(id: &str, key: &str, volume: &str) -> ControlRequest {
    ControlRequest {
        request_id: id.to_string(),
        idempotency_key: Some(key.to_string()),
        body: RequestBody::RemoveDevice(RemoveDeviceRequest {
            device_id: None,
            volume_id: Some(volume.to_string()),
            force: false,
        }),
    }
}

fn refusal(response: &ResponseEnvelope) -> (ErrorCode, &str) {
    assert!(!response.ok);
    assert!(response.result.is_none());
    let error = response.error.as_ref().expect("error body should exist");
    assert_eq!(error.details, "{}");
    (error.code, &error.message)
}

fn listed(manager: &ControlManager, state: Option<&str>) -> Vec<DeviceStatus> {
    let body = ListDevicesRequest {
        device_id: None,
        volume_id: None,
        state: state.map(str::to_string),
    };
    let response = manager.list_devices("list".to_string(), body);
    match response.result {
        Some(ResponseResult::ListDevices(list)) => list.devices,
        other => panic!("a list is expected, not {other:?}"),
    }
}

fn added_device(response: &ResponseEnvelope) -> u32 {
    match &response.result {
        Some(ResponseResult::AddDevice(result)) => result.device_id,
        other => panic!("a device is expected, not {other:?}"),
    }
}

fn test_config() -> ServeConfig {
    ServeConfig {
        frontend_endpoint: "127.0.0.1:1".to_string(),
        namespace: "default".to_string(),
        connect_timeout: Duration::from_millis(20),
        rpc_timeout: Duration::from_millis(20),
        retry_max_attempts: 1,
        retry_initial_backoff: Duration::from_millis(5),
        retry_max_backoff: Duration::from_millis(5),
        graceful_drain_timeout: Duration::from_millis(20),
        force_detach_timeout: Duration::from_millis(30),
        ..ServeConfig::default()
    }
}

fn start_without_a_service(pending: &PendingAdd) -> Result<(), RuntimeStartError> {
    let config = build_session_config(&test_config(), &pending.volume_id);
    let RpcStep::Connect(call) = VolumeSession::connect_and_open(config) else {
        panic!("connect first");
    };
    let refused = Err("connection refused".to_string());
    let RpcStep::Done(Err(err)) = VolumeSession::open_connected(call, refused) else {
        panic!("one attempt only");
    };
    Err(map_open_error(&pending.volume_id, err))
}

fn answer_without_a_service(manager: &mut ControlManager, frame: &[u8]) -> ResponseEnvelope {
    let Ok(FrameProgress::Payload(payload)) = read_frame(frame, DEFAULT_MAX_PAYLOAD_BYTES) else {
        panic!("a whole frame");
    };
    match handle_payload(manager, envelope(&payload)) {
        RequestStep::Respond(response) => response,
        RequestStep::Start(pending) => {
            let started = start_without_a_service(&pending);
            finish_add(manager, pending, started).response
        }
        RequestStep::Stop(pending) => finish_remove(manager, pending, false),
    }
}

fn started(manager: &mut ControlManager, request: ControlRequest) -> PendingAdd {
    match process_request(manager, request) {
        RequestStep::Start(pending) => pending,
        other => panic!("a start is expected, not {other:?}"),
    }
}

fn stopped(manager: &mut ControlManager, request: ControlRequest) -> PendingRemove {
    match process_request(manager, request) {
        RequestStep::Stop(pending) => pending,
        other => panic!("a stop is expected, not {other:?}"),
    }
}

fn answered(manager: &mut ControlManager, request: ControlRequest) -> ResponseEnvelope {
    match process_request(manager, request) {
        RequestStep::Respond(response) => response,
        other => panic!("an answer is expected, not {other:?}"),
    }
}

#[test]
fn decode_request_requires_idempotency_for_mutations() {
    let payload = br#"{
        "version":"v1",
        "request_id":"req-1",
        "op":"AddDevice",
        "body":{"volume_id":"vol-a"}
    }"#;

    let err = decode_request(envelope(payload))
        .expect_err("AddDevice without idempotency_key must fail");
    assert_eq!(err.error.code, ErrorCode::InvalidArgument);
    assert!(err.error.message.contains("idempotency_key"));
}

#[test]
fn decode_request_accepts_read_only_without_idempotency_key() {
    let payload = br#"{
        "version":"v1",
        "request_id":"req-2",
        "op":"ListDevices",
        "body":{}
    }"#;

    let req = decode_request(envelope(payload)).expect("ListDevices should parse");
    assert_eq!(req.operation(), Operation::ListDevices);
    assert!(req.idempotency_key.is_none());
}

#[test]
fn frame_round_trip() {
    let payload = br#"{"hello":"world"}"#.to_vec();
    let frame = write_frame(&payload).expect("frame should write");
    assert_eq!(&frame[0..4], &[0, 0, 0, 17]);
    let out = read_frame(&frame, DEFAULT_MAX_PAYLOAD_BYTES).expect("frame should read");
    assert!(matches!(out, FrameProgress::Payload(bytes) if bytes == payload));
}

#[test]
fn frames_ask_for_the_bytes_they_need() {
    let needed = |bytes: &[u8]| match read_frame(bytes, 100) {
        Ok(FrameProgress::NeedBytes(n)) => n,
        other => panic!("bytes are missing: {other:?}"),
    };
    assert_eq!(needed(&[]), 4);
    assert_eq!(needed(&[0, 0, 0]), 4);
    assert_eq!(needed(&[0, 0, 0, 100]), 104);
    assert_eq!(needed(&[0, 0, 0, 2, 9]), 6);
    assert_eq!(read_frame(&[0, 0, 0, 0], 100).expect_err("empty"), "payload length must be > 0");
    assert_eq!(
        read_frame(&[0, 0, 1, 0], 100).expect_err("too long"),
        "payload length 256 exceeds max 100"
    );
}

#[test]
fn stream_may_end_between_frames_only() {
    assert_eq!(end_of_stream(0), StreamEnd::Over);
    assert_eq!(end_of_stream(3), StreamEnd::Over);
    assert_eq!(end_of_stream(4), StreamEnd::CutShort);
}

#[test]
fn malformed_envelopes_are_refused() {
    let good = || envelope(br#"{"version":"v1","request_id":" r ","op":"Health","body":{}}"#)
        .expect("valid JSON");
    let refused = |envelope: Result<RequestEnvelope, String>| {
        decode_request(envelope).expect_err("refused")
    };

    let err = refused(Err("expected value".to_string()));
    assert_eq!(err.request_id, None);
    assert_eq!(err.error.message, "invalid JSON payload: expected value");

    let err = refused(Ok(RequestEnvelope { version: "v2".to_string(), ..good() }));
    assert_eq!(err.error.message, "unsupported protocol version 'v2' (expected 'v1')");
    assert_eq!(PROTOCOL_VERSION, "v1");

    let err = refused(Ok(RequestEnvelope { request_id: "  ".to_string(), ..good() }));
    assert_eq!(err.error.message, "request_id must be non-empty");
    assert_eq!(err.request_id.as_deref(), Some("  "));

    let body = EnvelopeBody::AddDevice(Err("missing field".to_string()));
    let keyed = |body| RequestEnvelope {
        idempotency_key: Some("k".to_string()),
        body,
        ..good()
    };
    let err = refused(Ok(keyed(body)));
    assert_eq!(err.error.message, "invalid AddDevice body: missing field");
    assert_eq!(err.request_id.as_deref(), Some(" r "));
    assert_eq!(err.error.code, ErrorCode::InvalidArgument);

    let blank = AddDeviceRequest {
        volume_id: " \t".to_string(),
        ublk_device_id: None,
        overrides: None,
    };
    let err = refused(Ok(keyed(EnvelopeBody::AddDevice(Ok(blank)))));
    assert_eq!(err.error.message, "AddDevice body.volume_id must be non-empty");

    let nothing = RemoveDeviceRequest { device_id: None, volume_id: None, force: true };
    let err = refused(Ok(keyed(EnvelopeBody::RemoveDevice(Ok(nothing)))));
    assert_eq!(err.error.message, "RemoveDevice requires device_id or volume_id");

    let err = refused(Ok(RequestEnvelope {
        idempotency_key: Some("  ".to_string()),
        body: EnvelopeBody::RemoveDevice(Err(String::new())),
        ..good()
    }));
    assert_eq!(
        err.error.message,
        "idempotency_key is required and non-empty for RemoveDevice"
    );
    assert_eq!(err.request_id.as_deref(), Some(" r "));

    let request = decode_request(Ok(good())).expect("valid");
    assert_eq!(request.request_id, " r ");
    let response = ResponseEnvelope::from_protocol_error(ProtocolError::invalid(None, "m"));
    assert_eq!(refusal(&response), (ErrorCode::InvalidArgument, "m"));
}

#[test]
fn responses_carry_the_request_id_as_it_was_sent() {
    let mut manager = ControlManager::new(8, 128, 128);
    let answer = |manager: &mut ControlManager, payload: &[u8]| {
        let frame = write_frame(payload).expect("frame");
        answer_without_a_service(manager, &frame).request_id
    };
    let health = br#"{"version":"v1","request_id":" req-1 ","op":"Health","body":{}}"#;
    assert_eq!(answer(&mut manager, health), " req-1 ");
    let keyless = br#"{"version":"v1","request_id":"\treq-2","op":"AddDevice","body":{"volume_id":"v"}}"#;
    assert_eq!(answer(&mut manager, keyless), "\treq-2");
    let failing = br#"{"version":"v1","request_id":"req-3 ","idempotency_key":"k","op":"AddDevice","body":{"volume_id":"v"}}"#;
    assert_eq!(answer(&mut manager, failing), "req-3 ");
    assert_eq!(answer(&mut manager, failing), "req-3 ");
}

#[test]
fn fingerprints_are_the_json_of_the_body() {
    let bytes = |body: RequestBody| {
        let request =
            ControlRequest { request_id: "r".to_string(), idempotency_key: None, body };
        String::from_utf8(request.body_fingerprint().expect("serializable")).expect("text")
    };
    let plain = AddDeviceRequest {
        volume_id: "vol \"a\"\n\u{1}\u{e9}\\".to_string(),
        ublk_device_id: Some(7),
        overrides: Some("{\"x\":1}".to_string()),
    };
    assert_eq!(
        bytes(RequestBody::AddDevice(plain)),
        "{\"volume_id\":\"vol \\\"a\\\"\\n\\u0001\u{e9}\\\\\",\"ublk_device_id\":7,\"overrides\":{\"x\":1}}"
    );
    let remove = RemoveDeviceRequest { device_id: Some(3), volume_id: None, force: true };
    assert_eq!(
        bytes(RequestBody::RemoveDevice(remove)),
        r#"{"device_id":3,"volume_id":null,"force":true}"#
    );
    assert_eq!(
        bytes(RequestBody::ListDevices(ListDevicesRequest::default())),
        r#"{"device_id":null,"volume_id":null,"state":null}"#
    );
    assert_eq!(bytes(RequestBody::Health(HealthRequest {})), "{}");
}

#[test]
fn add_device_replay_returns_same_result() {
    let mut manager = ControlManager::new(8, 128, 128);
    let request = parse_request(
        r#"{
            "version":"v1",
            "request_id":"req-1",
            "idempotency_key":"key-1",
            "op":"AddDevice",
            "body":{"volume_id":"vol-a"}
        }"#,
    );
    let replay = parse_request(
        r#"{
            "version":"v1",
            "request_id":"req-2",
            "idempotency_key":"key-1",
            "op":"AddDevice",
            "body":{"volume_id":"vol-a"}
        }"#,
    );

    let first = manager.handle_request(request);
    let second = manager.handle_request(replay);

    assert!(first.ok);
    assert!(second.ok);
    assert_eq!(first.result, second.result);
    assert_eq!(second.request_id, "req-2");
}

#[test]
fn add_device_reuse_key_with_different_body_is_rejected() {
    let mut manager = ControlManager::new(8, 128, 128);
    let first = parse_request(
        r#"{
            "version":"v1",
            "request_id":"req-1",
            "idempotency_key":"key-1",
            "op":"AddDevice",
            "body":{"volume_id":"vol-a"}
        }"#,
    );
    let second = parse_request(
        r#"{
            "version":"v1",
            "request_id":"req-2",
            "idempotency_key":"key-1",
            "op":"AddDevice",
            "body":{"volume_id":"vol-b"}
        }"#,
    );

    assert!(manager.handle_request(first).ok);
    let response = manager.handle_request(second);
    assert!(!response.ok);
    let error = response.error.expect("error body should exist");
    assert_eq!(error.code, ErrorCode::InvalidArgument);
}

#[test]
fn add_device_rejects_duplicate_active_volume() {
    let mut manager = ControlManager::new(8, 128, 128);
    let first = parse_request(
        r#"{
            "version":"v1",
            "request_id":"req-1",
            "idempotency_key":"key-1",
            "op":"AddDevice",
            "body":{"volume_id":"vol-a"}
        }"#,
    );
    let second = parse_request(
        r#"{
            "version":"v1",
            "request_id":"req-2",
            "idempotency_key":"key-2",
            "op":"AddDevice",
            "body":{"volume_id":"vol-a"}
        }"#,
    );

    assert!(manager.handle_request(first).ok);
    let response = manager.handle_request(second);
    assert!(!response.ok);
    let error = response.error.expect("error body should exist");
    assert_eq!(error.code, ErrorCode::AlreadyExists);
}

#[test]
fn remove_device_missing_target_returns_not_found() {
    let mut manager = ControlManager::new(8, 128, 128);
    let request = parse_request(
        r#"{
            "version":"v1",
            "request_id":"req-1",
            "idempotency_key":"remove-1",
            "op":"RemoveDevice",
            "body":{"volume_id":"missing"}
        }"#,
    );

    let response = manager.handle_request(request);
    assert!(!response.ok);
    assert_eq!(
        response.error.as_ref().map(|value| value.code.clone()),
        Some(ErrorCode::NotFound)
    );
}

#[test]
fn add_device_returns_unavailable_when_open_volume_fails() {
    let mut manager = ControlManager::new(8, 128, 128);
    let frame = write_frame(
        br#"{"version":"v1","request_id":"req-1","idempotency_key":"key-1","op":"AddDevice","body":{"volume_id":"vol-a"}}"#,
    )
    .expect("frame");
    let response = answer_without_a_service(&mut manager, &frame);
    assert!(!response.ok);
    assert_eq!(
        response.error.as_ref().map(|value| &value.code),
        Some(&ErrorCode::Unavailable)
    );
    assert_eq!(
        refusal(&response).1,
        "failed to open volume 'vol-a' (retryable): connect failed after 1 attempts: connection refused"
    );
}

#[test]
fn add_device_failure_is_idempotent() {
    let mut manager = ControlManager::new(8, 128, 128);
    let first = write_frame(
        br#"{"version":"v1","request_id":"req-1","idempotency_key":"key-1","op":"AddDevice","body":{"volume_id":"vol-a"}}"#,
    )
    .expect("frame");
    let second = write_frame(
        br#"{"version":"v1","request_id":"req-2","idempotency_key":"key-1","op":"AddDevice","body":{"volume_id":"vol-a"}}"#,
    )
    .expect("frame");
    let first = answer_without_a_service(&mut manager, &first);
    let second = answer_without_a_service(&mut manager, &second);

    assert!(!first.ok);
    assert!(!second.ok);
    assert_eq!(first.error, second.error);
    assert_eq!(second.request_id, "req-2");
}

#[test]
fn devices_get_the_lowest_free_numbers_and_stable_paths() {
    let mut manager = ControlManager::new(8, 128, 128);
    assert_eq!(added_device(&manager.handle_request(add("r", "k0", "a", None))), 0);
    assert_eq!(added_device(&manager.handle_request(add("r", "k1", "b", Some(1)))), 1);
    assert_eq!(added_device(&manager.handle_request(add("r", "k2", "c", None))), 2);
    let devices = listed(&manager, None);
    let seen: Vec<(u32, &str, &str)> = devices
        .iter()
        .map(|d| (d.device_id, d.device_path.as_str(), d.volume_id.as_str()))
        .collect();
    assert_eq!(
        seen,
        vec![(0, "/dev/ublkb0", "a"), (1, "/dev/ublkb1", "b"), (2, "/dev/ublkb2", "c")]
    );
    assert!(devices.iter().all(|d| d.state == DeviceState::Serving && d.last_error.is_none()));
}

#[test]
fn limits_and_numbers_in_use_are_refused() {
    let mut manager = ControlManager::new(2, 128, 128);
    assert!(manager.handle_request(add("r", "k0", "a", Some(5))).ok);
    let response = manager.handle_request(add("r", "k1", "b", Some(5)));
    assert_eq!(
        refusal(&response),
        (ErrorCode::AlreadyExists, "device_id '5' is already in use")
    );
    assert!(manager.handle_request(add("r", "k2", "b", None)).ok);
    let response = manager.handle_request(add("r", "k3", "c", None));
    assert_eq!(refusal(&response), (ErrorCode::Unavailable, "max_devices=2 reached"));
    let response = manager.handle_request(add("r", "k4", "  ", None));
    assert_eq!(
        refusal(&response),
        (ErrorCode::InvalidArgument, "volume_id must be non-empty")
    );
    let mut keyless = add("r", "k5", "d", None);
    keyless.idempotency_key = Some("  ".to_string());
    let response = manager.handle_request(keyless);
    assert_eq!(
        refusal(&response),
        (ErrorCode::InvalidArgument, "idempotency_key is required for mutating operations")
    );
}

#[test]
fn removed_volume_can_be_attached_again() {
    let mut manager = ControlManager::new(1, 128, 128);
    assert!(manager.handle_request(add("r", "k0", "a", None)).ok);
    let response = manager.handle_request(remove("r1", "k1", "a"));
    let Some(ResponseResult::RemoveDevice(result)) = response.result else {
        panic!("removed");
    };
    assert_eq!(result.device_id, Some(0));
    assert_eq!(result.volume_id.as_deref(), Some("a"));
    assert_eq!((result.state, result.noop), (DeviceState::Detached, false));
    assert!(manager.handle_request(add("r", "k2", "a", None)).ok);
}

#[test]
fn removing_a_detached_device_again_changes_nothing() {
    let mut manager = ControlManager::new(8, 128, 128);
    manager.handle_request(add("r", "k0", "a", None));
    manager.handle_request(remove("r", "k1", "a"));
    let body = RemoveDeviceRequest { device_id: Some(0), volume_id: None, force: false };
    let RemovePreparation::Immediate(response) =
        manager.prepare_remove_device("again".to_string(), &body)
    else {
        panic!("nothing is left to do");
    };
    let Some(ResponseResult::RemoveDevice(result)) = response.result else {
        panic!("a success");
    };
    assert!(result.noop);
    assert_eq!(result.state, DeviceState::Detached);
}

#[test]
fn add_runs_through_its_states() {
    let mut manager = ControlManager::new(8, 128, 128);
    let pending = started(&mut manager, add("r0", "k0", "a", None));
    assert_eq!((pending.device_id, pending.volume_id.as_str()), (0, "a"));
    assert_eq!(listed(&manager, None)[0].state, DeviceState::OpeningVolume);
    let finished = finish_add(&mut manager, pending, Ok(()));
    assert!(finished.response.ok);
    assert!(!finished.stop_runtime);
    assert_eq!(finished.response.request_id, "r0");
    assert_eq!(listed(&manager, Some("Serving")).len(), 1);

    let repeated = answered(&mut manager, add("r1", "k0", "a", None));
    assert_eq!(repeated.result, finished.response.result);
    assert_eq!(repeated.request_id, "r1");

    let pending = stopped(&mut manager, remove("r2", "k1", "a"));
    assert_eq!(listed(&manager, None)[0].state, DeviceState::Draining);
    let response = finish_remove(&mut manager, pending, true);
    let Some(ResponseResult::RemoveDevice(result)) = &response.result else {
        panic!("removed");
    };
    assert_eq!(result.state, DeviceState::ForceDetached);
    let repeated = answered(&mut manager, remove("r3", "k1", "a"));
    assert_eq!(repeated.result, response.result);
}

#[test]
fn failed_device_degrades_the_service() {
    let mut manager = ControlManager::new(8, 128, 128);
    let health = |manager: &ControlManager| match manager.health("h".to_string()).result {
        Some(ResponseResult::Health(health)) => health,
        other => panic!("health is expected, not {other:?}"),
    };
    assert_eq!(health(&manager).status, "ok");
    manager.handle_request(add("r", "k0", "a", None));
    let pending = started(&mut manager, add("r", "k1", "b", None));
    let failure = startup_dropped("channel closed");
    let finished = finish_add(&mut manager, pending, Err(failure));
    assert_eq!(
        refusal(&finished.response),
        (ErrorCode::Internal, "runtime startup channel dropped: channel closed")
    );
    let result = health(&manager);
    assert_eq!(result.status, "degraded");
    assert_eq!((result.active_devices, result.total_devices), (1, 2));
    assert_eq!(result.degraded_devices.len(), 1);
    assert_eq!(result.degraded_devices[0].state, DeviceState::Failed);
    assert_eq!(
        result.degraded_devices[0].last_error.as_deref(),
        Some("runtime startup channel dropped: channel closed")
    );
    let response = manager.list_devices(
        "l".to_string(),
        ListDevicesRequest { device_id: None, volume_id: None, state: Some("gone".to_string()) },
    );
    assert_eq!(
        refusal(&response),
        (ErrorCode::InvalidArgument, "unknown state filter 'gone'")
    );
}

#[test]
fn operations_out_of_turn_are_refused() {
    let mut manager = ControlManager::new(8, 128, 128);
    let response = manager.mark_device_opening(9).expect_err("no such device");
    assert_eq!(refusal(&response), (ErrorCode::NotFound, "device_id '9' not found"));
    assert_eq!(response.request_id, "add-device:9");
    let response = manager.finalize_add_success("r".to_string(), 9);
    assert_eq!(
        refusal(&response),
        (ErrorCode::Internal, "device_id '9' missing before final add transition")
    );
    let response = manager.complete_remove_device("r".to_string(), 9, false);
    assert_eq!(refusal(&response), (ErrorCode::NotFound, "device_id '9' not found"));
    manager.handle_request(add("r", "k0", "a", None));
    let response = manager.complete_remove_device("r".to_string(), 0, false);
    assert_eq!(
        refusal(&response),
        (ErrorCode::Busy, "device_id '0' cannot complete remove from state 'Serving'")
    );
    stopped(&mut manager, remove("r", "k1", "a"));
    let response = answered(&mut manager, remove("r", "k2", "a"));
    assert_eq!(refusal(&response), (ErrorCode::Busy, "device_id '0' is already draining"));
}

fn reserved(manager: &mut ControlManager, id: &str, volume: &str) -> Result<u32, ResponseEnvelope> {
    let body = AddDeviceRequest {
        volume_id: volume.to_string(),
        ublk_device_id: None,
        overrides: None,
    };
    let reservation = manager.reserve_add_device(id.to_string(), &body)?;
    Ok(reservation.device_id)
}

#[test]
fn volume_of_a_draining_device_is_taken() {
    let mut manager = ControlManager::new(8, 128, 128);
    assert_eq!(reserved(&mut manager, "r1", "vol-a"), Ok(0));
    let body = RemoveDeviceRequest { device_id: Some(0), volume_id: None, force: false };
    assert!(matches!(
        manager.prepare_remove_device("r2".to_string(), &body),
        RemovePreparation::Draining { device_id: 0, .. }
    ));
    let response = reserved(&mut manager, "r3", " vol-a").expect_err("still taken");
    assert_eq!(
        refusal(&response),
        (ErrorCode::AlreadyExists, "volume_id 'vol-a' is already attached")
    );
    let by_volume = RemoveDeviceRequest {
        device_id: None,
        volume_id: Some("vol-a".to_string()),
        force: false,
    };
    let RemovePreparation::Immediate(response) =
        manager.prepare_remove_device("r4".to_string(), &by_volume)
    else {
        panic!("busy");
    };
    assert_eq!(refusal(&response), (ErrorCode::Busy, "device_id '0' is already draining"));
    assert!(manager.complete_remove_device("r5".to_string(), 0, false).ok);
    let RemovePreparation::Immediate(response) =
        manager.prepare_remove_device("r6".to_string(), &by_volume)
    else {
        panic!("removed already");
    };
    assert!(matches!(
        response.result,
        Some(ResponseResult::RemoveDevice(result))
            if result.noop && result.state == DeviceState::Detached
    ));
    assert_eq!(reserved(&mut manager, "r7", "vol-a"), Ok(1));
}

#[test]
fn volume_of_a_draining_device_does_not_hide_another_device() {
    let mut manager = ControlManager::new(8, 128, 128);
    manager.handle_request(add("r", "k0", "vol-a", None));
    manager.handle_request(add("r", "k1", "vol-b", None));
    stopped(&mut manager, remove("r", "k2", "vol-a"));
    let body = RemoveDeviceRequest {
        device_id: Some(1),
        volume_id: Some("vol-a".to_string()),
        force: false,
    };
    assert!(matches!(
        manager.prepare_remove_device("r".to_string(), &body),
        RemovePreparation::Draining { device_id: 1, volume_id, .. } if volume_id == "vol-b"
    ));
}

#[test]
fn repeated_removal_is_answered_the_same() {
    let mut manager = ControlManager::new(8, 128, 128);
    manager.handle_request(add("r", "k0", "a", None));
    let first = manager.handle_request(remove("r1", "k1", "a"));
    manager.handle_request(add("r", "k2", "a", None));
    let before = listed(&manager, None);
    let again = manager.handle_request(remove("r2", "k1", "a"));
    assert_eq!((again.ok, &again.result), (true, &first.result));
    assert_eq!(again.request_id, "r2");
    assert_eq!(listed(&manager, None), before);
}

#[test]
fn states_follow_each_other_in_order() {
    let mut manager = ControlManager::new(8, 128, 128);
    let state = |manager: &ControlManager| listed(manager, None)[0].state;
    assert_eq!(reserved(&mut manager, "r1", "vol-a"), Ok(0));
    let response = manager.finalize_add_success("r1".to_string(), 0);
    assert_eq!(
        refusal(&response),
        (ErrorCode::Busy, "device_id '0' cannot complete add from state 'Allocating'")
    );
    assert_eq!(state(&manager), DeviceState::Allocating);
    assert_eq!(manager.mark_device_opening(0), Ok(()));
    assert_eq!(manager.mark_device_opening(0), Ok(()));
    let response = manager.finalize_add_success("r1".to_string(), 0);
    assert!(response.ok);
    let again = manager.finalize_add_success("r1".to_string(), 0);
    assert_eq!(again, response);
    let response = manager.mark_device_opening(0).expect_err("it serves");
    assert_eq!(
        refusal(&response),
        (ErrorCode::Busy, "device_id '0' cannot open its volume from state 'Serving'")
    );
    assert_eq!(state(&manager), DeviceState::Serving);
    stopped(&mut manager, remove("r2", "k", "vol-a"));
    assert!(manager.mark_device_opening(0).is_err());
    assert!(!manager.finalize_add_success("r3".to_string(), 0).ok);
    assert_eq!(state(&manager), DeviceState::Draining);
}

#[test]
fn terminal_device_stays_as_it_is() {
    let mut manager = ControlManager::new(8, 128, 128);
    assert_eq!(reserved(&mut manager, "r1", "vol-a"), Ok(0));
    let response =
        manager.fail_add_device("r1".to_string(), 0, ErrorCode::Internal, "x".to_string());
    assert_eq!(refusal(&response), (ErrorCode::Internal, "x"));
    let before = listed(&manager, None);
    assert_eq!(before[0].state, DeviceState::Failed);
    let response = manager.finalize_add_success("r2".to_string(), 0);
    assert_eq!(
        refusal(&response),
        (ErrorCode::Busy, "device_id '0' cannot complete add from state 'Failed'")
    );
    let response = manager.mark_device_opening(0).expect_err("it failed");
    assert_eq!(
        refusal(&response),
        (ErrorCode::Busy, "device_id '0' is in terminal state 'Failed'")
    );
    let response =
        manager.fail_add_device("r3".to_string(), 0, ErrorCode::Internal, "y".to_string());
    assert_eq!(
        refusal(&response),
        (ErrorCode::Busy, "device_id '0' is in terminal state 'Failed'")
    );
    assert_eq!(listed(&manager, None), before);

    manager.handle_request(add("r", "k0", "vol-b", None));
    manager.handle_request(remove("r", "k1", "vol-b"));
    let before = listed(&manager, Some("Detached"));
    assert_eq!(before.len(), 1);
    let id = before[0].device_id;
    let response =
        manager.fail_add_device("r4".to_string(), id, ErrorCode::Internal, "z".to_string());
    assert_eq!(refusal(&response).0, ErrorCode::Busy);
    assert_eq!(listed(&manager, Some("Detached")), before);
}

#[test]
fn start_that_comes_too_late_is_stopped_again() {
    let mut manager = ControlManager::new(8, 128, 128);
    let pending = started(&mut manager, add("r0", "k0", "a", None));
    stopped(&mut manager, remove("r1", "k1", "a"));
    let finished = finish_add(&mut manager, pending, Ok(()));
    assert!(finished.stop_runtime);
    assert_eq!(
        refusal(&finished.response),
        (ErrorCode::Busy, "device_id '0' cannot complete add from state 'Draining'")
    );
}

#[test]
fn outcome_survives_fewer_other_keys_than_the_limit() {
    let mut manager = ControlManager::new(100, 100, 16);
    let first = manager.handle_request(add("r", "k", "v", None));
    for _ in 0..3 {
        for n in 0..15 {
            manager.handle_request(add("r", &format!("k{n}"), &format!("v{n}"), None));
        }
    }
    let again = manager.handle_request(add("r", "k", "v", None));
    assert!(again.ok);
    assert_eq!(again.result, first.result);
}

#[test]
fn memory_of_terminal_devices_is_limited() {
    let mut manager = ControlManager::new(8, 2, 128);
    for n in 0..4 {
        manager.handle_request(add("r", &format!("a{n}"), "v", Some(n)));
        manager.handle_request(remove("r", &format!("r{n}"), "v"));
    }
    let left: Vec<u32> = listed(&manager, None).iter().map(|d| d.device_id).collect();
    assert_eq!(left, vec![2, 3]);
}

#[test]
fn oldest_outcome_is_forgotten_first() {
    let mut manager = ControlManager::new(100, 100, 16);
    for n in 0..17 {
        assert!(manager.handle_request(add("r", &format!("k{n}"), &format!("v{n}"), None)).ok);
    }
    let remembered = manager.handle_request(add("r", "k1", "v1", None));
    assert!(remembered.ok);
    let forgotten = manager.handle_request(add("r", "k0", "v0", None));
    assert_eq!(
        refusal(&forgotten),
        (ErrorCode::AlreadyExists, "volume_id 'v0' is already attached")
    );
}

#[test]
fn service_settings() {
    let config = ServeConfig::default();
    assert_eq!(config.control_socket, "/tmp/temporal-ublk.sock");
    let config = test_config();
    assert_eq!(stop_timeout(&config, false), Duration::from_millis(20));
    assert_eq!(stop_timeout(&config, true), Duration::from_millis(30));
    let session = build_session_config(&config, "vol");
    assert_eq!((session.volume_id.as_str(), session.retry.max_attempts), ("vol", 1));
    assert_eq!(next_serve_action(ServeEvent::Accepted), ServeAction::Serve);
    assert_eq!(next_serve_action(ServeEvent::AcceptFailed), ServeAction::Continue);
    assert_eq!(next_serve_action(ServeEvent::Signal), ServeAction::ShutDown);
    let fields = vec![("a".to_string(), "1".to_string()), ("b".to_string(), "x y".to_string())];
    assert_eq!(event_line("info", "started", &fields), "level=info event=started a=1 b=x y");
    assert_eq!(event_line("info", "started", &Vec::new()), "level=info event=started");
    let mapped = map_open_error("v", temporal_nbd::errors::TransportError::terminal("gone"));
    assert_eq!(
        (mapped.code, mapped.message.as_str()),
        (ErrorCode::Internal, "failed to open volume 'v' (terminal): gone")
    );
}

#[test]
fn state_filters_are_names_of_states() {
    assert_eq!(DeviceState::parse_filter("ForceDetached"), Some(DeviceState::ForceDetached));
    assert_eq!(DeviceState::parse_filter("serving"), None);
    assert!(DeviceState::Failed.is_terminal());
    assert!(DeviceState::Failed.is_degraded());
    assert!(!DeviceState::Draining.is_terminal());
    assert!(Operation::AddDevice.is_mutating());
    assert!(!Operation::Health.is_mutating());
}

#[test]
fn state_names_and_states_match_one_to_one() {
    let states = [
        DeviceState::Allocating,
        DeviceState::OpeningVolume,
        DeviceState::Serving,
        DeviceState::Draining,
        DeviceState::Detached,
        DeviceState::Failed,
        DeviceState::ForceDetached,
    ];
    for state in states {
        assert_eq!(DeviceState::parse_filter(&format!("{state:?}")), Some(state));
        assert_eq!(state_name(state), format!("{state:?}"));
    }
}

#[test]
fn requests_that_differ_have_different_fingerprints() {
    let bytes = |request: ControlRequest| request.body_fingerprint().expect("serializable");
    assert_eq!(bytes(add("r", "k", "v", None)), bytes(add("s", "l", "v", None)));
    assert_ne!(bytes(add("r", "k", "v", None)), bytes(add("r", "k", "w", None)));
    assert_ne!(bytes(add("r", "k", "v", None)), bytes(add("r", "k", "v", Some(0))));
    assert_ne!(bytes(remove("r", "k", "v")), bytes(remove("r", "k", "w")));
    let with = |overrides: Option<&str>| {
        let body = AddDeviceRequest {
            volume_id: "v".to_string(),
            ublk_device_id: None,
            overrides: overrides.map(str::to_string),
        };
        bytes(ControlRequest { body: RequestBody::AddDevice(body), ..add("r", "k", "v", None) })
    };
    assert_ne!(with(Some("null")), with(Some("{}")));
    assert_ne!(with(None), with(Some("{}")));
    assert_eq!(with(None), with(Some("null")));
}

#[test]
fn key_of_another_operation_is_refused() {
    let mut manager = ControlManager::new(8, 128, 128);
    assert!(manager.handle_request(add("r", "k", "a", None)).ok);
    let message = "idempotency_key was reused with a different operation or payload";
    let response = manager.handle_request(remove("r", "k", "a"));
    assert_eq!(refusal(&response), (ErrorCode::InvalidArgument, message));
    assert!(manager.handle_request(remove("r", "l", "a")).ok);
    let response = answered(&mut manager, remove("r", "l", "b"));
    assert_eq!(refusal(&response), (ErrorCode::InvalidArgument, message));
    assert_eq!(listed(&manager, None).len(), 1);
}

#[test]
fn device_and_volume_of_one_request_must_agree() {
    let mut manager = ControlManager::new(8, 128, 128);
    manager.handle_request(add("r", "k0", "a", None));
    manager.handle_request(add("r", "k1", "b", None));
    let body = |device_id, volume: &str| RemoveDeviceRequest {
        device_id,
        volume_id: Some(volume.to_string()),
        force: false,
    };
    let RemovePreparation::Immediate(response) =
        manager.prepare_remove_device("r".to_string(), &body(Some(1), "a"))
    else {
        panic!("refused");
    };
    assert_eq!(
        refusal(&response),
        (
            ErrorCode::InvalidArgument,
            "device_id and volume_id refer to different active devices"
        )
    );
    let drained = manager.prepare_remove_device("r".to_string(), &body(Some(1), " b "));
    assert!(matches!(
        drained,
        RemovePreparation::Draining { device_id: 1, volume_id, force: false } if volume_id == "b"
    ));
}

#[test]
fn removal_by_volume_finds_the_device_that_changed_last() {
    let mut manager = ControlManager::new(8, 128, 128);
    for n in [3, 1] {
        manager.handle_request(add("r", &format!("a{n}"), "v", Some(n)));
        manager.handle_request(remove("r", &format!("r{n}"), "v"));
    }
    let response = manager.handle_request(remove("r", "again", "v"));
    let Some(ResponseResult::RemoveDevice(result)) = response.result else {
        panic!("a success");
    };
    assert_eq!((result.device_id, result.noop), (Some(1), true));
}

#[test]
fn other_devices_are_left_alone() {
    let mut manager = ControlManager::new(8, 1, 128);
    manager.handle_request(add("r", "k0", "a", None));
    let before = listed(&manager, None).remove(0);
    let pending = started(&mut manager, add("r", "k1", "b", None));
    finish_add(&mut manager, pending, Err(startup_dropped("gone")));
    manager.handle_request(add("r", "k2", "c", None));
    manager.handle_request(remove("r", "k3", "c"));
    assert_eq!(listed(&manager, Some("Serving")), vec![before]);
    assert!(manager.handle_request(add("r", "k4", "b", None)).ok);
    assert!(manager.handle_request(add("r", "k5", "c", None)).ok);
}

#[test]
fn reads_change_nothing_whatever_their_key() {
    let mut manager = ControlManager::new(8, 128, 128);
    manager.handle_request(add("r", "k", "a", None));
    let list = |key: Option<&str>| ControlRequest {
        request_id: "l".to_string(),
        idempotency_key: key.map(str::to_string),
        body: RequestBody::ListDevices(ListDevicesRequest::default()),
    };
    let first = answered(&mut manager, list(None));
    let second = answered(&mut manager, list(Some("k")));
    assert_eq!(first, second);
    assert_eq!(answered(&mut manager, list(None)), first);
}
