//! Creation of a volume.
use temporal_nbd::attach::AttachConfig;
use temporal_nbd::create::{
    build_create_volume_request, default_request_id, on_connected, on_reply, run_create_volume,
    validate_create_volume_response, ConnectOutcome, CreateStep, CreateTask, CreateVolumeConfig,
    CreateVolumeOutcome, CreateVolumeResponse,
};
use temporal_nbd::endpoint::normalize_endpoint;
use temporal_nbd::rpc::{Code, RpcReply};
use temporal_nbd::time::Duration;

fn sample_config() -> CreateVolumeConfig {
    CreateVolumeConfig {
        frontend_endpoint: "127.0.0.1:7233".to_string(),
        namespace: "default".to_string(),
        volume_id: "volume-id".to_string(),
        size_bytes: 1 << 30,
        block_size_bytes: 4096,
        connect_timeout: Duration::from_secs(3),
        rpc_timeout: Duration::from_secs(5),
        request_id: None,
        if_not_exists: false,
    }
}

fn response(volume_id: &str, run_id: &str) -> CreateVolumeResponse {
    CreateVolumeResponse { volume_id: volume_id.to_string(), run_id: run_id.to_string() }
}

fn started(config: CreateVolumeConfig) -> CreateTask {
    let CreateStep::Connect(task) = run_create_volume(config) else {
        panic!("connect first");
    };
    task
}

fn called(config: CreateVolumeConfig) -> CreateTask {
    let task = started(config);
    let CreateStep::Call(task, _) =
        on_connected(task, ConnectOutcome::Connected, "fallback".to_string())
    else {
        panic!("call");
    };
    task
}

fn outcome(step: CreateStep) -> Result<CreateVolumeOutcome, String> {
    match step {
        CreateStep::Done(result) => result,
        CreateStep::Connect(_) | CreateStep::Call(_, _) => panic!("the work is over"),
    }
}

#[test]
fn create_normalize_endpoint_adds_http_when_missing() {
    assert_eq!(normalize_endpoint("127.0.0.1:7233"), "http://127.0.0.1:7233");
}

#[test]
fn create_normalize_endpoint_keeps_existing_scheme() {
    assert_eq!(normalize_endpoint("http://127.0.0.1:7233"), "http://127.0.0.1:7233");
    assert_eq!(normalize_endpoint("https://example.com:443"), "https://example.com:443");
}

#[test]
fn workflow_smoke_normalize_endpoint_adds_http_when_missing() {
    assert_eq!(normalize_endpoint("127.0.0.1:7233"), "http://127.0.0.1:7233");
}

#[test]
fn workflow_smoke_normalize_endpoint_keeps_existing_scheme() {
    assert_eq!(normalize_endpoint("http://127.0.0.1:7233"), "http://127.0.0.1:7233");
    assert_eq!(normalize_endpoint("https://example.com:443"), "https://example.com:443");
}

#[test]
fn default_request_id_has_expected_prefix() {
    let request_id = default_request_id(4711, 1_700_000_000_000_000_000_000);
    assert!(request_id.starts_with("temporal-nbd-create-"));
    assert!(request_id.len() > "temporal-nbd-create-".len());
    assert_eq!(request_id, "temporal-nbd-create-4711-1700000000000000000000");
}

#[test]
fn build_create_volume_request_sets_workflowservice_fields() {
    let config = sample_config();
    let request =
        build_create_volume_request(&config, "req-123".to_string()).expect("request should build");

    assert_eq!(request.namespace, config.namespace);
    assert_eq!(request.volume_id, config.volume_id);
    assert_eq!(request.size_bytes, config.size_bytes as i64);
    assert_eq!(request.block_size_bytes, config.block_size_bytes as i32);
    assert_eq!(request.request_id, "req-123");
}

#[test]
fn validate_create_volume_response_rejects_empty_run_id() {
    let response = response("volume-id", "");
    let err = validate_create_volume_response(&response, &"volume-id".to_string())
        .expect_err("empty run id must fail");
    assert!(err.contains("empty run_id"));
}

#[test]
fn sizes_that_do_not_fit_are_refused() {
    let mut config = sample_config();
    config.size_bytes = u64::MAX;
    let err = build_create_volume_request(&config, String::new()).expect_err("too large");
    assert_eq!(err, "size_bytes must be <= i64::MAX");
    let mut config = sample_config();
    config.block_size_bytes = 1 << 31;
    let err = build_create_volume_request(&config, String::new()).expect_err("too large");
    assert_eq!(err, "block_size_bytes must be <= i32::MAX");
    let mut config = sample_config();
    config.size_bytes = 0;
    let err = outcome(run_create_volume(config)).expect_err("nothing to create");
    assert_eq!(err, "size_bytes must be > 0");
}

#[test]
fn request_id_given_wins_over_the_fallback() {
    let mut config = sample_config();
    config.request_id = Some("mine".to_string());
    let task = started(config);
    let CreateStep::Call(_, request) =
        on_connected(task, ConnectOutcome::Connected, "fallback".to_string())
    else {
        panic!("call");
    };
    assert_eq!(request.request_id, "mine");
    let task = started(sample_config());
    let CreateStep::Call(_, request) =
        on_connected(task, ConnectOutcome::Connected, "fallback".to_string())
    else {
        panic!("call");
    };
    assert_eq!(request.request_id, "fallback");
}

#[test]
fn connections_that_fail_are_told() {
    let task = started(sample_config());
    let step = on_connected(task, ConnectOutcome::InvalidEndpoint, String::new());
    assert_eq!(
        outcome(step).expect_err("invalid"),
        "invalid frontend endpoint: http://127.0.0.1:7233"
    );
    let task = started(sample_config());
    let step = on_connected(task, ConnectOutcome::Failed, String::new());
    assert_eq!(
        outcome(step).expect_err("failed"),
        "failed to connect to frontend endpoint: http://127.0.0.1:7233"
    );
}

#[test]
fn replies_decide_the_outcome() {
    let step = on_reply(called(sample_config()), RpcReply::Answer(response("volume-id", "run-1")));
    assert_eq!(
        outcome(step),
        Ok(CreateVolumeOutcome::Created { run_id: "run-1".to_string() })
    );
    let step = on_reply(called(sample_config()), RpcReply::Answer(response("other", "run-1")));
    assert_eq!(
        outcome(step),
        Err("CreateVolume returned unexpected volume_id: got other, want volume-id".to_string())
    );
    let step = on_reply(called(sample_config()), RpcReply::TimedOut);
    assert_eq!(outcome(step), Err("CreateVolume timed out after 5s".to_string()));
}

#[test]
fn existing_volume_is_accepted_only_where_asked() {
    let exists = || RpcReply::Status { code: Code::AlreadyExists, message: "there".to_string() };
    assert_eq!(
        outcome(on_reply(called(sample_config()), exists())),
        Err(
            "CreateVolume failed with Some entity that we attempted to create already exists (there)"
                .to_string()
        )
    );
    let mut config = sample_config();
    config.if_not_exists = true;
    assert_eq!(
        outcome(on_reply(called(config), exists())),
        Ok(CreateVolumeOutcome::AlreadyExists)
    );
    let mut config = sample_config();
    config.if_not_exists = true;
    let denied = RpcReply::Status { code: Code::PermissionDenied, message: "no".to_string() };
    assert!(outcome(on_reply(called(config), denied)).is_err());
}

#[test]
fn attach_settings_reach_their_parts() {
    let config = AttachConfig {
        frontend_endpoint: "host:1".to_string(),
        namespace: "ns".to_string(),
        volume_id: "vol".to_string(),
        device_path: "/dev/nbd3".to_string(),
        connect_timeout: Duration::from_secs(1),
        rpc_timeout: Duration::from_secs(2),
        retry_max_attempts: 7,
        retry_initial_backoff: Duration::from_millis(3),
        retry_max_backoff: Duration::from_millis(4),
        dirty_high_watermark_blocks: 9,
        flush_retry_deadline: Duration::from_secs(10),
        flush_retry_interval: Duration::from_millis(11),
        request_queue_capacity: 12,
        nbd_timeout_secs: 13,
    };
    let session = config.session_config();
    assert_eq!((session.frontend_endpoint.as_str(), session.namespace.as_str()), ("host:1", "ns"));
    assert_eq!(session.volume_id, "vol");
    assert_eq!(session.retry.max_attempts, 7);
    assert_eq!(session.retry.max_backoff, Duration::from_millis(4));
    let engine = config.engine_config();
    assert_eq!(engine.dirty_high_watermark_blocks, 9);
    assert_eq!(engine.flush_retry_interval, Duration::from_millis(11));
    let nbd = config.nbd_config();
    assert_eq!((nbd.device_path.as_str(), nbd.timeout_secs), ("/dev/nbd3", 13));
}
