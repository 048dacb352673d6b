//! The runtime of a device, its numbers, and the counters of the service.
use temporal_nbd::ublk::metrics::UblkMetrics;
use temporal_nbd::ublk::runtime::{
    check_start, claim_device_id, claim_record, claim_specific_device, claim_tried,
    cleanup_device_claim, device_lock_path, device_path, force_detach_device, preflight,
    preflight_opened, silent_end_error, validate_queue_model, ClaimOutcome, ClaimStep,
    DeviceStartConfig, RemovalOutcome, RuntimeError, RuntimeErrorKind, SilentEnd,
    UBLK_MAX_DEVICE_ID, UBLK_MAX_QUEUE_DEPTH,
};

fn told<T: std::fmt::Debug>(result: Result<T, RuntimeError>) -> (RuntimeErrorKind, String) {
    let err = result.expect_err("refused");
    (err.kind, err.describe())
}

fn claim(taken: &[u32], requested: Option<u32>) -> Result<u32, RuntimeError> {
    let mut step = claim_device_id(requested, Ok(()));
    loop {
        step = match step {
            ClaimStep::Claim(task) => {
                let outcome = if taken.contains(&task.device_id) {
                    ClaimOutcome::Taken
                } else {
                    ClaimOutcome::Claimed
                };
                claim_tried(task, outcome)
            }
            ClaimStep::Done(result) => return result,
        };
    }
}

fn start_config() -> DeviceStartConfig {
    DeviceStartConfig {
        control_device: "/dev/ublk-control".to_string(),
        volume_id: "vol".to_string(),
        requested_device_id: None,
        size_bytes: 4096,
        block_size_bytes: 512,
        queues: 1,
        queue_depth: 128,
    }
}

#[test]
fn validate_queue_model_rejects_zero() {
    assert!(validate_queue_model(0, 128).is_err());
    assert!(validate_queue_model(1, 0).is_err());
}

#[test]
fn validate_queue_model_rejects_too_deep() {
    assert!(validate_queue_model(1, UBLK_MAX_QUEUE_DEPTH + 1).is_err());
}

#[test]
fn lock_path_uses_expected_layout() {
    let path = device_lock_path(7);
    assert!(path.ends_with("ublkb7.lock"));
    assert_eq!(path, "/tmp/temporal-ublk/devices/ublkb7.lock");
}

#[test]
fn queue_models_within_the_limits_are_accepted() {
    assert_eq!(validate_queue_model(1, UBLK_MAX_QUEUE_DEPTH), Ok(()));
    assert_eq!(
        told(validate_queue_model(1, 5000)),
        (RuntimeErrorKind::InvalidArgument, "ublk_queue_depth must be <= 4096".to_string())
    );
    assert_eq!(device_path(12), "/dev/ublkb12");
    assert_eq!(claim_record("vol-a"), "volume_id=vol-a\n");
}

#[test]
fn host_is_checked_before_a_device_starts() {
    assert_eq!(preflight(true, true, true, "/dev/x"), Ok(()));
    assert_eq!(
        told(preflight(false, true, true, "/dev/x")),
        (
            RuntimeErrorKind::InvalidArgument,
            "ublk runtime is only supported on Linux hosts".to_string()
        )
    );
    assert_eq!(
        told(preflight(true, false, true, "/dev/x")),
        (
            RuntimeErrorKind::Unavailable,
            "UBLK control device /dev/x does not exist".to_string()
        )
    );
    assert_eq!(
        told(preflight(true, true, false, "/dev/x")).0,
        RuntimeErrorKind::Unavailable
    );
    assert_eq!(preflight_opened(true, "/dev/x"), Ok(()));
    assert_eq!(told(preflight_opened(false, "/dev/x")).1, "failed to open /dev/x");
}

#[test]
fn start_settings_are_checked() {
    assert_eq!(check_start(&start_config()), Ok(()));
    let refused = |config: DeviceStartConfig| told(check_start(&config)).1;
    assert_eq!(
        refused(DeviceStartConfig { size_bytes: 0, ..start_config() }),
        "volume size must be greater than zero"
    );
    assert_eq!(
        refused(DeviceStartConfig { block_size_bytes: 0, ..start_config() }),
        "block size must be greater than zero"
    );
    assert_eq!(
        refused(DeviceStartConfig { queues: 0, ..start_config() }),
        "ublk_queues must be greater than zero"
    );
}

#[test]
fn lowest_free_number_is_claimed() {
    assert_eq!(claim(&[], None), Ok(0));
    assert_eq!(claim(&[0, 1, 3], None), Ok(2));
    assert_eq!(claim(&[0], Some(9)), Ok(9));
    assert_eq!(
        told(claim(&[9], Some(9))).1,
        "device_id '9' is already in use"
    );
    let all: Vec<u32> = (0..=4).collect();
    assert_eq!(claim(&all, None), Ok(5));
}

#[test]
fn numbers_out_of_range_are_refused() {
    assert_eq!(
        told(claim(&[], Some(65_536))).1,
        "requested device_id '65536' is out of supported range (max 65535)"
    );
    assert_eq!(claim(&[], Some(UBLK_MAX_DEVICE_ID)), Ok(65_535));
    let ClaimStep::Done(result) = claim_device_id(None, Err("denied".to_string())) else {
        panic!("no directory");
    };
    assert_eq!(
        told(result).1,
        "failed to create ublk runtime state dir /tmp/temporal-ublk/devices: denied"
    );
}

#[test]
fn last_number_taken_ends_the_search() {
    let ClaimStep::Claim(mut task) = claim_device_id(None, Ok(())) else {
        panic!("a claim");
    };
    task.device_id = UBLK_MAX_DEVICE_ID;
    let ClaimStep::Done(result) = claim_tried(task, ClaimOutcome::Taken) else {
        panic!("the end");
    };
    assert_eq!(
        told(result).1,
        "no free ublk device id available in local runtime allocator"
    );
}

#[test]
fn claims_that_fail_are_told() {
    assert_eq!(
        told(claim_specific_device(4, ClaimOutcome::Failed("denied".to_string()))),
        (
            RuntimeErrorKind::Internal,
            "failed to claim device_id '4' via /tmp/temporal-ublk/devices/ublkb4.lock: denied"
                .to_string()
        )
    );
    assert_eq!(
        told(claim_specific_device(4, ClaimOutcome::WriteFailed("full".to_string()))),
        (
            RuntimeErrorKind::Internal,
            "failed to write /tmp/temporal-ublk/devices/ublkb4.lock: full".to_string()
        )
    );
}

#[test]
fn releasing_a_number_twice_is_fine() {
    assert_eq!(cleanup_device_claim(1, RemovalOutcome::Removed), Ok(()));
    assert_eq!(cleanup_device_claim(1, RemovalOutcome::Missing), Ok(()));
    assert_eq!(
        told(cleanup_device_claim(1, RemovalOutcome::Failed("x".to_string()))).1,
        "failed to release device_id '1' at /tmp/temporal-ublk/devices/ublkb1.lock: x"
    );
    assert_eq!(force_detach_device(1, RemovalOutcome::Missing), Ok(()));
    assert_eq!(
        told(force_detach_device(1, RemovalOutcome::Failed("x".to_string()))).1,
        "failed to remove runtime lock /tmp/temporal-ublk/devices/ublkb1.lock: x"
    );
}

#[test]
fn silent_ends_are_errors() {
    assert_eq!(
        silent_end_error(SilentEnd::JoinFailed("panic".to_string())),
        RuntimeError::internal("ublk runtime join error: panic")
    );
    assert_eq!(
        silent_end_error(SilentEnd::Returned(Ok(()))),
        RuntimeError::internal("ublk runtime exited before signaling readiness")
    );
    assert_eq!(
        silent_end_error(SilentEnd::Returned(Err(RuntimeError::unavailable("x")))),
        RuntimeError::unavailable("x")
    );
    assert_eq!(RuntimeError::invalid_argument("y").describe(), "y");
}

#[test]
fn counters_are_rendered() {
    let mut metrics = UblkMetrics::default();
    metrics.record_add_result(true);
    metrics.record_add_result(true);
    metrics.record_add_result(false);
    metrics.record_remove_result(true, true);
    metrics.record_remove_result(false, false);
    metrics.record_drain_timeout();
    metrics.record_force_detach();
    let lines = [
        "# TYPE temporal_ublk_add_requests_total counter",
        "temporal_ublk_add_requests_total 3",
        "# TYPE temporal_ublk_add_success_total counter",
        "temporal_ublk_add_success_total 2",
        "# TYPE temporal_ublk_add_failures_total counter",
        "temporal_ublk_add_failures_total 1",
        "# TYPE temporal_ublk_remove_requests_total counter",
        "temporal_ublk_remove_requests_total 2",
        "# TYPE temporal_ublk_remove_success_total counter",
        "temporal_ublk_remove_success_total 1",
        "# TYPE temporal_ublk_remove_failures_total counter",
        "temporal_ublk_remove_failures_total 1",
        "# TYPE temporal_ublk_active_devices gauge",
        "temporal_ublk_active_devices 1",
        "# TYPE temporal_ublk_drain_timeouts_total counter",
        "temporal_ublk_drain_timeouts_total 1",
        "# TYPE temporal_ublk_force_detach_total counter",
        "temporal_ublk_force_detach_total 1",
        "",
    ];
    assert_eq!(metrics.render_prometheus(), lines.join("\n"));
    let mut idle = UblkMetrics::default();
    idle.record_remove_result(true, true);
    assert!(idle.render_prometheus().contains("temporal_ublk_active_devices 0\n"));
}
