//! Retries, and the session with the volume service.
use temporal_nbd::endpoint::normalize_endpoint;
use temporal_nbd::engine::BlockWrite;
use temporal_nbd::errors::TransportError;
use temporal_nbd::rpc::{
    after_failure, is_retryable_status, status_to_transport, Code, RetryConfig, RetryDecision,
    RpcFailure, RpcReply, RpcStep,
};
use temporal_nbd::session::{
    accept_open, summarize_writes, OpenAnswer, VolumeSession, VolumeSessionConfig,
    MAX_WRITES_PER_WRITE_BATCH_RPC,
};
use temporal_nbd::time::Duration;

fn retry(max_attempts: usize) -> RetryConfig {
    RetryConfig {
        max_attempts,
        initial_backoff: Duration::from_millis(100),
        max_backoff: Duration::from_millis(450),
    }
}

fn session_config(max_attempts: usize) -> VolumeSessionConfig {
    VolumeSessionConfig {
        frontend_endpoint: "127.0.0.1:7233".to_string(),
        namespace: "default".to_string(),
        volume_id: "vol-a".to_string(),
        connect_timeout: Duration::from_secs(3),
        rpc_timeout: Duration::from_secs(5),
        retry: retry(max_attempts),
    }
}

fn answer(volume_id: &str, size_bytes: i64, block_size_bytes: i32) -> OpenAnswer {
    OpenAnswer { volume_id: volume_id.to_string(), size_bytes, block_size_bytes }
}

fn open_session(max_attempts: usize) -> VolumeSession {
    let RpcStep::Connect(call) = VolumeSession::connect_and_open(session_config(max_attempts))
    else {
        panic!("connect first");
    };
    let RpcStep::Call(call) = VolumeSession::open_connected(call, Ok(())) else {
        panic!("then open");
    };
    let reply = RpcReply::Answer(answer("vol-a", 1 << 20, 4096));
    let RpcStep::Done(Ok(session)) = VolumeSession::open_answered(call, reply) else {
        panic!("open");
    };
    session
}

fn status<A>(code: Code, message: &str) -> RpcReply<A> {
    RpcReply::Status { code, message: message.to_string() }
}

fn writes(count: u64) -> Vec<BlockWrite> {
    (0..count).map(|lba| BlockWrite { lba, data: vec![lba as u8; 4] }).collect()
}

#[test]
fn endpoint_of_any_scheme_is_kept_once_normalized() {
    for raw in ["127.0.0.1:7233", "http://a", "https://b", "", "ftp://c"] {
        let once = normalize_endpoint(raw);
        assert_eq!(normalize_endpoint(&once), once);
    }
    assert_eq!(normalize_endpoint("ftp://c"), "http://ftp://c");
}

#[test]
fn backoff_doubles_up_to_its_limit() {
    let retry = retry(5);
    let millis: Vec<u128> =
        (0..7).map(|n| retry.delay_for_attempt(n).as_nanos() / 1_000_000).collect();
    assert_eq!(millis, vec![100, 100, 200, 400, 450, 450, 450]);
    let wide = RetryConfig {
        max_attempts: 5,
        initial_backoff: Duration::from_millis(1),
        max_backoff: Duration::from_secs(3600),
    };
    assert_eq!(wide.delay_for_attempt(17).as_nanos(), 4_096_000_000);
    assert_eq!(wide.delay_for_attempt(40).as_nanos(), 4_096_000_000);
}

#[test]
fn zero_attempts_count_as_one() {
    assert_eq!(retry(0).capped_attempts(), 1);
    assert_eq!(retry(3).capped_attempts(), 3);
    let default = RetryConfig::default();
    assert_eq!(default.max_attempts, 5);
    assert_eq!(default.initial_backoff.as_nanos(), 150_000_000);
    assert_eq!(default.max_backoff.as_nanos(), 2_000_000_000);
}

#[test]
fn status_codes_keep_their_numbers_and_texts() {
    for number in 0..17 {
        let code = Code::from_i32(number);
        assert_eq!(code.to_i32(), number);
        assert_eq!(code.describe(), tonic::Code::from_i32(number).to_string());
    }
    assert_eq!(Code::from_i32(99), Code::Unknown);
    assert_eq!(Code::from_i32(-1), Code::Unknown);
    assert_eq!(Code::Unavailable.describe(), "The service is currently unavailable");
}

#[test]
fn passing_failures_are_told_from_lasting_ones() {
    let passing: Vec<i32> =
        (0..17).filter(|n| is_retryable_status(Code::from_i32(*n))).collect();
    assert_eq!(passing, vec![1, 2, 4, 8, 10, 13, 14]);
}

#[test]
fn status_is_told_in_the_error() {
    let err = status_to_transport("ReadBlocks", Code::Unavailable, "no route", true);
    assert_eq!(
        err.describe(),
        "retryable transport error: ReadBlocks failed with The service is currently unavailable (no route)"
    );
    let err = status_to_transport("WriteBatch", Code::NotFound, "gone", false);
    assert_eq!(
        err.describe(),
        "terminal transport error: WriteBatch failed with Some requested entity was not found (gone)"
    );
}

#[test]
fn attempts_end_at_their_limit() {
    let retry = retry(2);
    let timed_out = after_failure(&retry, "ReadBlocks", 1, RpcFailure::TimedOut);
    assert!(matches!(timed_out, RetryDecision::Wait(d) if d == Duration::from_millis(100)));
    let RetryDecision::GiveUp(err) = after_failure(&retry, "ReadBlocks", 2, RpcFailure::TimedOut)
    else {
        panic!("give up");
    };
    assert!(err.is_retryable());
    assert_eq!(
        err.describe(),
        "retryable transport error: ReadBlocks timed out after 2 attempts"
    );
    let lasting = RpcFailure::Status { code: Code::NotFound, message: "x".to_string() };
    let RetryDecision::GiveUp(err) = after_failure(&retry, "ReadBlocks", 1, lasting) else {
        panic!("give up at once");
    };
    assert!(!err.is_retryable());
}

#[test]
fn answer_to_open_is_checked() {
    let volume = "vol-a".to_string();
    let geometry = accept_open(&volume, &answer("vol-a", 8192, 4096)).expect("valid");
    assert_eq!((geometry.size_bytes, geometry.block_size_bytes, geometry.total_blocks), (8192, 4096, 2));
    let text = |a: OpenAnswer| accept_open(&volume, &a).expect_err("refused").describe();
    assert_eq!(
        text(answer("vol-b", 8192, 4096)),
        "terminal transport error: OpenVolume returned mismatched volume_id: got vol-b, want vol-a"
    );
    assert_eq!(
        text(answer("vol-a", -5, 4096)),
        "terminal transport error: OpenVolume returned invalid size_bytes: -5"
    );
    assert_eq!(
        text(answer("vol-a", 8192, -1)),
        "terminal transport error: OpenVolume returned invalid block_size_bytes: -1"
    );
    assert_eq!(
        text(answer("vol-a", 8191, 4096)),
        "terminal transport error: invalid volume geometry from OpenVolume: invalid request: size_bytes must be a multiple of block_size_bytes"
    );
}

#[test]
fn opening_gives_up_after_the_last_attempt() {
    let RpcStep::Connect(call) = VolumeSession::connect_and_open(session_config(2)) else {
        panic!("connect first");
    };
    assert_eq!(call.endpoint_url, "http://127.0.0.1:7233");
    let RpcStep::Sleep(call, delay) =
        VolumeSession::open_connected(call, Err("refused".to_string()))
    else {
        panic!("wait");
    };
    assert_eq!(delay, Duration::from_millis(100));
    let RpcStep::Connect(call) = VolumeSession::open_resumed(call) else {
        panic!("connect again");
    };
    assert_eq!(call.attempt, 2);
    let RpcStep::Done(Err(err)) =
        VolumeSession::open_connected(call, Err("refused".to_string()))
    else {
        panic!("give up");
    };
    assert_eq!(
        err.describe(),
        "retryable transport error: connect failed after 2 attempts: refused"
    );
}

#[test]
fn session_of_an_open_volume() {
    let session = open_session(3);
    assert!(session.connected);
    assert_eq!(session.geometry().total_blocks, 256);
    assert_eq!(session.config.volume_id, "vol-a");
}

#[test]
fn failed_read_drops_the_connection_and_is_repeated() {
    let mut session = open_session(2);
    let RpcStep::Call(call) = session.read_blocks(4, 2) else {
        panic!("call");
    };
    let RpcStep::Sleep(call, _) = session.read_answered(call, status(Code::Unavailable, "x"))
    else {
        panic!("wait");
    };
    assert!(!session.connected);
    let RpcStep::Connect(call) = session.read_resumed(call) else {
        panic!("reconnect");
    };
    assert_eq!((call.start_lba, call.block_count, call.attempt), (4, 2, 2));
    let RpcStep::Call(call) = session.read_connected(call, Ok(())) else {
        panic!("call");
    };
    let RpcStep::Done(Ok(data)) = session.read_answered(call, RpcReply::Answer(vec![1, 2])) else {
        panic!("done");
    };
    assert_eq!(data, vec![1, 2]);
    assert!(session.connected);
}

#[test]
fn failed_reconnection_is_told() {
    let mut session = open_session(1);
    session.disconnect().expect("always succeeds");
    let RpcStep::Connect(call) = session.read_blocks(0, 1) else {
        panic!("reconnect");
    };
    let RpcStep::Done(Err(err)) = session.read_connected(call, Err("refused".to_string())) else {
        panic!("give up");
    };
    assert_eq!(err.describe(), "retryable transport error: reconnect failed: refused");
}

#[test]
fn batch_is_sent_in_calls_of_limited_size() {
    let mut session = open_session(1);
    let mut sent = Vec::new();
    let mut step = session.write_batch(writes(150));
    loop {
        step = match step {
            RpcStep::Call(call) => {
                let part: Vec<u64> = call.writes[call.from..call.from + call.count]
                    .iter()
                    .map(|write| write.lba)
                    .collect();
                sent.push(part);
                session.write_answered(call, RpcReply::Answer(()))
            }
            RpcStep::Done(result) => {
                result.expect("written");
                break;
            }
            RpcStep::Connect(_) | RpcStep::Sleep(_, _) => panic!("connected and answered"),
        };
    }
    let sizes: Vec<usize> = sent.iter().map(|part| part.len()).collect();
    assert_eq!(sizes, vec![64, 64, 22]);
    assert_eq!(sent.concat(), (0..150).collect::<Vec<u64>>());
    assert_eq!(MAX_WRITES_PER_WRITE_BATCH_RPC, 64);
    assert_eq!(session.write_rpc_sent, 3);
    assert_eq!(session.write_blocks_sent, 150);
    assert_eq!(session.write_payload_bytes_sent, 600);
}

#[test]
fn failed_part_of_a_batch_is_repeated_alone() {
    let mut session = open_session(2);
    let RpcStep::Call(call) = session.write_batch(writes(100)) else {
        panic!("call");
    };
    let RpcStep::Call(call) = session.write_answered(call, RpcReply::Answer(())) else {
        panic!("second call");
    };
    assert_eq!((call.from, call.count, call.attempt), (64, 36, 1));
    let RpcStep::Sleep(call, _) = session.write_answered(call, RpcReply::TimedOut) else {
        panic!("wait");
    };
    let RpcStep::Connect(call) = session.write_resumed(call) else {
        panic!("reconnect");
    };
    assert_eq!((call.from, call.count, call.attempt), (64, 36, 2));
    let RpcStep::Call(call) = session.write_connected(call, Ok(())) else {
        panic!("call");
    };
    let step = session.write_answered(call, RpcReply::Answer(()));
    assert!(matches!(step, RpcStep::Done(Ok(()))));
    assert_eq!(session.write_rpc_sent, 2);
}

#[test]
fn batch_arrives_in_order_however_often_calls_fail() {
    let mut session = open_session(4);
    let mut answered = Vec::new();
    let mut events = 0;
    let mut step = session.write_batch(writes(150));
    loop {
        events += 1;
        step = match step {
            RpcStep::Connect(call) if events % 4 == 0 => {
                session.write_connected(call, Err("refused".to_string()))
            }
            RpcStep::Connect(call) => session.write_connected(call, Ok(())),
            RpcStep::Call(call) if call.attempt < 2 => {
                session.write_answered(call, status(Code::Unavailable, "busy"))
            }
            RpcStep::Call(call) => {
                answered.push((call.from, call.count));
                session.write_answered(call, RpcReply::Answer(()))
            }
            RpcStep::Sleep(call, _) => session.write_resumed(call),
            RpcStep::Done(result) => {
                result.expect("written");
                break;
            }
        };
    }
    assert_eq!(answered, vec![(0, 64), (64, 64), (128, 22)]);
    assert_eq!(session.write_rpc_sent, 3);
}

#[test]
fn failed_batch_is_not_reported_as_written() {
    let mut session = open_session(1);
    let RpcStep::Call(call) = session.write_batch(writes(65)) else {
        panic!("call");
    };
    let RpcStep::Call(call) = session.write_answered(call, RpcReply::Answer(())) else {
        panic!("second call");
    };
    let step = session.write_answered(call, RpcReply::TimedOut);
    assert!(matches!(step, RpcStep::Done(Err(_))));
}

#[test]
fn nothing_to_write_is_done_at_once() {
    let session = open_session(1);
    assert!(matches!(session.write_batch(Vec::new()), RpcStep::Done(Ok(()))));
    assert_eq!(summarize_writes(&[]), None);
    let batch = vec![
        BlockWrite { lba: 9, data: vec![0; 3] },
        BlockWrite { lba: 2, data: vec![0; 5] },
    ];
    assert_eq!(summarize_writes(&batch), Some((8, 2, 9)));
    assert_eq!(batch[0].clone(), batch[0]);
}

#[test]
fn durations_count_in_nanoseconds() {
    let d = Duration::from_parts(2, 5);
    assert_eq!((d.as_secs(), d.subsec_nanos(), d.as_nanos()), (2, 5, 2_000_000_005));
    assert!(Duration::from_millis(1999).shorter_than(d));
    assert!(!d.shorter_than(d));
    assert_eq!(d.checked_mul(3), Some(Duration::from_parts(6, 15)));
    assert_eq!(Duration::from_secs(u64::MAX).checked_mul(2), None);
    let _: TransportError = TransportError::retryable("x");
}
