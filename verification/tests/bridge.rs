//! Requests in bytes, and the loop that serves them.
use std::collections::VecDeque;
use temporal_nbd::bridge::{
    handle_request, next_loop_action, offset_len_to_lba, queue_capacity, BridgeCommand,
    BridgeResponse, LoopAction, LoopEvent,
};
use temporal_nbd::engine::{CachingBlockEngine, EngineConfig, EngineStep, VolumeGeometry};
use temporal_nbd::errors::EngineError;
use temporal_nbd::time::Duration;

#[derive(Default)]
struct FakeBackend {
    disconnected: bool,
    writes: usize,
}

type Engine = CachingBlockEngine<FakeBackend>;

fn engine() -> Engine {
    let geometry = VolumeGeometry::new(4096 * 1024, 4096).expect("valid geometry");
    CachingBlockEngine::new(geometry, FakeBackend::default(), EngineConfig::default())
}

fn finish(engine: &mut Engine, first: EngineStep) -> Result<Vec<u8>, EngineError> {
    let mut step = first;
    loop {
        step = match step {
            EngineStep::Read(task) => {
                let data = vec![0_u8; task.chunk_blocks as usize * 4096];
                engine.read_reply(task, Ok(data))
            }
            EngineStep::Write(task) => {
                engine.transport_mut().writes += task.writes.len();
                engine.write_reply(task, Ok(()), Duration::from_secs(0))
            }
            EngineStep::Pause(task) => engine.resume_flush(task),
            EngineStep::Close(task) => {
                engine.transport_mut().disconnected = true;
                engine.close_reply(task, Ok(()))
            }
            EngineStep::Done(result) => return result,
        };
    }
}

fn run_engine_loop(engine: &mut Engine, commands: Vec<BridgeCommand>) -> Vec<BridgeResponse> {
    let mut queue: VecDeque<BridgeCommand> = commands.into();
    let mut responses = Vec::new();
    loop {
        let event = match queue.pop_front() {
            None => LoopEvent::QueueClosed,
            Some(command) => {
                let ends_session = command.ends_session();
                let step = handle_request(engine, 4096, command);
                let result = finish(engine, step);
                responses.push(BridgeResponse::from_result(result));
                LoopEvent::Answered { ends_session }
            }
        };
        match next_loop_action(event) {
            LoopAction::Continue => {}
            LoopAction::DisconnectAndExit => {
                let step = engine.disconnect();
                let _ = finish(engine, step);
                return responses;
            }
            LoopAction::Exit => return responses,
        }
    }
}

#[test]
fn offset_len_to_lba_rejects_unaligned_offset() {
    let err = offset_len_to_lba(3, 4096, 4096).expect_err("unaligned offset must fail");
    assert!(matches!(err, EngineError::InvalidRequest { .. }));
}

#[test]
fn offset_len_to_lba_translates_aligned_ranges() {
    let (lba, count) = offset_len_to_lba(8192, 12288, 4096).expect("must translate");
    assert_eq!(lba, 2);
    assert_eq!(count, 3);
}

#[test]
fn run_engine_loop_disconnects_on_command() {
    let mut engine = engine();
    let responses = run_engine_loop(&mut engine, vec![BridgeCommand::Disconnect]);
    assert_eq!(responses[0].errno, 0);
    assert!(engine.into_transport().disconnected);
}

#[test]
fn read_command_returns_data() {
    let mut engine = engine();
    let command = BridgeCommand::Read { offset_bytes: 0, length_bytes: 4096 };
    let responses = run_engine_loop(&mut engine, vec![command]);
    assert_eq!(responses[0].errno, 0);
    assert_eq!(responses[0].data.len(), 4096);
}

#[test]
fn closed_queue_disconnects_after_a_final_flush() {
    let mut engine = engine();
    let command = BridgeCommand::Write { offset_bytes: 4096, data: vec![7; 8192] };
    let responses = run_engine_loop(&mut engine, vec![command]);
    assert_eq!((responses[0].errno, responses[0].data.len()), (0, 0));
    let backend = engine.into_transport();
    assert!(backend.disconnected);
    assert_eq!(backend.writes, 2);
}

#[test]
fn commands_after_a_disconnect_are_not_served() {
    let mut engine = engine();
    let responses =
        run_engine_loop(&mut engine, vec![BridgeCommand::Disconnect, BridgeCommand::Flush]);
    assert_eq!(responses.len(), 1);
    assert_eq!(next_loop_action(LoopEvent::Shutdown), LoopAction::DisconnectAndExit);
}

#[test]
fn requests_out_of_order_are_refused_without_a_backend_call() {
    let mut engine = engine();
    let commands = vec![
        BridgeCommand::Read { offset_bytes: 1, length_bytes: 4096 },
        BridgeCommand::Read { offset_bytes: 4096 * 1024, length_bytes: 4096 },
        BridgeCommand::Write { offset_bytes: 0, data: vec![0; 10] },
        BridgeCommand::Write { offset_bytes: 0, data: Vec::new() },
    ];
    for command in commands {
        let step = handle_request(&mut engine, 4096, command);
        let EngineStep::Done(Err(err)) = step else {
            panic!("refused at once");
        };
        assert_eq!(err.errno(), libc::EINVAL);
    }
    assert_eq!(engine.dirty_count(), 0);
}

#[test]
fn translation_errors_are_exact() {
    let text = |err: EngineError| err.describe();
    assert_eq!(
        text(offset_len_to_lba(0, 1, 0).expect_err("no block size")),
        "invalid request: block size must be > 0"
    );
    assert_eq!(
        text(offset_len_to_lba(0, 0, 4096).expect_err("no length")),
        "invalid request: request length must be > 0"
    );
    assert_eq!(
        text(offset_len_to_lba(3, 4096, 4096).expect_err("offset")),
        "invalid request: offset 3 is not aligned to block size 4096"
    );
    assert_eq!(
        text(offset_len_to_lba(0, 4097, 4096).expect_err("length")),
        "invalid request: length 4097 is not aligned to block size 4096"
    );
    assert_eq!(
        text(offset_len_to_lba(0, 1 << 32, 1).expect_err("too many blocks")),
        "invalid request: block_count does not fit into u32"
    );
}

#[test]
fn responses_carry_error_numbers() {
    let failed = BridgeResponse::from_error(EngineError::io("x"));
    assert_eq!((failed.errno, failed.data.len()), (libc::EIO, 0));
    let ok = BridgeResponse::ok(vec![1, 2]);
    assert_eq!((ok.errno, ok.data), (0, vec![1, 2]));
    let closed = BridgeResponse::queue_closed("channel closed");
    assert_eq!(closed.errno, libc::EIO);
    assert_eq!(closed.data, b"bridge queue closed: channel closed".to_vec());
    let dropped = BridgeResponse::response_dropped("gone");
    assert_eq!(dropped.clone().data, b"bridge response dropped: gone".to_vec());
    assert_eq!(queue_capacity(0), 1);
    assert_eq!(queue_capacity(1024), 1024);
}

#[test]
fn bytes_written_are_read_back() {
    let mut engine = engine();
    let data: Vec<u8> = (0..8192_u32).map(|i| (i % 251) as u8).collect();
    let responses = run_engine_loop(
        &mut engine,
        vec![
            BridgeCommand::Write { offset_bytes: 12288, data: data.clone() },
            BridgeCommand::Read { offset_bytes: 12288, length_bytes: 8192 },
        ],
    );
    assert_eq!(responses[1].errno, 0);
    assert_eq!(responses[1].data, data);
}
