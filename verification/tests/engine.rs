//! The block cache, driven by a backend in memory and a clock that only pauses move.
use std::collections::{BTreeMap, VecDeque};
use temporal_nbd::engine::{
    BlockWrite, CachingBlockEngine, EngineConfig, EngineStep, VolumeGeometry, MAX_BLOCKS_PER_RPC,
};
use temporal_nbd::errors::{EngineError, TransportError};
use temporal_nbd::time::Duration;

#[derive(Debug)]
struct MockTransport {
    block_size: usize,
    backend: BTreeMap<u64, Vec<u8>>,
    read_calls: Vec<(u64, u32)>,
    write_batches: Vec<Vec<u64>>,
    write_calls: usize,
    fail_on_write_calls: VecDeque<usize>,
    fail_writes: VecDeque<TransportError>,
    fail_close: Option<TransportError>,
    disconnected: bool,
}

impl MockTransport {
    fn new(block_size: usize) -> Self {
        Self {
            block_size,
            backend: BTreeMap::new(),
            read_calls: Vec::new(),
            write_batches: Vec::new(),
            write_calls: 0,
            fail_on_write_calls: VecDeque::new(),
            fail_writes: VecDeque::new(),
            fail_close: None,
            disconnected: false,
        }
    }

    fn with_block(mut self, lba: u64, fill: u8) -> Self {
        self.backend.insert(lba, vec![fill; self.block_size]);
        self
    }

    fn read_blocks(&mut self, start_lba: u64, block_count: u32) -> Result<Vec<u8>, TransportError> {
        self.read_calls.push((start_lba, block_count));
        let mut out = Vec::new();
        for offset in 0..u64::from(block_count) {
            match self.backend.get(&(start_lba + offset)) {
                Some(block) => out.extend_from_slice(block),
                None => out.extend(std::iter::repeat(0_u8).take(self.block_size)),
            }
        }
        Ok(out)
    }

    fn write_batch(&mut self, writes: &[BlockWrite]) -> Result<(), TransportError> {
        self.write_calls += 1;
        if self.fail_on_write_calls.is_empty() {
            if let Some(err) = self.fail_writes.pop_front() {
                return Err(err);
            }
        } else if self.fail_on_write_calls.front() == Some(&self.write_calls) {
            self.fail_on_write_calls.pop_front();
            if let Some(err) = self.fail_writes.pop_front() {
                return Err(err);
            }
        }
        self.write_batches.push(writes.iter().map(|write| write.lba).collect());
        for write in writes {
            self.backend.insert(write.lba, write.data.clone());
        }
        Ok(())
    }

    fn disconnect(&mut self) -> Result<(), TransportError> {
        self.disconnected = true;
        match self.fail_close.take() {
            Some(err) => Err(err),
            None => Ok(()),
        }
    }
}

type Engine = CachingBlockEngine<MockTransport>;

fn drive(engine: &mut Engine, first: EngineStep) -> Result<Vec<u8>, EngineError> {
    let mut elapsed_millis = 0_u64;
    let mut step = first;
    loop {
        step = match step {
            EngineStep::Read(task) => {
                let reply = engine.transport_mut().read_blocks(task.lba, task.chunk_blocks);
                engine.read_reply(task, reply)
            }
            EngineStep::Write(task) => {
                let reply = engine.transport_mut().write_batch(&task.writes);
                engine.write_reply(task, reply, Duration::from_millis(elapsed_millis))
            }
            EngineStep::Pause(task) => {
                elapsed_millis += (task.interval.as_nanos() / 1_000_000) as u64;
                engine.resume_flush(task)
            }
            EngineStep::Close(task) => {
                let reply = engine.transport_mut().disconnect();
                engine.close_reply(task, reply)
            }
            EngineStep::Done(result) => return result,
        };
    }
}

fn read(engine: &mut Engine, start_lba: u64, block_count: u32) -> Result<Vec<u8>, EngineError> {
    let step = engine.read_blocks(start_lba, block_count);
    drive(engine, step)
}

fn write(engine: &mut Engine, start_lba: u64, data: &[u8]) -> Result<Vec<u8>, EngineError> {
    let step = engine.write_blocks(start_lba, data);
    drive(engine, step)
}

fn flush(engine: &mut Engine) -> Result<Vec<u8>, EngineError> {
    let step = engine.flush();
    drive(engine, step)
}

fn disconnect(engine: &mut Engine) -> Result<Vec<u8>, EngineError> {
    let step = engine.disconnect();
    drive(engine, step)
}

fn geometry(block_size: u32, total_blocks: u64) -> VolumeGeometry {
    VolumeGeometry::new(u64::from(block_size) * total_blocks, block_size).expect("valid geometry")
}

fn config(watermark: usize, deadline_millis: u64) -> EngineConfig {
    EngineConfig {
        dirty_high_watermark_blocks: watermark,
        flush_retry_deadline: Duration::from_millis(deadline_millis),
        flush_retry_interval: Duration::from_millis(1),
    }
}

fn test_config() -> EngineConfig {
    config(4096, 50)
}

fn message(err: &EngineError) -> &str {
    match err {
        EngineError::InvalidRequest { message } => message,
        EngineError::Io { message } => message,
    }
}

fn numbered_payload(blocks: u32) -> Vec<u8> {
    let mut payload = Vec::new();
    for i in 0_u32..blocks {
        payload.extend_from_slice(&i.to_le_bytes());
    }
    payload
}

#[test]
fn read_overlays_dirty_blocks() {
    let transport =
        MockTransport::new(4).with_block(1, 0x11).with_block(2, 0x22).with_block(3, 0x33);
    let mut engine = CachingBlockEngine::new(geometry(4, 16), transport, test_config());

    write(&mut engine, 2, &[0xAA, 0xAA, 0xAA, 0xAA]).expect("write succeeds");

    let data = read(&mut engine, 1, 3).expect("read should succeed");

    assert_eq!(&data[0..4], &[0x11, 0x11, 0x11, 0x11]);
    assert_eq!(&data[4..8], &[0xAA, 0xAA, 0xAA, 0xAA]);
    assert_eq!(&data[8..12], &[0x33, 0x33, 0x33, 0x33]);
}

#[test]
fn flush_chunks_write_batches_to_contract_limit() {
    let payload = numbered_payload(700);
    let mut engine =
        CachingBlockEngine::new(geometry(4, 2000), MockTransport::new(4), test_config());

    write(&mut engine, 0, &payload).expect("write succeeds");
    flush(&mut engine).expect("flush succeeds");

    let transport = engine.into_transport();
    assert_eq!(transport.write_batches.len(), 2);
    assert_eq!(transport.write_batches[0].len(), 512);
    assert_eq!(transport.write_batches[1].len(), 188);
}

#[test]
fn read_chunks_requests_to_contract_limit() {
    let mut engine =
        CachingBlockEngine::new(geometry(4, 2000), MockTransport::new(4), test_config());

    let data = read(&mut engine, 0, 600).expect("read should succeed");
    assert_eq!(data.len(), 600 * 4);

    let transport = engine.into_transport();
    assert_eq!(transport.read_calls, vec![(0, 512), (512, 88)]);
}

#[test]
fn high_watermark_flush_failure_returns_io_and_preserves_dirty() {
    let mut transport = MockTransport::new(4);
    for _ in 0..64 {
        transport.fail_writes.push_back(TransportError::retryable("temporary backend outage"));
    }

    let mut engine = CachingBlockEngine::new(geometry(4, 128), transport, config(2, 5));

    write(&mut engine, 0, &[1, 1, 1, 1]).expect("first write should queue dirty block");

    let err = write(&mut engine, 1, &[2, 2, 2, 2]).expect_err("high-water flush should fail");
    assert!(matches!(err, EngineError::Io { .. }));
    assert_eq!(engine.dirty_count(), 2);
}

#[test]
fn flush_retries_retryable_failures_until_success() {
    let mut transport = MockTransport::new(4);
    transport.fail_writes.push_back(TransportError::retryable("transient error"));

    let mut engine = CachingBlockEngine::new(geometry(4, 128), transport, config(4096, 50));

    write(&mut engine, 0, &[1, 2, 3, 4]).expect("write succeeds");
    flush(&mut engine).expect("flush should eventually succeed");

    assert_eq!(engine.dirty_count(), 0);
    let transport = engine.into_transport();
    assert_eq!(transport.write_batches.len(), 1);
}

#[test]
fn flush_retries_only_failed_tail_chunk() {
    let payload = numbered_payload(700);

    let mut transport = MockTransport::new(4);
    transport.fail_on_write_calls.push_back(2);
    transport.fail_writes.push_back(TransportError::retryable("second chunk transient error"));

    let mut engine = CachingBlockEngine::new(geometry(4, 2000), transport, config(4096, 50));

    write(&mut engine, 0, &payload).expect("write succeeds");
    flush(&mut engine).expect("flush should eventually succeed");

    let transport = engine.into_transport();
    assert_eq!(transport.write_batches.len(), 2);
    assert_eq!(transport.write_batches[0].len(), 512);
    assert_eq!(transport.write_batches[1].len(), 188);
    assert_eq!(transport.write_batches[0][0], 0);
    assert_eq!(transport.write_batches[0][511], 511);
    assert_eq!(transport.write_batches[1][0], 512);
    assert_eq!(transport.write_batches[1][187], 699);
}

#[test]
fn write_rejects_unaligned_payload() {
    let mut engine =
        CachingBlockEngine::new(geometry(4, 128), MockTransport::new(4), test_config());

    let err = write(&mut engine, 0, &[1, 2, 3]).expect_err("unaligned write should fail");

    assert!(matches!(err, EngineError::InvalidRequest { .. }));
    assert_eq!(err.errno(), libc::EINVAL);
}

#[test]
fn disconnect_flushes_then_disconnects_transport() {
    let mut engine =
        CachingBlockEngine::new(geometry(4, 128), MockTransport::new(4), test_config());

    write(&mut engine, 0, &[1, 2, 3, 4]).expect("write succeeds");
    disconnect(&mut engine).expect("disconnect should succeed");

    let transport = engine.into_transport();
    assert!(transport.disconnected);
    assert_eq!(transport.backend.get(&0).cloned(), Some(vec![1, 2, 3, 4]));
}

#[test]
fn geometry_validation_rejects_unaligned_size() {
    let err = VolumeGeometry::new(1000, 512).expect_err("should reject unaligned size");
    assert!(matches!(err, EngineError::InvalidRequest { .. }));
}

#[test]
fn geometry_validation_rejects_zero_block_size() {
    let err = VolumeGeometry::new(1024, 0).expect_err("should reject zero block size");
    assert!(matches!(err, EngineError::InvalidRequest { .. }));
}

#[test]
fn geometry_counts_blocks_and_says_what_is_wrong() {
    let geometry = VolumeGeometry::new(1 << 30, 4096).expect("valid");
    assert_eq!(geometry.total_blocks, 262_144);
    assert_eq!(
        VolumeGeometry::new(0, 512).expect_err("zero size").describe(),
        "invalid request: size_bytes must be > 0"
    );
    assert_eq!(
        VolumeGeometry::new(1000, 512).expect_err("unaligned").describe(),
        "invalid request: size_bytes must be a multiple of block_size_bytes"
    );
    assert_eq!(
        VolumeGeometry::new(1000, 0).expect_err("no blocks").describe(),
        "invalid request: block_size_bytes must be > 0"
    );
}

#[test]
fn zero_watermark_counts_as_one() {
    let mut engine =
        CachingBlockEngine::new(geometry(4, 8), MockTransport::new(4), config(0, 50));
    write(&mut engine, 3, &[9, 9, 9, 9]).expect("write flushes at once");
    assert_eq!(engine.dirty_count(), 0);
    assert_eq!(engine.into_transport().write_batches, vec![vec![3]]);
}

#[test]
fn default_settings() {
    let config = EngineConfig::default();
    assert_eq!(config.dirty_high_watermark_blocks, 2048);
    assert_eq!(config.flush_retry_deadline.as_secs(), 20);
    assert_eq!(config.flush_retry_interval.as_nanos(), 200_000_000);
    assert_eq!(MAX_BLOCKS_PER_RPC, 512);
}

#[test]
fn last_write_wins_before_and_after_a_flush() {
    let mut engine =
        CachingBlockEngine::new(geometry(2, 8), MockTransport::new(2), test_config());
    write(&mut engine, 1, &[1, 1, 2, 2]).expect("first");
    write(&mut engine, 2, &[7, 8]).expect("second");
    assert_eq!(engine.dirty_count(), 2);
    assert_eq!(read(&mut engine, 0, 4).expect("read"), vec![0, 0, 1, 1, 7, 8, 0, 0]);
    flush(&mut engine).expect("flush");
    assert_eq!(engine.dirty_count(), 0);
    assert_eq!(read(&mut engine, 0, 4).expect("read"), vec![0, 0, 1, 1, 7, 8, 0, 0]);
}

#[test]
fn terminal_flush_failure_keeps_content_readable() {
    let mut transport = MockTransport::new(2);
    transport.fail_writes.push_back(TransportError::terminal("no such volume"));
    let mut engine = CachingBlockEngine::new(geometry(2, 8), transport, test_config());
    write(&mut engine, 5, &[4, 5]).expect("write");
    let err = flush(&mut engine).expect_err("terminal");
    assert_eq!(err.errno(), libc::EIO);
    assert_eq!(err.describe(), "i/o error: no such volume");
    assert_eq!(engine.dirty_count(), 1);
    assert_eq!(read(&mut engine, 5, 1).expect("read"), vec![4, 5]);
}

#[test]
fn batches_are_ascending_whatever_the_write_order() {
    let mut engine =
        CachingBlockEngine::new(geometry(1, 64), MockTransport::new(1), test_config());
    for lba in [9_u64, 3, 63, 0, 3] {
        write(&mut engine, lba, &[lba as u8]).expect("write");
    }
    flush(&mut engine).expect("flush");
    assert_eq!(engine.into_transport().write_batches, vec![vec![0, 3, 9, 63]]);
}

#[test]
fn range_errors_name_the_range() {
    let mut engine =
        CachingBlockEngine::new(geometry(4, 16), MockTransport::new(4), test_config());
    let err = read(&mut engine, 15, 2).expect_err("past the end");
    assert_eq!(message(&err), "request out of range: end_lba 17 > total_blocks 16");
    let err = read(&mut engine, u64::MAX, 1).expect_err("overflow");
    assert_eq!(message(&err), "request range overflows u64");
    let err = read(&mut engine, 0, 0).expect_err("nothing to read");
    assert_eq!(message(&err), "block_count must be > 0");
    let err = write(&mut engine, 0, &[]).expect_err("nothing to write");
    assert_eq!(message(&err), "write payload must not be empty");
    let err = write(&mut engine, 0, &[1, 2, 3]).expect_err("unaligned");
    assert_eq!(message(&err), "write payload len 3 is not aligned to block size 4");
    let err = write(&mut engine, 16, &[1, 2, 3, 4]).expect_err("past the end");
    assert_eq!(err.errno(), libc::EINVAL);
    assert!(engine.into_transport().read_calls.is_empty());
}

#[test]
fn short_backend_read_is_an_io_error() {
    let engine: Engine =
        CachingBlockEngine::new(geometry(4, 16), MockTransport::new(4), test_config());
    let EngineStep::Read(task) = engine.read_blocks(0, 3) else {
        panic!("a read is needed");
    };
    let EngineStep::Done(Err(err)) = engine.read_reply(task, Ok(vec![0; 5])) else {
        panic!("the read is over");
    };
    assert_eq!(err.describe(), "i/o error: backend returned 5 bytes for 3 blocks (expected 12)");
}

#[test]
fn failed_backend_read_is_an_io_error() {
    let engine: Engine =
        CachingBlockEngine::new(geometry(4, 16), MockTransport::new(4), test_config());
    let EngineStep::Read(task) = engine.read_blocks(0, 3) else {
        panic!("a read is needed");
    };
    let EngineStep::Done(Err(err)) =
        engine.read_reply(task, Err(TransportError::retryable("gone")))
    else {
        panic!("the read is over");
    };
    assert_eq!(err.describe(), "i/o error: gone");
}

#[test]
fn disconnect_prefers_the_flush_failure() {
    let mut transport = MockTransport::new(4);
    transport.fail_writes.push_back(TransportError::terminal("flush failed"));
    transport.fail_close = Some(TransportError::terminal("close failed"));
    let mut engine = CachingBlockEngine::new(geometry(4, 16), transport, test_config());
    write(&mut engine, 0, &[1, 2, 3, 4]).expect("write");
    let err = disconnect(&mut engine).expect_err("both fail");
    assert_eq!(message(&err), "flush failed");
    assert!(engine.transport_mut().disconnected);

    engine.transport_mut().fail_close = Some(TransportError::terminal("close failed"));
    let err = disconnect(&mut engine).expect_err("the close fails");
    assert_eq!(message(&err), "close failed");
    assert_eq!(engine.dirty_count(), 0);
}

#[test]
fn transport_errors_describe_themselves() {
    let retryable = TransportError::retryable("a");
    let terminal = TransportError::terminal("b");
    assert!(retryable.is_retryable());
    assert!(!terminal.is_retryable());
    assert_eq!(retryable.describe(), "retryable transport error: a");
    assert_eq!(terminal.describe(), "terminal transport error: b");
    assert_eq!(EngineError::io("x").errno(), libc::EIO);
    assert_eq!(EngineError::invalid("x").errno(), libc::EINVAL);
}
