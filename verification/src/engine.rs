//! A block cache that stages writes and hands them to a backend in batches.
//!
//! The engine never waits. Each request yields an `EngineStep`: either the request is done, or
//! the step names a backend call (or a pause) to make, and what came of it is handed back.
use crate::errors::{EngineError, EngineErrorView, TransportError, TransportErrorView};
use crate::ordered;
use crate::text;
use crate::time::Duration;
use std::collections::BTreeMap;
use vstd::prelude::*;

verus! {

broadcast use vstd::laws_cmp::group_laws_cmp;

/// The most blocks that one backend call carries.
pub const MAX_BLOCKS_PER_RPC: u32 = 512;

/// The size of a volume and of its blocks.
#[derive(Clone, Copy, Debug, PartialEq, Eq, Structural)]
pub struct VolumeGeometry {
    pub size_bytes: u64,
    pub block_size_bytes: u32,
    pub total_blocks: u64,
}

/// The geometry of a volume of `size_bytes` in blocks of `block_size_bytes`, or why there is none.
pub open spec fn geometry_of(size_bytes: u64, block_size_bytes: u32) -> Result<
    VolumeGeometry,
    EngineErrorView,
> {
    if block_size_bytes == 0 {
        Err(EngineErrorView::InvalidRequest("block_size_bytes must be > 0"@))
    } else if size_bytes == 0 {
        Err(EngineErrorView::InvalidRequest("size_bytes must be > 0"@))
    } else if size_bytes as int % block_size_bytes as int != 0 {
        Err(
            EngineErrorView::InvalidRequest(
                "size_bytes must be a multiple of block_size_bytes"@,
            ),
        )
    } else {
        Ok(
            VolumeGeometry {
                size_bytes,
                block_size_bytes,
                total_blocks: (size_bytes as int / block_size_bytes as int) as u64,
            },
        )
    }
}

impl VolumeGeometry {
    /// A geometry that whole blocks of at least one byte fill exactly.
    pub open spec fn wf(self) -> bool {
        &&& self.block_size_bytes > 0
        &&& self.total_blocks > 0
        &&& self.size_bytes == self.total_blocks * self.block_size_bytes
    }

    /// The geometry of a volume of `size_bytes` in blocks of `block_size_bytes`.
    pub fn new(size_bytes: u64, block_size_bytes: u32) -> (r: Result<Self, EngineError>)
        ensures
            match r {
                Ok(g) => geometry_of(size_bytes, block_size_bytes) == Ok::<
                    VolumeGeometry,
                    EngineErrorView,
                >(g) && g.wf(),
                Err(e) => geometry_of(size_bytes, block_size_bytes) == Err::<
                    VolumeGeometry,
                    EngineErrorView,
                >(e@),
            },
    {
        if block_size_bytes == 0 {
            return Err(EngineError::invalid("block_size_bytes must be > 0"));
        }
        if size_bytes == 0 {
            return Err(EngineError::invalid("size_bytes must be > 0"));
        }
        let block_size: u64 = block_size_bytes as u64;
        if size_bytes % block_size != 0 {
            return Err(EngineError::invalid("size_bytes must be a multiple of block_size_bytes"));
        }
        let total_blocks: u64 = size_bytes / block_size;
        proof {
            vstd::arithmetic::div_mod::lemma_fundamental_div_mod(
                size_bytes as int,
                block_size as int,
            );
            assert(total_blocks * block_size == block_size * total_blocks) by (nonlinear_arith);
            assert(total_blocks > 0) by (nonlinear_arith)
                requires
                    size_bytes > 0,
                    size_bytes == block_size * total_blocks,
            ;
        }
        Ok(VolumeGeometry { size_bytes, block_size_bytes, total_blocks })
    }
}

/// One block to be written.
#[derive(Debug, PartialEq, Eq)]
pub struct BlockWrite {
    pub lba: u64,
    pub data: Vec<u8>,
}

/// What a `BlockWrite` holds.
pub struct BlockWriteView {
    pub lba: u64,
    pub data: Seq<u8>,
}

impl View for BlockWrite {
    type V = BlockWriteView;

    open spec fn view(&self) -> BlockWriteView {
        BlockWriteView { lba: self.lba, data: self.data@ }
    }
}

/// A copy of a byte vector.
pub fn copy_bytes(bytes: &Vec<u8>) -> (r: Vec<u8>)
    ensures
        r@ == bytes@,
{
    let r: Vec<u8> = bytes.clone();
    assert(r@ =~= bytes@);
    r
}

impl Clone for BlockWrite {
    fn clone(&self) -> (r: Self)
        ensures
            r@ == self@,
    {
        BlockWrite { lba: self.lba, data: copy_bytes(&self.data) }
    }
}

/// What a list of block writes holds.
pub open spec fn writes_view(writes: Seq<BlockWrite>) -> Seq<BlockWriteView> {
    Seq::new(writes.len(), |i: int| writes[i]@)
}

/// When staged blocks are flushed, and how long a failing flush is tried again.
#[derive(Clone, Copy, Debug)]
pub struct EngineConfig {
    pub dirty_high_watermark_blocks: usize,
    pub flush_retry_deadline: Duration,
    pub flush_retry_interval: Duration,
}

impl Default for EngineConfig {
    fn default() -> (r: Self)
        ensures
            r.dirty_high_watermark_blocks == 2048,
            r.flush_retry_deadline@ == 20_000_000_000,
            r.flush_retry_interval@ == 200_000_000,
    {
        EngineConfig {
            dirty_high_watermark_blocks: 2048,
            flush_retry_deadline: Duration::from_secs(20),
            flush_retry_interval: Duration::from_millis(200),
        }
    }
}

/// What an engine holds: its volume, its settings, and the blocks written but not yet flushed.
#[verifier::ext_equal]
pub struct EngineState {
    pub geometry: VolumeGeometry,
    pub config: EngineConfig,
    pub dirty: Map<u64, Seq<u8>>,
}

impl EngineState {
    /// Every staged block is a whole block of the volume, and at least one may be staged.
    pub open spec fn wf(self) -> bool {
        &&& self.config.dirty_high_watermark_blocks >= 1
        &&& self.dirty.dom().finite()
        &&& forall|lba: u64| #[trigger]
            self.dirty.contains_key(lba) ==> lba < self.geometry.total_blocks
                && self.dirty[lba].len() == self.geometry.block_size_bytes
    }

    /// The size of one block.
    pub open spec fn block_size(self) -> int {
        self.geometry.block_size_bytes as int
    }

    /// The same engine with other blocks staged.
    pub open spec fn with_dirty(self, dirty: Map<u64, Seq<u8>>) -> EngineState {
        EngineState { dirty, ..self }
    }
}

/// The request that a flush is part of.
#[derive(Clone, Copy, Debug, PartialEq, Eq, Structural)]
pub enum FlushGoal {
    /// A write that reached the high watermark.
    Write,
    /// A flush that was asked for.
    Flush,
    /// The flush before the backend is let go.
    Disconnect,
}

/// A read that waits for `chunk_blocks` blocks from `lba` on.
#[derive(Debug)]
pub struct ReadTask {
    /// Where the whole read starts.
    pub start_lba: u64,
    /// How many blocks the whole read covers.
    pub block_count: u32,
    /// What has arrived so far.
    pub data: Vec<u8>,
    /// The first block to ask the backend for.
    pub lba: u64,
    /// How many blocks to ask the backend for.
    pub chunk_blocks: u32,
}

/// What a `ReadTask` holds.
pub struct ReadTaskView {
    pub start_lba: u64,
    pub block_count: u32,
    pub data: Seq<u8>,
    pub lba: u64,
    pub chunk_blocks: u32,
}

impl View for ReadTask {
    type V = ReadTaskView;

    open spec fn view(&self) -> ReadTaskView {
        ReadTaskView {
            start_lba: self.start_lba,
            block_count: self.block_count,
            data: self.data@,
            lba: self.lba,
            chunk_blocks: self.chunk_blocks,
        }
    }
}

impl ReadTaskView {
    /// The task stands somewhere inside a read of the volume, with everything before it collected.
    pub open spec fn wf(self, geometry: VolumeGeometry) -> bool {
        &&& self.start_lba <= self.lba < self.start_lba + self.block_count
            <= geometry.total_blocks
        &&& self.data.len() == (self.lba - self.start_lba) * geometry.block_size_bytes
        &&& self.block_count * geometry.block_size_bytes <= usize::MAX
        &&& self.chunk_blocks == chunk_size(self.start_lba + self.block_count - self.lba)
    }
}

/// How many of `remaining` blocks the next backend call carries.
pub open spec fn chunk_size(remaining: int) -> int {
    ordered::smaller(remaining, MAX_BLOCKS_PER_RPC as int)
}

/// A batch of staged blocks to be written to the backend.
#[derive(Debug)]
pub struct FlushTask {
    pub goal: FlushGoal,
    pub writes: Vec<BlockWrite>,
}

/// A wait before a failed flush is tried again.
#[derive(Debug)]
pub struct PauseTask {
    pub goal: FlushGoal,
    pub interval: Duration,
}

/// The backend is to be let go.
#[derive(Debug)]
pub struct CloseTask {
    /// What came of the flush before.
    pub flush_result: Result<(), EngineError>,
}

/// What the engine needs next.
#[derive(Debug)]
pub enum EngineStep {
    /// Read blocks from the backend.
    Read(ReadTask),
    /// Write a batch to the backend.
    Write(FlushTask),
    /// Wait.
    Pause(PauseTask),
    /// Let the backend go.
    Close(CloseTask),
    /// The request is done; a read has its data, anything else has none.
    Done(Result<Vec<u8>, EngineError>),
}

/// What an `EngineStep` holds.
pub enum EngineStepView {
    Read(ReadTaskView),
    Write(FlushGoal, Seq<BlockWriteView>),
    Pause(FlushGoal, Duration),
    Close(Result<(), EngineErrorView>),
    Done(Result<Seq<u8>, EngineErrorView>),
}

/// What the outcome of a flush holds.
pub open spec fn flush_result_view(r: Result<(), EngineError>) -> Result<(), EngineErrorView> {
    match r {
        Ok(()) => Ok(()),
        Err(e) => Err(e@),
    }
}

impl View for EngineStep {
    type V = EngineStepView;

    open spec fn view(&self) -> EngineStepView {
        match self {
            EngineStep::Read(task) => EngineStepView::Read(task@),
            EngineStep::Write(task) => EngineStepView::Write(task.goal, writes_view(task.writes@)),
            EngineStep::Pause(task) => EngineStepView::Pause(task.goal, task.interval),
            EngineStep::Close(task) => EngineStepView::Close(flush_result_view(task.flush_result)),
            EngineStep::Done(result) => EngineStepView::Done(
                match result {
                    Ok(data) => Ok(data@),
                    Err(e) => Err(e@),
                },
            ),
        }
    }
}

/// Why `count` blocks from `start_lba` on are not part of the volume, if they are not.
pub open spec fn range_error(total_blocks: u64, start_lba: u64, count: int) -> Option<
    EngineErrorView,
> {
    let end = start_lba + count;
    if end > u64::MAX {
        Some(EngineErrorView::InvalidRequest("request range overflows u64"@))
    } else if end > total_blocks {
        Some(
            EngineErrorView::InvalidRequest(
                "request out of range: end_lba "@ + text::decimal(end as nat)
                    + " > total_blocks "@ + text::decimal(total_blocks as nat),
            ),
        )
    } else {
        None
    }
}

/// The first step of a read.
pub open spec fn read_start(state: EngineState, start_lba: u64, block_count: u32) -> EngineStepView {
    if block_count == 0 {
        EngineStepView::Done(Err(EngineErrorView::InvalidRequest("block_count must be > 0"@)))
    } else {
        match range_error(state.geometry.total_blocks, start_lba, block_count as int) {
            Some(e) => EngineStepView::Done(Err(e)),
            None => if block_count * state.block_size() > usize::MAX {
                EngineStepView::Done(
                    Err(EngineErrorView::InvalidRequest("requested read size is too large"@)),
                )
            } else {
                EngineStepView::Read(
                    ReadTaskView {
                        start_lba,
                        block_count,
                        data: Seq::empty(),
                        lba: start_lba,
                        chunk_blocks: chunk_size(block_count as int) as u32,
                    },
                )
            },
        }
    }
}

/// Bytes read from block `start_lba` on, with the staged blocks laid over them.
pub open spec fn overlay(
    dirty: Map<u64, Seq<u8>>,
    start_lba: u64,
    block_size: int,
    bytes: Seq<u8>,
) -> Seq<u8> {
    Seq::new(
        bytes.len(),
        |i: int|
            {
                let lba = (start_lba + i / block_size) as u64;
                if dirty.contains_key(lba) {
                    dirty[lba][i % block_size]
                } else {
                    bytes[i]
                }
            },
    )
}

/// The step after the backend answered a read.
pub open spec fn read_next(
    state: EngineState,
    task: ReadTaskView,
    reply: Result<Seq<u8>, TransportErrorView>,
) -> EngineStepView {
    match reply {
        Err(e) => EngineStepView::Done(Err(EngineErrorView::Io(e.message()))),
        Ok(chunk) => {
            let expected = task.chunk_blocks * state.block_size();
            if chunk.len() != expected {
                EngineStepView::Done(
                    Err(
                        EngineErrorView::Io(
                            "backend returned "@ + text::decimal(chunk.len()) + " bytes for "@
                                + text::decimal(task.chunk_blocks as nat) + " blocks (expected "@
                                + text::decimal(expected as nat) + ")"@,
                        ),
                    ),
                )
            } else {
                let data = task.data + chunk;
                let lba = task.lba + task.chunk_blocks;
                let end = task.start_lba + task.block_count;
                if lba < end {
                    EngineStepView::Read(
                        ReadTaskView {
                            data,
                            lba: lba as u64,
                            chunk_blocks: chunk_size(end - lba) as u32,
                            ..task
                        },
                    )
                } else {
                    EngineStepView::Done(
                        Ok(overlay(state.dirty, task.start_lba, state.block_size(), data)),
                    )
                }
            }
        },
    }
}

/// What a backend's answer to a read holds.
pub open spec fn read_reply_view(reply: Result<Vec<u8>, TransportError>) -> Result<
    Seq<u8>,
    TransportErrorView,
> {
    match reply {
        Ok(data) => Ok(data@),
        Err(e) => Err(e@),
    }
}

/// Why a write is refused, if it is.
pub open spec fn write_error(state: EngineState, start_lba: u64, data: Seq<u8>) -> Option<
    EngineErrorView,
> {
    let block_size = state.block_size();
    if data.len() == 0 {
        Some(EngineErrorView::InvalidRequest("write payload must not be empty"@))
    } else if block_size == 0 || data.len() as int % block_size != 0 {
        Some(
            EngineErrorView::InvalidRequest(
                "write payload len "@ + text::decimal(data.len())
                    + " is not aligned to block size "@ + text::decimal(block_size as nat),
            ),
        )
    } else {
        range_error(state.geometry.total_blocks, start_lba, data.len() as int / block_size)
    }
}

/// The staged blocks after `data` was written from block `start_lba` on.
pub open spec fn with_blocks(
    dirty: Map<u64, Seq<u8>>,
    start_lba: u64,
    block_size: int,
    data: Seq<u8>,
) -> Map<u64, Seq<u8>> {
    let end = start_lba + data.len() as int / block_size;
    Map::new(
        |lba: u64| dirty.contains_key(lba) || start_lba <= lba < end,
        |lba: u64|
            if start_lba <= lba < end {
                data.subrange((lba - start_lba) * block_size, (lba - start_lba + 1) * block_size)
            } else {
                dirty[lba]
            },
    )
}

/// Whether `lba` is among the blocks of a batch.
pub open spec fn lists(writes: Seq<BlockWriteView>, lba: u64) -> bool {
    exists|i: int| 0 <= i < writes.len() && (#[trigger] writes[i]).lba == lba
}

/// The staged blocks without those of a batch.
pub open spec fn without(dirty: Map<u64, Seq<u8>>, writes: Seq<BlockWriteView>) -> Map<
    u64,
    Seq<u8>,
> {
    Map::new(|lba: u64| dirty.contains_key(lba) && !lists(writes, lba), |lba: u64| dirty[lba])
}

/// Whether `writes` is the next batch of a flush: the staged blocks with the lowest addresses, in
/// ascending order, as many as one backend call carries or all there are.
pub open spec fn is_next_batch(writes: Seq<BlockWriteView>, dirty: Map<u64, Seq<u8>>) -> bool {
    &&& writes.len() == chunk_size(dirty.len() as int)
    &&& forall|i: int, j: int|
        #![trigger writes[i], writes[j]]
        0 <= i < j < writes.len() ==> writes[i].lba < writes[j].lba
    &&& forall|i: int|
        0 <= i < writes.len() ==> dirty.contains_key((#[trigger] writes[i]).lba)
            && dirty[writes[i].lba] == writes[i].data
    &&& forall|lba: u64, i: int|
        #![trigger dirty.contains_key(lba), writes[i]]
        dirty.contains_key(lba) && !lists(writes, lba) && 0 <= i < writes.len() ==> writes[i].lba
            < lba
}

/// The step after the flush of a request is over.
pub open spec fn flush_over(goal: FlushGoal, result: Result<(), EngineErrorView>) -> EngineStepView {
    match goal {
        FlushGoal::Disconnect => EngineStepView::Close(result),
        FlushGoal::Write | FlushGoal::Flush => EngineStepView::Done(
            match result {
                Ok(()) => Ok(Seq::empty()),
                Err(e) => Err(e),
            },
        ),
    }
}

/// Whether `step` carries a flush on: the next batch, or the end where nothing is staged.
pub open spec fn flush_goes_on(
    state: EngineState,
    goal: FlushGoal,
    step: EngineStepView,
) -> bool {
    if state.dirty.len() == 0 {
        step == flush_over(goal, Ok(()))
    } else {
        step matches EngineStepView::Write(g, writes) && g == goal && is_next_batch(
            writes,
            state.dirty,
        )
    }
}

/// Whether a request to write `data` from block `start_lba` on, made of an engine in state
/// `before`, left it in state `after` with `step` to do.
pub open spec fn write_handled(
    before: EngineState,
    start_lba: u64,
    data: Seq<u8>,
    after: EngineState,
    step: EngineStepView,
) -> bool {
    match write_error(before, start_lba, data) {
        Some(e) => after == before && step == EngineStepView::Done(Err(e)),
        None => {
            &&& after == before.with_dirty(
                with_blocks(before.dirty, start_lba, before.block_size(), data),
            )
            &&& if after.dirty.len() >= before.config.dirty_high_watermark_blocks {
                flush_goes_on(after, FlushGoal::Write, step)
            } else {
                step == EngineStepView::Done(Ok(Seq::empty()))
            }
        },
    }
}

/// The step after the backend refused a batch.
pub open spec fn flush_refused(
    state: EngineState,
    goal: FlushGoal,
    error: TransportErrorView,
    elapsed: nat,
) -> EngineStepView {
    if error is Retryable && elapsed < state.config.flush_retry_deadline@ {
        EngineStepView::Pause(goal, state.config.flush_retry_interval)
    } else {
        flush_over(goal, Err(EngineErrorView::Io(error.message())))
    }
}

/// The last step of a disconnect: a failed flush outweighs a failed close.
pub open spec fn closed(
    flush_result: Result<(), EngineErrorView>,
    close_result: Result<(), TransportErrorView>,
) -> EngineStepView {
    EngineStepView::Done(
        match (flush_result, close_result) {
            (Err(e), _) => Err(e),
            (Ok(()), Err(e)) => Err(EngineErrorView::Io(e.message())),
            (Ok(()), Ok(())) => Ok(Seq::empty()),
        },
    )
}

/// What a backend's answer to a batch, or to being let go, holds.
pub open spec fn reply_view(reply: Result<(), TransportError>) -> Result<(), TransportErrorView> {
    match reply {
        Ok(()) => Ok(()),
        Err(e) => Err(e@),
    }
}

/// An engine that stages writes to a volume, beside the backend connection `transport`.
pub struct CachingBlockEngine<T> {
    geometry: VolumeGeometry,
    transport: T,
    config: EngineConfig,
    dirty: BTreeMap<u64, Vec<u8>>,
}

/// The staged blocks as byte sequences.
pub open spec fn blocks_view(dirty: Map<u64, Vec<u8>>) -> Map<u64, Seq<u8>> {
    dirty.map_values(|block: Vec<u8>| block@)
}

impl<T> View for CachingBlockEngine<T> {
    type V = EngineState;

    closed spec fn view(&self) -> EngineState {
        EngineState {
            geometry: self.geometry,
            config: self.config,
            dirty: blocks_view(self.dirty@),
        }
    }
}

fn backend_error(error: TransportError) -> (r: EngineError)
    ensures
        r@ == EngineErrorView::Io(error@.message()),
{
    match error {
        TransportError::Retryable { message } => EngineError::Io { message },
        TransportError::Terminal { message } => EngineError::Io { message },
    }
}

fn flush_end(goal: FlushGoal, result: Result<(), EngineError>) -> (step: EngineStep)
    ensures
        step@ == flush_over(goal, flush_result_view(result)),
{
    match goal {
        FlushGoal::Disconnect => EngineStep::Close(CloseTask { flush_result: result }),
        FlushGoal::Write | FlushGoal::Flush => match result {
            Ok(()) => EngineStep::Done(Ok(Vec::new())),
            Err(e) => EngineStep::Done(Err(e)),
        },
    }
}

proof fn lemma_block_index(i: int, block: int, block_size: int)
    requires
        block_size > 0,
        block * block_size <= i < (block + 1) * block_size,
    ensures
        i / block_size == block,
        i % block_size == i - block * block_size,
{
    assert((block + 1) * block_size == block * block_size + block_size) by (nonlinear_arith);
    vstd::arithmetic::div_mod::lemma_fundamental_div_mod_converse(
        i,
        block_size,
        block,
        i - block * block_size,
    );
}

impl<T> CachingBlockEngine<T> {
    /// The backend connection.
    pub closed spec fn held(&self) -> T {
        self.transport
    }

    /// The engine's invariant.
    pub open spec fn wf(&self) -> bool {
        self@.wf()
    }

    /// An engine with nothing staged. A high watermark of zero counts as one.
    pub fn new(geometry: VolumeGeometry, transport: T, config: EngineConfig) -> (r: Self)
        ensures
            r.wf(),
            r.held() == transport,
            r@ == (EngineState {
                geometry,
                config: EngineConfig {
                    dirty_high_watermark_blocks: if config.dirty_high_watermark_blocks == 0 {
                        1
                    } else {
                        config.dirty_high_watermark_blocks
                    },
                    ..config
                },
                dirty: Map::empty(),
            }),
    {
        let mut config: EngineConfig = config;
        if config.dirty_high_watermark_blocks == 0 {
            config.dirty_high_watermark_blocks = 1;
        }
        let r = CachingBlockEngine { geometry, transport, config, dirty: BTreeMap::new() };
        assert(r@.dirty =~= Map::<u64, Seq<u8>>::empty());
        r
    }

    /// How many blocks are staged.
    pub fn dirty_count(&self) -> (n: usize)
        ensures
            n == self@.dirty.len(),
    {
        assert(self@.dirty.dom() =~= self.dirty@.dom());
        self.dirty.len()
    }

    /// Gives the backend connection back. What is staged is dropped.
    pub fn into_transport(self) -> (r: T)
        ensures
            r == self.held(),
    {
        self.transport
    }

    /// Lends the backend connection, to make the calls that steps name.
    pub fn transport_mut(&mut self) -> (r: &mut T)
        ensures
            *r == old(self).held(),
            final(self).held() == *final(r),
            final(self)@ == old(self)@,
    {
        &mut self.transport
    }

    fn ensure_range(&self, start_lba: u64, block_count: u64) -> (r: Result<(), EngineError>)
        ensures
            match r {
                Ok(()) => range_error(self@.geometry.total_blocks, start_lba, block_count as int)
                    is None,
                Err(e) => range_error(self@.geometry.total_blocks, start_lba, block_count as int)
                    == Some(e@),
            },
    {
        let end_lba: u64 = match start_lba.checked_add(block_count) {
            Some(end) => end,
            None => {
                return Err(EngineError::invalid("request range overflows u64"));
            },
        };
        if end_lba > self.geometry.total_blocks {
            let message: String = text::cat4(
                "request out of range: end_lba ",
                text::decimal_u64(end_lba).as_str(),
                " > total_blocks ",
                text::decimal_u64(self.geometry.total_blocks).as_str(),
            );
            return Err(EngineError::invalid(message.as_str()));
        }
        Ok(())
    }

    /// Starts a read of `block_count` blocks from `start_lba` on.
    pub fn read_blocks(&self, start_lba: u64, block_count: u32) -> (step: EngineStep)
        ensures
            step@ == read_start(self@, start_lba, block_count),
            step@ matches EngineStepView::Read(task) ==> task.wf(self@.geometry),
    {
        if block_count == 0 {
            return EngineStep::Done(Err(EngineError::invalid("block_count must be > 0")));
        }
        match self.ensure_range(start_lba, block_count as u64) {
            Ok(()) => {},
            Err(e) => {
                return EngineStep::Done(Err(e));
            },
        }
        let block_size: usize = self.geometry.block_size_bytes as usize;
        match (block_count as usize).checked_mul(block_size) {
            Some(_) => {},
            None => {
                return EngineStep::Done(
                    Err(EngineError::invalid("requested read size is too large")),
                );
            },
        }
        let chunk_blocks: u32 = if block_count < MAX_BLOCKS_PER_RPC {
            block_count
        } else {
            MAX_BLOCKS_PER_RPC
        };
        let task = ReadTask {
            start_lba,
            block_count,
            data: Vec::new(),
            lba: start_lba,
            chunk_blocks,
        };
        assert(task.data@ =~= Seq::empty());
        assert((task.lba - task.start_lba) * block_size == 0) by (nonlinear_arith)
            requires
                task.lba == task.start_lba,
        ;
        EngineStep::Read(task)
    }

    fn overlaid(&self, start_lba: u64, block_count: u32, data: Vec<u8>) -> (r: Vec<u8>)
        requires
            self.wf(),
            start_lba + block_count <= u64::MAX,
            data@.len() == block_count * self@.geometry.block_size_bytes,
        ensures
            r@ == overlay(self@.dirty, start_lba, self@.block_size(), data@),
    {
        let block_size: usize = self.geometry.block_size_bytes as usize;
        let ghost whole = overlay(self@.dirty, start_lba, self@.block_size(), data@);
        let mut out: Vec<u8> = Vec::new();
        let mut k: u32 = 0;
        while k < block_count
            invariant
                self.wf(),
                k <= block_count,
                start_lba + block_count <= u64::MAX,
                block_size == self@.geometry.block_size_bytes,
                data@.len() == block_count * block_size,
                whole == overlay(self@.dirty, start_lba, self@.block_size(), data@),
                out@ == whole.subrange(0, k * block_size),
                0 <= k * block_size <= data@.len(),
            decreases block_count - k,
        {
            let from: usize = out.len();
            proof {
                assert((k + 1) * block_size == k * block_size + block_size) by (nonlinear_arith);
                assert((k + 1) * block_size <= block_count * block_size) by (nonlinear_arith)
                    requires
                        k + 1 <= block_count,
                ;
            }
            let lba: u64 = start_lba + k as u64;
            let ghost before = out@;
            match self.dirty.get(&lba) {
                Some(block) => {
                    assert(self@.dirty.contains_key(lba));
                    assert(self@.dirty[lba] == block@);
                    out.extend_from_slice(block.as_slice());
                },
                None => {
                    assert(!self@.dirty.contains_key(lba));
                    assert(from + block_size <= data.len());
                    out.extend_from_slice(
                        vstd::slice::slice_subrange(data.as_slice(), from, from + block_size),
                    );
                },
            }
            assert(out@.len() == (k + 1) * block_size);
            assert forall|i: int| 0 <= i < out@.len() implies out@[i] == whole[i] by {
                if i < before.len() {
                    assert(out@[i] == before[i]);
                    assert(whole.subrange(0, k * block_size)[i] == whole[i]);
                } else {
                    lemma_block_index(i, k as int, block_size as int);
                    assert((start_lba + i / (block_size as int)) as u64 == lba);
                }
            }
            assert(out@ =~= whole.subrange(0, (k + 1) * block_size));
            k = k + 1;
        }
        assert(whole.subrange(0, block_count * block_size) =~= whole);
        out
    }

    /// Carries a read on with what the backend answered to `task`.
    pub fn read_reply(&self, task: ReadTask, reply: Result<Vec<u8>, TransportError>) -> (step:
        EngineStep)
        requires
            self.wf(),
            task@.wf(self@.geometry),
        ensures
            step@ == read_next(self@, task@, read_reply_view(reply)),
            step@ matches EngineStepView::Read(next) ==> next.wf(self@.geometry),
    {
        let chunk: Vec<u8> = match reply {
            Ok(data) => data,
            Err(e) => {
                return EngineStep::Done(Err(backend_error(e)));
            },
        };
        let block_size: usize = self.geometry.block_size_bytes as usize;
        proof {
            assert(task.chunk_blocks * block_size <= task.block_count * block_size)
                by (nonlinear_arith)
                requires
                    task.chunk_blocks <= task.block_count,
            ;
        }
        let expected: usize = task.chunk_blocks as usize * block_size;
        if chunk.len() != expected {
            let counts: String = text::cat4(
                "backend returned ",
                text::decimal_usize(chunk.len()).as_str(),
                " bytes for ",
                text::decimal_u64(task.chunk_blocks as u64).as_str(),
            );
            let message: String = text::cat4(
                counts.as_str(),
                " blocks (expected ",
                text::decimal_usize(expected).as_str(),
                ")",
            );
            return EngineStep::Done(Err(EngineError::io(message.as_str())));
        }
        let mut chunk: Vec<u8> = chunk;
        let mut data: Vec<u8> = task.data;
        let ghost before = data@;
        let ghost arrived = chunk@;
        data.append(&mut chunk);
        assert(data@ == before + arrived);
        let lba: u64 = task.lba + task.chunk_blocks as u64;
        let end: u64 = task.start_lba + task.block_count as u64;
        proof {
            assert((task.lba - task.start_lba) * block_size + task.chunk_blocks * block_size == (lba
                - task.start_lba) * block_size) by (nonlinear_arith)
                requires
                    lba == task.lba + task.chunk_blocks,
            ;
        }
        if lba < end {
            let remaining: u64 = end - lba;
            let chunk_blocks: u32 = if remaining < MAX_BLOCKS_PER_RPC as u64 {
                remaining as u32
            } else {
                MAX_BLOCKS_PER_RPC
            };
            EngineStep::Read(
                ReadTask {
                    start_lba: task.start_lba,
                    block_count: task.block_count,
                    data,
                    lba,
                    chunk_blocks,
                },
            )
        } else {
            EngineStep::Done(Ok(self.overlaid(task.start_lba, task.block_count, data)))
        }
    }

    /// The next batch of the staged blocks.
    fn next_batch(&self) -> (writes: Vec<BlockWrite>)
        ensures
            is_next_batch(writes_view(writes@), self@.dirty),
    {
        let keys: Vec<u64> = ordered::first_keys(&self.dirty, MAX_BLOCKS_PER_RPC as usize);
        let mut writes: Vec<BlockWrite> = Vec::new();
        let mut i: usize = 0;
        while i < keys.len()
            invariant
                i <= keys@.len(),
                ordered::are_first_keys(keys@, self.dirty@),
                writes@.len() == i,
                forall|j: int|
                    0 <= j < i ==> (#[trigger] writes@[j]).lba == keys@[j] && writes@[j].data@
                        == self@.dirty[keys@[j]],
            decreases keys@.len() - i,
        {
            let lba: u64 = keys[i];
            match self.dirty.get(&lba) {
                Some(block) => {
                    writes.push(BlockWrite { lba, data: copy_bytes(block) });
                },
                None => {
                    assert(false);
                },
            }
            i = i + 1;
        }
        proof {
            let view = writes_view(writes@);
            assert(self@.dirty.dom() =~= self.dirty@.dom());
            assert forall|lba: u64, j: int|
                #![trigger self@.dirty.contains_key(lba), view[j]]
                self@.dirty.contains_key(lba) && !lists(view, lba) && 0 <= j
                    < view.len() implies view[j].lba < lba by {
                assert(self.dirty@.contains_key(lba));
                if keys@.contains(lba) {
                    let at = choose|at: int| 0 <= at < keys@.len() && keys@[at] == lba;
                    assert(view[at].lba == lba);
                }
                assert(keys@[j] < lba);
            }
        }
        writes
    }

    fn flush_step(&self, goal: FlushGoal) -> (step: EngineStep)
        ensures
            flush_goes_on(self@, goal, step@),
    {
        assert(self@.dirty.dom() =~= self.dirty@.dom());
        if self.dirty.len() == 0 {
            flush_end(goal, Ok(()))
        } else {
            EngineStep::Write(FlushTask { goal, writes: self.next_batch() })
        }
    }

    /// Stages `data` from block `start_lba` on. Once as many blocks are staged as the high
    /// watermark says, the write is done only when all of them are flushed.
    pub fn write_blocks(&mut self, start_lba: u64, data: &[u8]) -> (step: EngineStep)
        requires
            old(self).wf(),
        ensures
            final(self).wf(),
            final(self).held() == old(self).held(),
            write_handled(old(self)@, start_lba, data@, final(self)@, step@),
    {
        let block_size: usize = self.geometry.block_size_bytes as usize;
        if data.len() == 0 {
            return EngineStep::Done(Err(EngineError::invalid("write payload must not be empty")));
        }
        if block_size == 0 || data.len() % block_size != 0 {
            let message: String = text::cat4(
                "write payload len ",
                text::decimal_usize(data.len()).as_str(),
                " is not aligned to block size ",
                text::decimal_usize(block_size).as_str(),
            );
            return EngineStep::Done(Err(EngineError::invalid(message.as_str())));
        }
        let payload_len: usize = data.len();
        let block_count: usize = payload_len / block_size;
        match self.ensure_range(start_lba, block_count as u64) {
            Ok(()) => {},
            Err(e) => {
                return EngineStep::Done(Err(e));
            },
        }
        let ghost before = self@;
        proof {
            vstd::arithmetic::div_mod::lemma_fundamental_div_mod(
                data@.len() as int,
                block_size as int,
            );
            assert(block_size * block_count == block_count * block_size) by (nonlinear_arith);
            assert(data@.subrange(0, 0) =~= Seq::<u8>::empty());
            assert(0int / (block_size as int) == 0) by (nonlinear_arith)
                requires
                    block_size > 0,
            ;
            assert(with_blocks(
                before.dirty,
                start_lba,
                block_size as int,
                data@.subrange(0, 0),
            ) =~= before.dirty);
        }
        let mut k: usize = 0;
        while k < block_count
            invariant
                k <= block_count,
                block_size == before.geometry.block_size_bytes,
                block_size > 0,
                data@.len() == payload_len,
                payload_len == block_count * block_size,
                start_lba + block_count <= before.geometry.total_blocks,
                before.wf(),
                self.wf(),
                self.held() == old(self).held(),
                self@ == before.with_dirty(
                    with_blocks(
                        before.dirty,
                        start_lba,
                        block_size as int,
                        data@.subrange(0, k * block_size),
                    ),
                ),
                0 <= k * block_size <= data@.len(),
            decreases block_count - k,
        {
            proof {
                assert((k + 1) * block_size == k * block_size + block_size) by (nonlinear_arith);
                assert((k + 1) * block_size <= block_count * block_size) by (nonlinear_arith)
                    requires
                        k + 1 <= block_count,
                ;
            }
            let from: usize = k * block_size;
            let block: Vec<u8> = vstd::slice::slice_to_vec(
                vstd::slice::slice_subrange(data, from, from + block_size),
            );
            let lba: u64 = start_lba + k as u64;
            let ghost staged = self@.dirty;
            self.dirty.insert(lba, block);
            proof {
                assert(self@.dirty =~= staged.insert(lba, block@));
                lemma_one_more_block(
                    before.dirty,
                    start_lba,
                    block_size as int,
                    data@,
                    k as int,
                );
            }
            k = k + 1;
        }
        assert(data@.subrange(0, data@.len() as int) =~= data@);
        assert(self@.dirty.dom() =~= self.dirty@.dom());
        if self.dirty.len() >= self.config.dirty_high_watermark_blocks {
            self.flush_step(FlushGoal::Write)
        } else {
            EngineStep::Done(Ok(Vec::new()))
        }
    }

    /// Starts a flush of everything staged.
    pub fn flush(&self) -> (step: EngineStep)
        ensures
            flush_goes_on(self@, FlushGoal::Flush, step@),
    {
        self.flush_step(FlushGoal::Flush)
    }

    /// Starts a flush of everything staged, after which the backend is let go.
    pub fn disconnect(&self) -> (step: EngineStep)
        ensures
            flush_goes_on(self@, FlushGoal::Disconnect, step@),
    {
        self.flush_step(FlushGoal::Disconnect)
    }

    /// Carries a flush on with what the backend answered to `task`, `elapsed` after the flush
    /// began. A batch that was taken is no longer staged; one that was refused is.
    pub fn write_reply(
        &mut self,
        task: FlushTask,
        reply: Result<(), TransportError>,
        elapsed: Duration,
    ) -> (step: EngineStep)
        requires
            old(self).wf(),
        ensures
            final(self).wf(),
            final(self).held() == old(self).held(),
            match reply_view(reply) {
                Ok(()) => {
                    &&& final(self)@ == old(self)@.with_dirty(
                        without(old(self)@.dirty, writes_view(task.writes@)),
                    )
                    &&& flush_goes_on(final(self)@, task.goal, step@)
                },
                Err(e) => {
                    &&& final(self)@ == old(self)@
                    &&& step@ == flush_refused(old(self)@, task.goal, e, elapsed@)
                },
            },
    {
        match reply {
            Ok(()) => {
                let ghost before = self@;
                let ghost view = writes_view(task.writes@);
                assert(without(before.dirty, view.subrange(0, 0)) =~= before.dirty);
                let mut i: usize = 0;
                while i < task.writes.len()
                    invariant
                        i <= task.writes@.len(),
                        view == writes_view(task.writes@),
                        before.wf(),
                        self.held() == old(self).held(),
                        self@ == before.with_dirty(
                            without(before.dirty, view.subrange(0, i as int)),
                        ),
                    decreases task.writes@.len() - i,
                {
                    let lba: u64 = task.writes[i].lba;
                    let ghost staged = self@.dirty;
                    self.dirty.remove(&lba);
                    proof {
                        assert(self@.dirty =~= staged.remove(lba));
                        let done = view.subrange(0, i as int);
                        let more = view.subrange(0, i + 1);
                        assert(more =~= done.push(view[i as int]));
                        assert(more[i as int].lba == lba);
                        assert forall|at: u64| lists(more, at) == (lists(done, at) || at == lba) by {
                            if lists(done, at) {
                                let j = choose|j: int|
                                    0 <= j < done.len() && (#[trigger] done[j]).lba == at;
                                assert(more[j].lba == at);
                            }
                            if lists(more, at) {
                                let j = choose|j: int|
                                    0 <= j < more.len() && (#[trigger] more[j]).lba == at;
                                if j < i {
                                    assert(done[j].lba == at);
                                }
                            }
                        }
                        assert(self@.dirty =~= without(before.dirty, more));
                    }
                    i = i + 1;
                }
                assert(view.subrange(0, view.len() as int) =~= view);
                proof {
                    lemma_subset_finite(self@.dirty, before.dirty);
                }
                self.flush_step(task.goal)
            },
            Err(e) => {
                if e.is_retryable() && elapsed.shorter_than(self.config.flush_retry_deadline) {
                    EngineStep::Pause(
                        PauseTask { goal: task.goal, interval: self.config.flush_retry_interval },
                    )
                } else {
                    flush_end(task.goal, Err(backend_error(e)))
                }
            },
        }
    }

    /// Carries a flush on after its pause.
    pub fn resume_flush(&self, task: PauseTask) -> (step: EngineStep)
        ensures
            flush_goes_on(self@, task.goal, step@),
    {
        self.flush_step(task.goal)
    }

    /// Ends a disconnect with what came of letting the backend go.
    pub fn close_reply(&self, task: CloseTask, reply: Result<(), TransportError>) -> (step:
        EngineStep)
        ensures
            step@ == closed(flush_result_view(task.flush_result), reply_view(reply)),
    {
        match task.flush_result {
            Err(e) => EngineStep::Done(Err(e)),
            Ok(()) => match reply {
                Ok(()) => EngineStep::Done(Ok(Vec::new())),
                Err(e) => EngineStep::Done(Err(backend_error(e))),
            },
        }
    }
}

proof fn lemma_one_more_block(
    dirty: Map<u64, Seq<u8>>,
    start_lba: u64,
    block_size: int,
    data: Seq<u8>,
    k: int,
)
    requires
        block_size > 0,
        0 <= k,
        0 <= k * block_size,
        (k + 1) * block_size <= data.len(),
        start_lba + k <= u64::MAX,
    ensures
        with_blocks(dirty, start_lba, block_size, data.subrange(0, (k + 1) * block_size))
            == with_blocks(dirty, start_lba, block_size, data.subrange(0, k * block_size)).insert(
            (start_lba + k) as u64,
            data.subrange(k * block_size, (k + 1) * block_size),
        ),
{
    let bs = block_size;
    let lba = (start_lba + k) as u64;
    assert((k + 1) * bs == k * bs + bs) by (nonlinear_arith);
    assert((k + 1 + 1) * bs == (k + 1) * bs + bs) by (nonlinear_arith);
    lemma_block_index(k * bs, k, bs);
    lemma_block_index((k + 1) * bs, k + 1, bs);
    let few = data.subrange(0, k * bs);
    let more = data.subrange(0, (k + 1) * bs);
    assert(few.len() as int / bs == k);
    assert(more.len() as int / bs == k + 1);
    let staged = with_blocks(dirty, start_lba, bs, few);
    let grown = with_blocks(dirty, start_lba, bs, more);
    let expected = staged.insert(lba, data.subrange(k * bs, (k + 1) * bs));
    assert(grown.dom() =~= expected.dom());
    assert forall|at: u64| #[trigger] grown.contains_key(at) implies grown[at] == expected[at] by {
        let n = at - start_lba;
        if start_lba <= at < start_lba + k {
            assert((n + 1) * bs <= k * bs) by (nonlinear_arith)
                requires
                    n + 1 <= k,
                    bs > 0,
            ;
            assert(0 <= n * bs <= (n + 1) * bs) by (nonlinear_arith)
                requires
                    n >= 0,
                    bs > 0,
            ;
            assert(few.subrange(n * bs, (n + 1) * bs) =~= data.subrange(n * bs, (n + 1) * bs));
            assert(more.subrange(n * bs, (n + 1) * bs) =~= data.subrange(n * bs, (n + 1) * bs));
        } else if at == lba {
            assert(n == k);
            assert(more.subrange(k * bs, (k + 1) * bs) =~= data.subrange(k * bs, (k + 1) * bs));
        }
    }
    assert(grown =~= expected);
}

proof fn lemma_subset_finite(part: Map<u64, Seq<u8>>, whole: Map<u64, Seq<u8>>)
    requires
        whole.dom().finite(),
        part.dom().subset_of(whole.dom()),
    ensures
        part.dom().finite(),
{
    vstd::set_lib::lemma_set_subset_finite(whole.dom(), part.dom());
}

} // verus!
