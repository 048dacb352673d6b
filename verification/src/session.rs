//! A session with the service that stores a volume.
//!
//! Opening a volume, reading blocks and writing a batch are remote calls that are made again when
//! they fail. Each of them is a walk through `RpcStep`s: the caller connects, calls or waits as the
//! step says, and hands what came of it to the next function.
use crate::endpoint;
use crate::engine::{BlockWrite, BlockWriteView, VolumeGeometry};
use crate::engine;
use crate::errors::{TransportError, TransportErrorView};
use crate::ordered;
use crate::rpc::{RpcFailure, RpcFailureView, RpcReply, RpcStep};
use crate::rpc;
use crate::text;
use crate::time::Duration;
use vstd::prelude::*;

pub use crate::rpc::RetryConfig;

verus! {

/// The most blocks that one call carries. Larger batches would overflow what the service keeps for
/// a volume.
pub const MAX_WRITES_PER_WRITE_BATCH_RPC: usize = 64;

/// How to reach a volume.
#[derive(Debug)]
pub struct VolumeSessionConfig {
    pub frontend_endpoint: String,
    pub namespace: String,
    pub volume_id: String,
    pub connect_timeout: Duration,
    pub rpc_timeout: Duration,
    pub retry: RetryConfig,
}

impl Clone for VolumeSessionConfig {
    fn clone(&self) -> (r: Self)
        ensures
            r == *self,
    {
        VolumeSessionConfig {
            frontend_endpoint: self.frontend_endpoint.clone(),
            namespace: self.namespace.clone(),
            volume_id: self.volume_id.clone(),
            connect_timeout: self.connect_timeout,
            rpc_timeout: self.rpc_timeout,
            retry: self.retry,
        }
    }
}

/// A session with an open volume.
#[derive(Debug)]
pub struct VolumeSession {
    pub config: VolumeSessionConfig,
    pub endpoint_url: String,
    /// Whether there is a connection to make calls over.
    pub connected: bool,
    pub geometry: VolumeGeometry,
    pub write_rpc_sent: u64,
    pub write_payload_bytes_sent: u64,
    pub write_blocks_sent: u64,
}

/// An attempt to open a volume.
#[derive(Debug)]
pub struct OpenCall {
    pub config: VolumeSessionConfig,
    pub endpoint_url: String,
    pub attempt: usize,
}

/// What the service says of a volume that it opened.
#[derive(Debug)]
pub struct OpenAnswer {
    pub volume_id: String,
    pub size_bytes: i64,
    pub block_size_bytes: i32,
}

/// The geometry of an opened volume, or why the answer is of no use.
pub open spec fn opened(volume_id: Seq<char>, answer: OpenAnswer) -> Result<
    VolumeGeometry,
    TransportErrorView,
> {
    if answer.volume_id@ != volume_id {
        Err(
            TransportErrorView::Terminal(
                "OpenVolume returned mismatched volume_id: got "@ + answer.volume_id@ + ", want "@
                    + volume_id,
            ),
        )
    } else if answer.size_bytes < 0 {
        Err(
            TransportErrorView::Terminal(
                "OpenVolume returned invalid size_bytes: "@ + text::signed_decimal(
                    answer.size_bytes as int,
                ),
            ),
        )
    } else if answer.block_size_bytes < 0 {
        Err(
            TransportErrorView::Terminal(
                "OpenVolume returned invalid block_size_bytes: "@ + text::signed_decimal(
                    answer.block_size_bytes as int,
                ),
            ),
        )
    } else {
        match engine::geometry_of(answer.size_bytes as u64, answer.block_size_bytes as u32) {
            Ok(geometry) => Ok(geometry),
            Err(e) => Err(
                TransportErrorView::Terminal(
                    "invalid volume geometry from OpenVolume: "@ + e.described(),
                ),
            ),
        }
    }
}

/// Checks the service's answer to the opening of `volume_id`.
pub fn accept_open(volume_id: &String, answer: &OpenAnswer) -> (r: Result<
    VolumeGeometry,
    TransportError,
>)
    ensures
        match r {
            Ok(geometry) => opened(volume_id@, *answer) == Ok::<
                VolumeGeometry,
                TransportErrorView,
            >(geometry) && geometry.wf(),
            Err(e) => opened(volume_id@, *answer) == Err::<VolumeGeometry, TransportErrorView>(
                e@,
            ),
        },
{
    if answer.volume_id != *volume_id {
        let message: String = text::cat4(
            "OpenVolume returned mismatched volume_id: got ",
            answer.volume_id.as_str(),
            ", want ",
            volume_id.as_str(),
        );
        return Err(TransportError::Terminal { message });
    }
    if answer.size_bytes < 0 {
        let message: String = text::cat2(
            "OpenVolume returned invalid size_bytes: ",
            text::decimal_i64(answer.size_bytes).as_str(),
        );
        return Err(TransportError::Terminal { message });
    }
    if answer.block_size_bytes < 0 {
        let message: String = text::cat2(
            "OpenVolume returned invalid block_size_bytes: ",
            text::decimal_i64(answer.block_size_bytes as i64).as_str(),
        );
        return Err(TransportError::Terminal { message });
    }
    match VolumeGeometry::new(answer.size_bytes as u64, answer.block_size_bytes as u32) {
        Ok(geometry) => Ok(geometry),
        Err(e) => {
            let message: String = text::cat2(
                "invalid volume geometry from OpenVolume: ",
                e.describe().as_str(),
            );
            Err(TransportError::Terminal { message })
        },
    }
}

/// The failure that a reply other than an answer stands for.
pub open spec fn reply_failure<A>(reply: RpcReply<A>) -> RpcFailureView {
    match reply {
        RpcReply::Status { code, message } => RpcFailureView::Status(code, message@),
        _ => RpcFailureView::TimedOut,
    }
}

/// What is reported when a volume cannot be opened for want of a connection.
pub open spec fn connect_error(attempts: usize, detail: Seq<char>) -> Seq<char> {
    "connect failed after "@ + text::decimal(attempts as nat) + " attempts: "@ + detail
}

/// An attempt to read blocks.
#[derive(Clone, Copy, Debug)]
pub struct ReadCall {
    pub start_lba: u64,
    pub block_count: u32,
    pub attempt: usize,
}

/// An attempt to write `count` blocks of a batch, from number `from` on.
#[derive(Debug)]
pub struct WriteCall {
    pub writes: Vec<BlockWrite>,
    pub from: usize,
    pub count: usize,
    pub attempt: usize,
}

impl WriteCall {
    /// The blocks to be written are part of the batch, and there is at least one.
    pub open spec fn wf(self) -> bool {
        0 < self.count && self.from + self.count <= self.writes@.len()
    }
}

/// The first step of an attempt: the call itself where there is a connection.
pub open spec fn first_step<C, R>(connected: bool, call: C) -> RpcStep<C, R> {
    if connected {
        RpcStep::Call(call)
    } else {
        RpcStep::Connect(call)
    }
}

/// The step that a write takes before block number `from` of its batch: the end, or the first
/// attempt to write as many blocks as one call carries.
pub open spec fn write_step(connected: bool, writes: Vec<BlockWrite>, from: usize) -> RpcStep<
    WriteCall,
    (),
> {
    if from >= writes@.len() {
        RpcStep::Done(Ok(()))
    } else {
        first_step(
            connected,
            WriteCall {
                writes,
                from,
                count: ordered::smaller(
                    writes@.len() - from,
                    MAX_WRITES_PER_WRITE_BATCH_RPC as int,
                ) as usize,
                attempt: 1,
            },
        )
    }
}

/// Whether a session went from `before` to `after` with `step` to do, once it is known what came
/// of connecting.
pub open spec fn connect_handled<C, R>(
    before: VolumeSession,
    operation: Seq<char>,
    attempt: usize,
    call: C,
    connected: Result<(), String>,
    after: VolumeSession,
    step: RpcStep<C, R>,
) -> bool {
    match connected {
        Ok(()) => after == (VolumeSession { connected: true, ..before }) && step == RpcStep::<
            C,
            R,
        >::Call(call),
        Err(detail) => after == before && rpc::failure_handled(
            before.config.retry,
            operation,
            attempt,
            RpcFailureView::Connect("reconnect failed: "@ + detail@),
            call,
            step,
        ),
    }
}

/// How many bytes of data the blocks of a batch hold.
pub open spec fn payload_len(writes: Seq<BlockWriteView>) -> nat
    decreases writes.len(),
{
    if writes.len() == 0 {
        0
    } else {
        payload_len(writes.drop_last()) + writes.last().data.len()
    }
}

/// The lowest address of a batch.
pub open spec fn min_lba(writes: Seq<BlockWriteView>) -> int
    decreases writes.len(),
{
    if writes.len() == 0 {
        u64::MAX as int
    } else {
        ordered::smaller(min_lba(writes.drop_last()), writes.last().lba as int)
    }
}

/// The highest address of a batch.
pub open spec fn max_lba(writes: Seq<BlockWriteView>) -> int
    decreases writes.len(),
{
    if writes.len() == 0 {
        0
    } else {
        let before = max_lba(writes.drop_last());
        if before < writes.last().lba {
            writes.last().lba as int
        } else {
            before
        }
    }
}

/// How many bytes a batch holds (as far as can be counted) and the range of its addresses; nothing
/// of an empty batch.
pub fn summarize_writes(writes: &[BlockWrite]) -> (r: Option<(usize, u64, u64)>)
    ensures
        match r {
            None => writes@.len() == 0,
            Some((payload_bytes, low, high)) => {
                &&& writes@.len() > 0
                &&& payload_bytes == ordered::smaller(
                    payload_len(engine::writes_view(writes@)) as int,
                    usize::MAX as int,
                )
                &&& low == min_lba(engine::writes_view(writes@))
                &&& high == max_lba(engine::writes_view(writes@))
            },
        },
{
    if writes.len() == 0 {
        return None;
    }
    let ghost view = engine::writes_view(writes@);
    let mut payload_bytes: usize = 0;
    let mut low: u64 = u64::MAX;
    let mut high: u64 = 0;
    let mut i: usize = 0;
    assert(view.subrange(0, 0) =~= Seq::empty());
    while i < writes.len()
        invariant
            i <= writes@.len(),
            view == engine::writes_view(writes@),
            payload_bytes == ordered::smaller(
                payload_len(view.subrange(0, i as int)) as int,
                usize::MAX as int,
            ),
            low == min_lba(view.subrange(0, i as int)),
            high == max_lba(view.subrange(0, i as int)),
        decreases writes@.len() - i,
    {
        proof {
            let more = view.subrange(0, i + 1);
            assert(more.drop_last() =~= view.subrange(0, i as int));
            assert(more.last() == writes@[i as int]@);
        }
        payload_bytes = payload_bytes.saturating_add(writes[i].data.len());
        if writes[i].lba < low {
            low = writes[i].lba;
        }
        if writes[i].lba > high {
            high = writes[i].lba;
        }
        i = i + 1;
    }
    assert(view.subrange(0, view.len() as int) =~= view);
    Some((payload_bytes, low, high))
}

/// A counter that stops at its largest value.
pub open spec fn saturated(n: int) -> u64 {
    ordered::smaller(n, u64::MAX as int) as u64
}

/// A session that has counted one more call, which carried `sent`.
pub open spec fn counted(session: VolumeSession, sent: Seq<BlockWriteView>) -> VolumeSession {
    VolumeSession {
        write_rpc_sent: saturated(session.write_rpc_sent + 1),
        write_payload_bytes_sent: saturated(
            session.write_payload_bytes_sent + ordered::smaller(
                payload_len(sent) as int,
                usize::MAX as int,
            ),
        ),
        write_blocks_sent: saturated(session.write_blocks_sent + sent.len()),
        ..session
    }
}

impl VolumeSession {
    /// Starts to open a volume.
    pub fn connect_and_open(config: VolumeSessionConfig) -> (step: RpcStep<OpenCall, VolumeSession>)
        ensures
            step matches RpcStep::Connect(call) && call.config == config && call.endpoint_url@
                == endpoint::normalized(config.frontend_endpoint@) && call.attempt == 1,
    {
        let endpoint_url: String = endpoint::normalize_endpoint(config.frontend_endpoint.as_str());
        RpcStep::Connect(OpenCall { config, endpoint_url, attempt: 1 })
    }

    /// Carries the opening of a volume on with what came of connecting.
    pub fn open_connected(call: OpenCall, connected: Result<(), String>) -> (step: RpcStep<
        OpenCall,
        VolumeSession,
    >)
        ensures
            match connected {
                Ok(()) => step == RpcStep::<OpenCall, VolumeSession>::Call(call),
                Err(detail) => rpc::failure_handled(
                    call.config.retry,
                    "OpenVolume"@,
                    call.attempt,
                    RpcFailureView::Connect(
                        connect_error(call.config.retry.attempts(), detail@),
                    ),
                    call,
                    step,
                ),
            },
    {
        match connected {
            Ok(()) => RpcStep::Call(call),
            Err(detail) => {
                let retry: RetryConfig = call.config.retry;
                let attempt: usize = call.attempt;
                let message: String = text::cat4(
                    "connect failed after ",
                    text::decimal_usize(retry.capped_attempts()).as_str(),
                    " attempts: ",
                    detail.as_str(),
                );
                rpc::failure_step(
                    &retry,
                    "OpenVolume",
                    attempt,
                    RpcFailure::Connect { message },
                    call,
                )
            },
        }
    }

    /// Carries the opening of a volume on with what came of the call.
    pub fn open_answered(call: OpenCall, reply: RpcReply<OpenAnswer>) -> (step: RpcStep<
        OpenCall,
        VolumeSession,
    >)
        ensures
            match reply {
                RpcReply::Answer(answer) => step matches RpcStep::Done(result) && match result {
                    Ok(session) => {
                        &&& opened(call.config.volume_id@, answer) == Ok::<
                            VolumeGeometry,
                            TransportErrorView,
                        >(session.geometry)
                        &&& session.geometry.wf()
                        &&& session == (VolumeSession {
                            config: call.config,
                            endpoint_url: call.endpoint_url,
                            connected: true,
                            geometry: session.geometry,
                            write_rpc_sent: 0,
                            write_payload_bytes_sent: 0,
                            write_blocks_sent: 0,
                        })
                    },
                    Err(e) => opened(call.config.volume_id@, answer) == Err::<
                        VolumeGeometry,
                        TransportErrorView,
                    >(e@),
                },
                _ => rpc::failure_handled(
                    call.config.retry,
                    "OpenVolume"@,
                    call.attempt,
                    reply_failure(reply),
                    call,
                    step,
                ),
            },
    {
        let retry: RetryConfig = call.config.retry;
        let attempt: usize = call.attempt;
        match reply {
            RpcReply::Answer(answer) => match accept_open(&call.config.volume_id, &answer) {
                Ok(geometry) => RpcStep::Done(
                    Ok(
                        VolumeSession {
                            config: call.config,
                            endpoint_url: call.endpoint_url,
                            connected: true,
                            geometry,
                            write_rpc_sent: 0,
                            write_payload_bytes_sent: 0,
                            write_blocks_sent: 0,
                        },
                    ),
                ),
                Err(e) => RpcStep::Done(Err(e)),
            },
            RpcReply::Status { code, message } => rpc::failure_step(
                &retry,
                "OpenVolume",
                attempt,
                RpcFailure::Status { code, message },
                call,
            ),
            RpcReply::TimedOut => rpc::failure_step(
                &retry,
                "OpenVolume",
                attempt,
                RpcFailure::TimedOut,
                call,
            ),
        }
    }

    /// Carries the opening of a volume on after a wait.
    pub fn open_resumed(call: OpenCall) -> (step: RpcStep<OpenCall, VolumeSession>)
        requires
            call.attempt < call.config.retry.attempts(),
        ensures
            step == RpcStep::<OpenCall, VolumeSession>::Connect(
                OpenCall { attempt: (call.attempt + 1) as usize, ..call },
            ),
    {
        RpcStep::Connect(
            OpenCall {
                config: call.config,
                endpoint_url: call.endpoint_url,
                attempt: call.attempt + 1,
            },
        )
    }

    /// The size of the volume and of its blocks.
    pub fn geometry(&self) -> (r: VolumeGeometry)
        ensures
            r == self.geometry,
    {
        self.geometry
    }

    /// Lets the connection go. The next call makes a new one.
    pub fn disconnect(&mut self) -> (r: Result<(), TransportError>)
        ensures
            r is Ok,
            *final(self) == (VolumeSession { connected: false, ..*old(self) }),
    {
        self.connected = false;
        Ok(())
    }

    fn attempt<C, R>(&self, call: C) -> (step: RpcStep<C, R>)
        ensures
            step == first_step::<C, R>(self.connected, call),
    {
        if self.connected {
            RpcStep::Call(call)
        } else {
            RpcStep::Connect(call)
        }
    }

    fn connect_outcome<C, R>(
        &mut self,
        operation: &str,
        attempt: usize,
        call: C,
        connected: Result<(), String>,
    ) -> (step: RpcStep<C, R>)
        ensures
            connect_handled(
                *old(self),
                operation@,
                attempt,
                call,
                connected,
                *final(self),
                step,
            ),
    {
        match connected {
            Ok(()) => {
                self.connected = true;
                RpcStep::Call(call)
            },
            Err(detail) => {
                let message: String = text::cat2("reconnect failed: ", detail.as_str());
                rpc::failure_step(
                    &self.config.retry,
                    operation,
                    attempt,
                    RpcFailure::Connect { message },
                    call,
                )
            },
        }
    }

    /// Starts to read blocks.
    pub fn read_blocks(&self, start_lba: u64, block_count: u32) -> (step: RpcStep<
        ReadCall,
        Vec<u8>,
    >)
        ensures
            step == first_step::<ReadCall, Vec<u8>>(
                self.connected,
                ReadCall { start_lba, block_count, attempt: 1 },
            ),
    {
        self.attempt(ReadCall { start_lba, block_count, attempt: 1 })
    }

    /// Carries a read on with what came of connecting.
    pub fn read_connected(&mut self, call: ReadCall, connected: Result<(), String>) -> (step:
        RpcStep<ReadCall, Vec<u8>>)
        ensures
            connect_handled(
                *old(self),
                "ReadBlocks"@,
                call.attempt,
                call,
                connected,
                *final(self),
                step,
            ),
    {
        self.connect_outcome("ReadBlocks", call.attempt, call, connected)
    }

    /// Carries a read on with what came of the call. A call that failed costs the connection.
    pub fn read_answered(&mut self, call: ReadCall, reply: RpcReply<Vec<u8>>) -> (step: RpcStep<
        ReadCall,
        Vec<u8>,
    >)
        ensures
            match reply {
                RpcReply::Answer(data) => *final(self) == *old(self) && step == RpcStep::<
                    ReadCall,
                    Vec<u8>,
                >::Done(Ok(data)),
                _ => *final(self) == (VolumeSession { connected: false, ..*old(self) })
                    && rpc::failure_handled(
                    old(self).config.retry,
                    "ReadBlocks"@,
                    call.attempt,
                    reply_failure(reply),
                    call,
                    step,
                ),
            },
    {
        let attempt: usize = call.attempt;
        match reply {
            RpcReply::Answer(data) => RpcStep::Done(Ok(data)),
            RpcReply::Status { code, message } => {
                self.connected = false;
                rpc::failure_step(
                    &self.config.retry,
                    "ReadBlocks",
                    attempt,
                    RpcFailure::Status { code, message },
                    call,
                )
            },
            RpcReply::TimedOut => {
                self.connected = false;
                rpc::failure_step(
                    &self.config.retry,
                    "ReadBlocks",
                    attempt,
                    RpcFailure::TimedOut,
                    call,
                )
            },
        }
    }

    /// Carries a read on after a wait.
    pub fn read_resumed(&self, call: ReadCall) -> (step: RpcStep<ReadCall, Vec<u8>>)
        requires
            call.attempt < self.config.retry.attempts(),
        ensures
            step == first_step::<ReadCall, Vec<u8>>(
                self.connected,
                ReadCall { attempt: (call.attempt + 1) as usize, ..call },
            ),
    {
        self.attempt(
            ReadCall {
                start_lba: call.start_lba,
                block_count: call.block_count,
                attempt: call.attempt + 1,
            },
        )
    }

    fn write_from(&self, writes: Vec<BlockWrite>, from: usize) -> (step: RpcStep<WriteCall, ()>)
        requires
            from <= writes@.len(),
        ensures
            step == write_step(self.connected, writes, from),
    {
        if from >= writes.len() {
            return RpcStep::Done(Ok(()));
        }
        let rest: usize = writes.len() - from;
        let count: usize = if rest < MAX_WRITES_PER_WRITE_BATCH_RPC {
            rest
        } else {
            MAX_WRITES_PER_WRITE_BATCH_RPC
        };
        self.attempt(WriteCall { writes, from, count, attempt: 1 })
    }

    /// Starts to write a batch, the first blocks of it first.
    pub fn write_batch(&self, writes: Vec<BlockWrite>) -> (step: RpcStep<WriteCall, ()>)
        ensures
            step == write_step(self.connected, writes, 0),
    {
        self.write_from(writes, 0)
    }

    /// Carries a write on with what came of connecting.
    pub fn write_connected(&mut self, call: WriteCall, connected: Result<(), String>) -> (step:
        RpcStep<WriteCall, ()>)
        ensures
            connect_handled(
                *old(self),
                "WriteBatch"@,
                call.attempt,
                call,
                connected,
                *final(self),
                step,
            ),
    {
        let attempt: usize = call.attempt;
        self.connect_outcome("WriteBatch", attempt, call, connected)
    }

    /// Carries a write on with what came of the call. Blocks that were written are counted, and the
    /// next ones follow. A call that failed costs the connection.
    pub fn write_answered(&mut self, call: WriteCall, reply: RpcReply<()>) -> (step: RpcStep<
        WriteCall,
        (),
    >)
        requires
            call.wf(),
        ensures
            write_handled(*old(self), call, reply, *final(self), step),
    {
        let attempt: usize = call.attempt;
        match reply {
            RpcReply::Answer(()) => {
                let ghost sent = carried(call);
                assert(call.from + call.count <= call.writes.len());
                let chunk: &[BlockWrite] = vstd::slice::slice_subrange(
                    call.writes.as_slice(),
                    call.from,
                    call.from + call.count,
                );
                assert(engine::writes_view(chunk@) =~= sent);
                match summarize_writes(chunk) {
                    Some((payload_bytes, _, _)) => {
                        self.write_rpc_sent = self.write_rpc_sent.saturating_add(1);
                        self.write_payload_bytes_sent = self.write_payload_bytes_sent.saturating_add(
                            payload_bytes as u64,
                        );
                        self.write_blocks_sent = self.write_blocks_sent.saturating_add(
                            call.count as u64,
                        );
                    },
                    None => {},
                }
                self.write_from(call.writes, call.from + call.count)
            },
            RpcReply::Status { code, message } => {
                self.connected = false;
                rpc::failure_step(
                    &self.config.retry,
                    "WriteBatch",
                    attempt,
                    RpcFailure::Status { code, message },
                    call,
                )
            },
            RpcReply::TimedOut => {
                self.connected = false;
                rpc::failure_step(
                    &self.config.retry,
                    "WriteBatch",
                    attempt,
                    RpcFailure::TimedOut,
                    call,
                )
            },
        }
    }

    /// Carries a write on after a wait.
    pub fn write_resumed(&self, call: WriteCall) -> (step: RpcStep<WriteCall, ()>)
        requires
            call.attempt < self.config.retry.attempts(),
        ensures
            step == first_step::<WriteCall, ()>(
                self.connected,
                WriteCall { attempt: (call.attempt + 1) as usize, ..call },
            ),
    {
        self.attempt(
            WriteCall {
                writes: call.writes,
                from: call.from,
                count: call.count,
                attempt: call.attempt + 1,
            },
        )
    }
}

/// The blocks that one call carries.
pub open spec fn carried(call: WriteCall) -> Seq<BlockWriteView> {
    engine::writes_view(call.writes@).subrange(call.from as int, call.from + call.count)
}

/// Whether a session went from `before` to `after` with `step` to do, once it is known what came of
/// a call that writes.
pub open spec fn write_handled(
    before: VolumeSession,
    call: WriteCall,
    reply: RpcReply<()>,
    after: VolumeSession,
    step: RpcStep<WriteCall, ()>,
) -> bool {
    match reply {
        RpcReply::Answer(()) => {
            &&& after == counted(before, carried(call))
            &&& step == write_step(
                before.connected,
                call.writes,
                (call.from + call.count) as usize,
            )
        },
        _ => after == (VolumeSession { connected: false, ..before }) && rpc::failure_handled(
            before.config.retry,
            "WriteBatch"@,
            call.attempt,
            reply_failure(reply),
            call,
            step,
        ),
    }
}

/// The batches that are sent from block number `from` on over a connection, when each call is
/// answered.
pub open spec fn sent_batches(writes: Vec<BlockWrite>, from: usize) -> Seq<Seq<BlockWriteView>>
    decreases writes@.len() - from,
{
    match write_step(true, writes, from) {
        RpcStep::Call(call) => if from < call.from + call.count <= writes@.len() && call.from
            + call.count <= usize::MAX {
            seq![carried(call)] + sent_batches(writes, (call.from + call.count) as usize)
        } else {
            seq![carried(call)]
        },
        _ => seq![],
    }
}

proof fn lemma_sent_batches(writes: Vec<BlockWrite>, from: usize)
    requires
        from <= writes@.len(),
    ensures
        sent_batches(writes, from).flatten() == engine::writes_view(writes@).subrange(
            from as int,
            writes@.len() as int,
        ),
        sent_batches(writes, from).len() == (writes@.len() - from + 63) / 64,
        forall|i: int|
            0 <= i < sent_batches(writes, from).len() ==> 1 <= (#[trigger] sent_batches(
                writes,
                from,
            )[i]).len() <= 64,
    decreases writes@.len() - from,
{
    let all = sent_batches(writes, from);
    let view = engine::writes_view(writes@);
    let len = writes@.len() as int;
    assert(writes.len() == len);
    if from < len {
        let count = ordered::smaller(len - from, 64);
        let first = view.subrange(from as int, from + count);
        let next = (from + count) as usize;
        let rest = sent_batches(writes, next);
        lemma_sent_batches(writes, next);
        assert(all =~= seq![first] + rest);
        assert(all.drop_first() =~= rest);
        assert(first + view.subrange(from + count, len) =~= view.subrange(from as int, len));
        assert forall|i: int| 0 <= i < all.len() implies 1 <= (#[trigger] all[i]).len() <= 64 by {
            if i > 0 {
                assert(all[i] == rest[i - 1]);
            }
        }
    } else {
        assert(all =~= Seq::empty());
        assert(all.flatten() =~= Seq::empty());
        assert(view.subrange(from as int, len) =~= Seq::empty());
    }
}

/// A batch whose calls are all answered is sent whole and in order, in as few calls as carry it.
pub proof fn law_batch_is_sent_whole(writes: Vec<BlockWrite>)
    ensures
        sent_batches(writes, 0).flatten() == engine::writes_view(writes@),
        sent_batches(writes, 0).len() == (writes@.len() + 63) / 64,
        forall|i: int|
            0 <= i < sent_batches(writes, 0).len() ==> 1 <= (#[trigger] sent_batches(
                writes,
                0,
            )[i]).len() <= MAX_WRITES_PER_WRITE_BATCH_RPC,
{
    lemma_sent_batches(writes, 0);
    let view = engine::writes_view(writes@);
    assert(view.subrange(0, view.len() as int) =~= view);
}

/// What came of a step of a write.
pub enum WriteEvent {
    /// The caller tried to connect.
    Connected(Result<(), String>),
    /// The caller made the call.
    Answered(RpcReply<()>),
    /// The caller waited.
    Waited,
}

/// Whether `event` came of `step`, took the session from `before` to `after` and leaves `next` to do.
/// Nothing comes after the end.
pub open spec fn write_follows(
    before: VolumeSession,
    step: RpcStep<WriteCall, ()>,
    event: WriteEvent,
    after: VolumeSession,
    next: RpcStep<WriteCall, ()>,
) -> bool {
    match (step, event) {
        (RpcStep::Connect(call), WriteEvent::Connected(connected)) => connect_handled(
            before,
            "WriteBatch"@,
            call.attempt,
            call,
            connected,
            after,
            next,
        ),
        (RpcStep::Call(call), WriteEvent::Answered(reply)) => write_handled(
            before,
            call,
            reply,
            after,
            next,
        ),
        (RpcStep::Sleep(call, _), WriteEvent::Waited) => after == before && next == first_step::<
            WriteCall,
            (),
        >(before.connected, WriteCall { attempt: (call.attempt + 1) as usize, ..call }),
        _ => false,
    }
}

/// Whether a batch was written, as far as it was, in these steps, with these sessions before them,
/// whatever came of each.
pub open spec fn is_write_run(
    writes: Vec<BlockWrite>,
    sessions: Seq<VolumeSession>,
    steps: Seq<RpcStep<WriteCall, ()>>,
    events: Seq<WriteEvent>,
) -> bool {
    &&& sessions.len() == events.len() + 1
    &&& steps.len() == events.len() + 1
    &&& steps[0] == write_step(sessions[0].connected, writes, 0)
    &&& forall|i: int|
        0 <= i < events.len() ==> write_follows(
            sessions[i],
            steps[i],
            #[trigger] events[i],
            sessions[i + 1],
            steps[i + 1],
        )
}

/// What the calls carried that were answered, of the first `n` events.
pub open spec fn answered_batches(
    steps: Seq<RpcStep<WriteCall, ()>>,
    events: Seq<WriteEvent>,
    n: nat,
) -> Seq<Seq<BlockWriteView>>
    decreases n,
{
    if n == 0 {
        seq![]
    } else {
        let before = answered_batches(steps, events, (n - 1) as nat);
        match (steps[n - 1], events[n - 1]) {
            (
                RpcStep::Call(call),
                WriteEvent::Answered(RpcReply::Answer(())),
            ) => before.push(carried(call)),
            _ => before,
        }
    }
}

/// The attempt that a step is about, if it is not the end.
pub open spec fn attempt_of(step: RpcStep<WriteCall, ()>) -> Option<WriteCall> {
    match step {
        RpcStep::Connect(call) => Some(call),
        RpcStep::Call(call) => Some(call),
        RpcStep::Sleep(call, _) => Some(call),
        RpcStep::Done(_) => None,
    }
}

/// Whether a write stands before block number `from` of its batch, with the blocks before that
/// answered for.
spec fn stands_before(
    writes: Vec<BlockWrite>,
    retry: RetryConfig,
    answered: Seq<Seq<BlockWriteView>>,
    step: RpcStep<WriteCall, ()>,
    from: usize,
) -> bool {
    &&& answered + sent_batches(writes, from) == sent_batches(writes, 0)
    &&& (step == RpcStep::<WriteCall, ()>::Done(Ok(())) <==> from >= writes@.len())
    &&& attempt_of(step) matches Some(call) ==> {
        &&& call == (WriteCall {
            writes,
            from,
            count: ordered::smaller(
                writes@.len() - from,
                MAX_WRITES_PER_WRITE_BATCH_RPC as int,
            ) as usize,
            attempt: call.attempt,
        })
        &&& 1 <= call.attempt <= retry.attempts()
    }
    &&& step matches RpcStep::Sleep(call, _) ==> call.attempt < retry.attempts()
}

proof fn lemma_write_run(
    writes: Vec<BlockWrite>,
    sessions: Seq<VolumeSession>,
    steps: Seq<RpcStep<WriteCall, ()>>,
    events: Seq<WriteEvent>,
    n: nat,
) -> (from: usize)
    requires
        is_write_run(writes, sessions, steps, events),
        n <= events.len(),
    ensures
        sessions[n as int].config == sessions[0].config,
        stands_before(
            writes,
            sessions[0].config.retry,
            answered_batches(steps, events, n),
            steps[n as int],
            from,
        ),
    decreases n,
{
    let retry = sessions[0].config.retry;
    if n == 0 {
        assert(answered_batches(steps, events, 0) + sent_batches(writes, 0) =~= sent_batches(
            writes,
            0,
        ));
        0
    } else {
        let m = n - 1;
        let from = lemma_write_run(writes, sessions, steps, events, m as nat);
        let before = answered_batches(steps, events, m as nat);
        assert(write_follows(sessions[m], steps[m], events[m], sessions[m + 1], steps[m + 1]));
        match (steps[m], events[m]) {
            (RpcStep::Call(call), WriteEvent::Answered(RpcReply::Answer(()))) => {
                let next = (from + call.count) as usize;
                assert(writes.len() == writes@.len());
                assert(sent_batches(writes, from) =~= seq![carried(call)] + sent_batches(
                    writes,
                    next,
                ));
                assert(before.push(carried(call)) + sent_batches(writes, next) =~= before
                    + sent_batches(writes, from));
                next
            },
            _ => from,
        }
    }
}

/// However often connecting and calling fail on the way: the calls that are answered carry the
/// batches of `sent_batches`, in order and none twice; the next call that is made carries the one
/// that follows; success is reported once all were answered, and only then. No batch is tried more
/// often than configured.
pub proof fn law_batch_is_sent_in_order(
    writes: Vec<BlockWrite>,
    sessions: Seq<VolumeSession>,
    steps: Seq<RpcStep<WriteCall, ()>>,
    events: Seq<WriteEvent>,
)
    requires
        is_write_run(writes, sessions, steps, events),
    ensures
        ({
            let all = sent_batches(writes, 0);
            let answered = answered_batches(steps, events, events.len());
            &&& answered.len() <= all.len()
            &&& answered == all.take(answered.len() as int)
            &&& steps.last() == RpcStep::<WriteCall, ()>::Done(Ok(())) <==> answered == all
            &&& attempt_of(steps.last()) matches Some(call) ==> {
                &&& call.wf()
                &&& answered.len() < all.len()
                &&& carried(call) == all[answered.len() as int]
                &&& 1 <= call.attempt <= sessions[0].config.retry.attempts()
            }
        }),
{
    let all = sent_batches(writes, 0);
    let answered = answered_batches(steps, events, events.len());
    let from = lemma_write_run(writes, sessions, steps, events, events.len());
    let rest = sent_batches(writes, from);
    assert(answered =~= all.take(answered.len() as int));
    assert(writes.len() == writes@.len());
    if from < writes@.len() {
        assert(rest.len() > 0);
        assert(all[answered.len() as int] == rest[0]);
    } else {
        assert(rest =~= seq![]);
        assert(answered =~= all);
    }
}

} // verus!
