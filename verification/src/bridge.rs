//! Block requests in bytes, on their way to an engine that works in blocks.
use crate::engine::{
    CachingBlockEngine, EngineState, EngineStep, EngineStepView, FlushGoal, ReadTaskView,
};
use crate::engine;
use crate::engine_laws;
use crate::errno;
use crate::errors::{EngineError, EngineErrorView};
use crate::text;
use vstd::prelude::*;

verus! {

/// A block request.
#[derive(Debug)]
pub enum BridgeCommand {
    Read { offset_bytes: u64, length_bytes: u32 },
    Write { offset_bytes: u64, data: Vec<u8> },
    Flush,
    Disconnect,
}

/// What a `BridgeCommand` holds.
pub enum BridgeCommandView {
    Read { offset_bytes: u64, length_bytes: u32 },
    Write { offset_bytes: u64, data: Seq<u8> },
    Flush,
    Disconnect,
}

impl View for BridgeCommand {
    type V = BridgeCommandView;

    open spec fn view(&self) -> BridgeCommandView {
        match self {
            BridgeCommand::Read { offset_bytes, length_bytes } => BridgeCommandView::Read {
                offset_bytes: *offset_bytes,
                length_bytes: *length_bytes,
            },
            BridgeCommand::Write { offset_bytes, data } => BridgeCommandView::Write {
                offset_bytes: *offset_bytes,
                data: data@,
            },
            BridgeCommand::Flush => BridgeCommandView::Flush,
            BridgeCommand::Disconnect => BridgeCommandView::Disconnect,
        }
    }
}

impl BridgeCommand {
    /// Whether the engine stops serving once this request is answered.
    pub fn ends_session(&self) -> (r: bool)
        ensures
            r == (self@ is Disconnect),
    {
        match self {
            BridgeCommand::Disconnect => true,
            _ => false,
        }
    }
}

/// The answer to a block request: an error number, zero for success, and the data of a read.
#[derive(Debug)]
pub struct BridgeResponse {
    pub errno: i32,
    pub data: Vec<u8>,
}

impl Clone for BridgeResponse {
    fn clone(&self) -> (r: Self)
        ensures
            r.errno == self.errno,
            r.data@ == self.data@,
    {
        BridgeResponse { errno: self.errno, data: engine::copy_bytes(&self.data) }
    }
}

impl BridgeResponse {
    /// Success, with the data of a read.
    pub fn ok(data: Vec<u8>) -> (r: Self)
        ensures
            r.errno == 0,
            r.data@ == data@,
    {
        BridgeResponse { errno: 0, data }
    }

    /// Failure, without data.
    pub fn from_error(err: EngineError) -> (r: Self)
        ensures
            r.errno == err@.errno(),
            r.errno != 0,
            r.data@.len() == 0,
    {
        BridgeResponse { errno: err.errno(), data: Vec::new() }
    }

    /// The answer to a request that the engine is done with.
    pub fn from_result(result: Result<Vec<u8>, EngineError>) -> (r: Self)
        ensures
            match result {
                Ok(data) => r.errno == 0 && r.data@ == data@,
                Err(e) => r.errno == e@.errno() && r.data@.len() == 0,
            },
    {
        match result {
            Ok(data) => BridgeResponse::ok(data),
            Err(e) => BridgeResponse::from_error(e),
        }
    }

    /// The answer to a request that never reached the engine.
    pub fn queue_closed(detail: &str) -> (r: Self)
        ensures
            r.errno == errno::IO_ERROR,
            r.data@ == vstd::utf8::encode_utf8("bridge queue closed: "@ + detail@),
    {
        let message: String = text::cat2("bridge queue closed: ", detail);
        BridgeResponse { errno: errno::eio(), data: message.as_str().as_bytes_vec() }
    }

    /// The answer to a request that the engine took and never answered.
    pub fn response_dropped(detail: &str) -> (r: Self)
        ensures
            r.errno == errno::IO_ERROR,
            r.data@ == vstd::utf8::encode_utf8("bridge response dropped: "@ + detail@),
    {
        let message: String = text::cat2("bridge response dropped: ", detail);
        BridgeResponse { errno: errno::eio(), data: message.as_str().as_bytes_vec() }
    }
}

/// How many requests may wait in the queue: what was asked for, but at least one.
pub fn queue_capacity(capacity: usize) -> (r: usize)
    ensures
        r == if capacity == 0 {
            1
        } else {
            capacity
        },
{
    if capacity == 0 {
        1
    } else {
        capacity
    }
}

/// The blocks that a range of bytes covers, or why it covers none.
pub open spec fn lba_range(offset_bytes: u64, length_bytes: u64, block_size_bytes: u32) -> Result<
    (u64, u32),
    EngineErrorView,
> {
    let block_size = block_size_bytes as int;
    if block_size == 0 {
        Err(EngineErrorView::InvalidRequest("block size must be > 0"@))
    } else if length_bytes == 0 {
        Err(EngineErrorView::InvalidRequest("request length must be > 0"@))
    } else if offset_bytes as int % block_size != 0 {
        Err(
            EngineErrorView::InvalidRequest(
                "offset "@ + text::decimal(offset_bytes as nat) + " is not aligned to block size "@
                    + text::decimal(block_size as nat),
            ),
        )
    } else if length_bytes as int % block_size != 0 {
        Err(
            EngineErrorView::InvalidRequest(
                "length "@ + text::decimal(length_bytes as nat) + " is not aligned to block size "@
                    + text::decimal(block_size as nat),
            ),
        )
    } else if length_bytes as int / block_size > u32::MAX {
        Err(EngineErrorView::InvalidRequest("block_count does not fit into u32"@))
    } else {
        Ok(
            (
                (offset_bytes as int / block_size) as u64,
                (length_bytes as int / block_size) as u32,
            ),
        )
    }
}

/// Translates a range of bytes to the first block and the number of blocks.
pub fn offset_len_to_lba(offset_bytes: u64, length_bytes: u64, block_size_bytes: u32) -> (r: Result<
    (u64, u32),
    EngineError,
>)
    ensures
        match r {
            Ok(range) => lba_range(offset_bytes, length_bytes, block_size_bytes) == Ok::<
                (u64, u32),
                EngineErrorView,
            >(range),
            Err(e) => lba_range(offset_bytes, length_bytes, block_size_bytes) == Err::<
                (u64, u32),
                EngineErrorView,
            >(e@),
        },
{
    if block_size_bytes == 0 {
        return Err(EngineError::invalid("block size must be > 0"));
    }
    if length_bytes == 0 {
        return Err(EngineError::invalid("request length must be > 0"));
    }
    let block_size: u64 = block_size_bytes as u64;
    if offset_bytes % block_size != 0 {
        let message: String = text::cat4(
            "offset ",
            text::decimal_u64(offset_bytes).as_str(),
            " is not aligned to block size ",
            text::decimal_u64(block_size).as_str(),
        );
        return Err(EngineError::invalid(message.as_str()));
    }
    if length_bytes % block_size != 0 {
        let message: String = text::cat4(
            "length ",
            text::decimal_u64(length_bytes).as_str(),
            " is not aligned to block size ",
            text::decimal_u64(block_size).as_str(),
        );
        return Err(EngineError::invalid(message.as_str()));
    }
    let start_lba: u64 = offset_bytes / block_size;
    let block_count: u64 = length_bytes / block_size;
    if block_count > u32::MAX as u64 {
        return Err(EngineError::invalid("block_count does not fit into u32"));
    }
    Ok((start_lba, block_count as u32))
}

/// Whether `command`, made of an engine in state `before`, left it in state `after` with `step`
/// to do.
pub open spec fn handled(
    before: EngineState,
    block_size_bytes: u32,
    command: BridgeCommandView,
    after: EngineState,
    step: EngineStepView,
) -> bool {
    match command {
        BridgeCommandView::Read { offset_bytes, length_bytes } => {
            &&& after == before
            &&& match lba_range(offset_bytes, length_bytes as u64, block_size_bytes) {
                Err(e) => step == EngineStepView::Done(Err(e)),
                Ok((start_lba, block_count)) => step == engine::read_start(
                    before,
                    start_lba,
                    block_count,
                ),
            }
        },
        BridgeCommandView::Write { offset_bytes, data } => match lba_range(
            offset_bytes,
            data.len() as u64,
            block_size_bytes,
        ) {
            Err(e) => after == before && step == EngineStepView::Done(Err(e)),
            Ok((start_lba, _)) => engine::write_handled(before, start_lba, data, after, step),
        },
        BridgeCommandView::Flush => {
            after == before && engine::flush_goes_on(before, FlushGoal::Flush, step)
        },
        BridgeCommandView::Disconnect => {
            after == before && engine::flush_goes_on(before, FlushGoal::Disconnect, step)
        },
    }
}

/// Hands a request to the engine and says what to do next for it. A request that does not cover
/// whole blocks is refused before the engine sees it.
pub fn handle_request<T>(
    engine: &mut CachingBlockEngine<T>,
    block_size_bytes: u32,
    command: BridgeCommand,
) -> (step: EngineStep)
    requires
        old(engine).wf(),
    ensures
        final(engine).wf(),
        final(engine).held() == old(engine).held(),
        handled(old(engine)@, block_size_bytes, command@, final(engine)@, step@),
        step@ matches EngineStepView::Read(task) ==> task.wf(final(engine)@.geometry),
{
    match command {
        BridgeCommand::Read { offset_bytes, length_bytes } => match offset_len_to_lba(
            offset_bytes,
            length_bytes as u64,
            block_size_bytes,
        ) {
            Ok((start_lba, block_count)) => engine.read_blocks(start_lba, block_count),
            Err(e) => EngineStep::Done(Err(e)),
        },
        BridgeCommand::Write { offset_bytes, data } => match offset_len_to_lba(
            offset_bytes,
            data.len() as u64,
            block_size_bytes,
        ) {
            Ok((start_lba, _)) => engine.write_blocks(start_lba, data.as_slice()),
            Err(e) => EngineStep::Done(Err(e)),
        },
        BridgeCommand::Flush => engine.flush(),
        BridgeCommand::Disconnect => engine.disconnect(),
    }
}

/// What ends a turn of the loop that serves the request queue.
#[derive(Clone, Copy, Debug, PartialEq, Eq, Structural)]
pub enum LoopEvent {
    /// The whole service is to stop.
    Shutdown,
    /// No request will come any more.
    QueueClosed,
    /// A request was answered; `ends_session` says whether it was a disconnect.
    Answered { ends_session: bool },
}

/// What the loop does next.
#[derive(Clone, Copy, Debug, PartialEq, Eq, Structural)]
pub enum LoopAction {
    /// Wait for the next request.
    Continue,
    /// Disconnect the engine, and leave.
    DisconnectAndExit,
    /// Leave; the engine is disconnected already.
    Exit,
}

/// What the loop that serves the request queue does after `event`.
pub open spec fn loop_action(event: LoopEvent) -> LoopAction {
    match event {
        LoopEvent::Shutdown | LoopEvent::QueueClosed => LoopAction::DisconnectAndExit,
        LoopEvent::Answered { ends_session } => if ends_session {
            LoopAction::Exit
        } else {
            LoopAction::Continue
        },
    }
}

/// What the loop that serves the request queue does after `event`.
pub fn next_loop_action(event: LoopEvent) -> (r: LoopAction)
    ensures
        r == loop_action(event),
{
    match event {
        LoopEvent::Shutdown => LoopAction::DisconnectAndExit,
        LoopEvent::QueueClosed => LoopAction::DisconnectAndExit,
        LoopEvent::Answered { ends_session } => if ends_session {
            LoopAction::Exit
        } else {
            LoopAction::Continue
        },
    }
}

/// How often the engine is disconnected while the loop goes through `events`: by a disconnect that
/// is answered, or on the way out.
pub open spec fn disconnects(events: Seq<LoopEvent>) -> nat
    decreases events.len(),
{
    if events.len() == 0 {
        0
    } else {
        let now: nat = match (events[0], loop_action(events[0])) {
            (LoopEvent::Answered { ends_session: true }, _) => 1,
            (_, LoopAction::DisconnectAndExit) => 1,
            _ => 0,
        };
        if loop_action(events[0]) is Continue {
            now + disconnects(events.drop_first())
        } else {
            now
        }
    }
}

/// However the loop ends, the engine has been disconnected exactly once by then, and not before.
pub proof fn law_engine_is_disconnected_once(events: Seq<LoopEvent>)
    ensures
        disconnects(events) == if exists|i: int|
            0 <= i < events.len() && !(loop_action(#[trigger] events[i]) is Continue) {
            1nat
        } else {
            0nat
        },
    decreases events.len(),
{
    if events.len() > 0 {
        let rest = events.drop_first();
        law_engine_is_disconnected_once(rest);
        if loop_action(events[0]) is Continue {
            if exists|i: int|
                0 <= i < events.len() && !(loop_action(#[trigger] events[i]) is Continue) {
                let i = choose|i: int|
                    0 <= i < events.len() && !(loop_action(#[trigger] events[i]) is Continue);
                assert(rest[i - 1] == events[i]);
            }
            if exists|i: int| 0 <= i < rest.len() && !(loop_action(#[trigger] rest[i]) is Continue) {
                let i = choose|i: int|
                    0 <= i < rest.len() && !(loop_action(#[trigger] rest[i]) is Continue);
                assert(events[i + 1] == rest[i]);
            }
        }
    }
}

/// Whether the bytes that a command covers are whole blocks of the volume, at least one; a flush
/// and a disconnect cover none, and are always in order.
pub open spec fn in_order(state: EngineState, block_size_bytes: u32, command: BridgeCommandView) -> bool {
    match command {
        BridgeCommandView::Read { offset_bytes, length_bytes } => {
            &&& block_size_bytes > 0
            &&& length_bytes > 0
            &&& offset_bytes as int % block_size_bytes as int == 0
            &&& length_bytes as int % block_size_bytes as int == 0
            &&& offset_bytes as int / block_size_bytes as int + length_bytes as int
                / block_size_bytes as int <= state.geometry.total_blocks
        },
        BridgeCommandView::Write { offset_bytes, data } => {
            &&& block_size_bytes > 0
            &&& data.len() > 0
            &&& offset_bytes as int % block_size_bytes as int == 0
            &&& data.len() as int % block_size_bytes as int == 0
            &&& offset_bytes as int / block_size_bytes as int + data.len() as int
                / block_size_bytes as int <= state.geometry.total_blocks
        },
        BridgeCommandView::Flush | BridgeCommandView::Disconnect => true,
    }
}

/// A request that does not cover whole blocks of the volume is refused as an invalid argument: it
/// changes nothing, and no backend hears of it.
pub proof fn law_misaligned_or_out_of_range_is_refused(
    before: EngineState,
    block_size_bytes: u32,
    command: BridgeCommandView,
    after: EngineState,
    step: EngineStepView,
)
    requires
        before.geometry.block_size_bytes == block_size_bytes,
        command matches BridgeCommandView::Write { data, .. } ==> data.len() <= u64::MAX,
        handled(before, block_size_bytes, command, after, step),
        !in_order(before, block_size_bytes, command),
    ensures
        after == before,
        step matches EngineStepView::Done(result) && result matches Err(e) && e.errno()
            == errno::INVALID_ARGUMENT,
{
}

/// What was written at an offset is read back from there, whatever the backend holds.
pub proof fn law_bytes_written_are_read_back(
    before: EngineState,
    block_size_bytes: u32,
    offset_bytes: u64,
    data: Seq<u8>,
    after: EngineState,
    written: EngineStepView,
    task: ReadTaskView,
    backend: spec_fn(u64) -> Seq<u8>,
)
    requires
        before.wf(),
        before.geometry.block_size_bytes == block_size_bytes,
        data.len() <= u32::MAX,
        in_order(before, block_size_bytes, BridgeCommandView::Write { offset_bytes, data }),
        handled(
            before,
            block_size_bytes,
            BridgeCommandView::Write { offset_bytes, data },
            after,
            written,
        ),
        handled(
            after,
            block_size_bytes,
            BridgeCommandView::Read { offset_bytes, length_bytes: data.len() as u32 },
            after,
            EngineStepView::Read(task),
        ),
    ensures
        engine_laws::read_run(after, task, backend) == EngineStepView::Done(Ok(data)),
{
    let start_lba = (offset_bytes as int / block_size_bytes as int) as u64;
    let block_count = (data.len() as int / block_size_bytes as int) as u32;
    vstd::arithmetic::div_mod::lemma_div_is_ordered_by_denominator(
        data.len() as int,
        1,
        block_size_bytes as int,
    );
    assert(data.len() as int / 1 == data.len());
    assert(engine::write_error(before, start_lba, data) is None);
    engine_laws::law_read_gives_back_write(
        before,
        start_lba,
        data,
        block_count,
        task,
        backend,
    );
}

/// A request that covers whole blocks of the volume is not refused: a read goes on to the backend,
/// and a write is staged.
pub proof fn law_requests_in_order_are_served(
    before: EngineState,
    block_size_bytes: u32,
    command: BridgeCommandView,
    after: EngineState,
    step: EngineStepView,
)
    requires
        before.geometry.block_size_bytes == block_size_bytes,
        command matches BridgeCommandView::Write { data, .. } ==> data.len() <= usize::MAX,
        command matches BridgeCommandView::Write { data, .. } ==> data.len() as int
            / block_size_bytes as int <= u32::MAX,
        handled(before, block_size_bytes, command, after, step),
        in_order(before, block_size_bytes, command),
    ensures
        command is Read ==> step is Read,
        command matches BridgeCommandView::Write { offset_bytes, data } ==> after
            == before.with_dirty(
            engine::with_blocks(
                before.dirty,
                (offset_bytes as int / block_size_bytes as int) as u64,
                before.block_size(),
                data,
            ),
        ),
{
    if let BridgeCommandView::Read { length_bytes, .. } = command {
        let count = length_bytes as int / block_size_bytes as int;
        assert(count > 0) by (nonlinear_arith)
            requires
                length_bytes > 0,
                block_size_bytes > 0,
                length_bytes as int % block_size_bytes as int == 0,
                count == length_bytes as int / block_size_bytes as int,
        ;
        vstd::arithmetic::div_mod::lemma_fundamental_div_mod(
            length_bytes as int,
            block_size_bytes as int,
        );
        assert(count * block_size_bytes == block_size_bytes * count) by (nonlinear_arith);
        assert(count <= length_bytes) by (nonlinear_arith)
            requires
                block_size_bytes > 0,
                count == length_bytes as int / block_size_bytes as int,
        ;
    }
}

} // verus!
