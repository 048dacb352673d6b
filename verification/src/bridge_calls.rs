//! What callers of the bridge can count on, call by call.
//!
//! `call_ensures(f, args, r)` says that `f`, called with `args`, returned `r`; of an engine that is
//! passed to be changed, `old(..)` is the engine before the call and `final(..)` the one after it.
use crate::bridge::{BridgeCommand, BridgeResponse, LoopAction, LoopEvent};
use crate::bridge;
use crate::engine::{CachingBlockEngine, EngineStep, FlushGoal};
use crate::engine_calls;
use crate::errors::EngineError;
use crate::text;
use vstd::prelude::*;

verus! {

/// A range of bytes is translated to the blocks that it covers exactly; it is refused, as the
/// caller's fault, where there are none such, or more than can be counted.
pub proof fn law_bytes_and_blocks_cover_the_same(
    offset_bytes: u64,
    length_bytes: u64,
    block_size_bytes: u32,
    r: Result<(u64, u32), EngineError>,
)
    requires
        call_ensures(
            bridge::offset_len_to_lba,
            (offset_bytes, length_bytes, block_size_bytes),
            r,
        ),
    ensures
        r matches Ok((lba, count)) ==> {
            &&& count > 0
            &&& lba * block_size_bytes == offset_bytes
            &&& count * block_size_bytes == length_bytes
        },
        r matches Err(e) ==> e is InvalidRequest && forall|lba: int, count: int|
            #![trigger lba * block_size_bytes, count * block_size_bytes]
            !(0 < count <= u32::MAX && lba * block_size_bytes == offset_bytes && count
                * block_size_bytes == length_bytes && block_size_bytes > 0),
{
    let bs = block_size_bytes as int;
    let offset = offset_bytes as int;
    let length = length_bytes as int;
    if bs > 0 {
        vstd::arithmetic::div_mod::lemma_fundamental_div_mod(offset, bs);
        vstd::arithmetic::div_mod::lemma_fundamental_div_mod(length, bs);
        assert(bs * (offset / bs) == (offset / bs) * bs && bs * (length / bs) == (length / bs) * bs)
            by (nonlinear_arith);
        vstd::arithmetic::div_mod::lemma_div_is_ordered_by_denominator(offset, 1, bs);
        vstd::arithmetic::div_mod::lemma_div_pos_is_pos(offset, bs);
        if r is Ok {
            let blocks = length / bs;
            assert(blocks > 0) by (nonlinear_arith)
                requires
                    length == bs * blocks,
                    length > 0,
                    bs > 0,
            ;
            assert(r->Ok_0.0 == offset / bs);
            assert(r->Ok_0.1 == blocks);
        }
        assert forall|lba: int, count: int|
            #![trigger lba * block_size_bytes, count * block_size_bytes]
            0 < count <= u32::MAX && lba * bs == offset && count * bs == length implies r is Ok by {
            vstd::arithmetic::div_mod::lemma_mod_multiples_basic(lba, bs);
            vstd::arithmetic::div_mod::lemma_mod_multiples_basic(count, bs);
            vstd::arithmetic::div_mod::lemma_div_by_multiple(count, bs);
            assert(count * bs > 0) by (nonlinear_arith)
                requires
                    count > 0,
                    bs > 0,
            ;
        }
    }
}

/// A read of bytes reads the blocks that these bytes are, where they are whole blocks of the volume,
/// and is refused as the caller's fault where they are not. It changes nothing.
pub proof fn law_read_of_bytes<T>(
    e: &mut CachingBlockEngine<T>,
    block_size_bytes: u32,
    offset_bytes: u64,
    length_bytes: u32,
    step: EngineStep,
)
    requires
        old(e).wf(),
        old(e)@.geometry.wf(),
        old(e)@.geometry.block_size_bytes == block_size_bytes,
        call_ensures(
            bridge::handle_request::<T>,
            (e, block_size_bytes, BridgeCommand::Read { offset_bytes, length_bytes }),
            step,
        ),
    ensures
        final(e)@ == old(e)@,
        final(e).held() == old(e).held(),
        match step {
            EngineStep::Read(task) => {
                &&& task.start_lba * block_size_bytes == offset_bytes
                &&& task.block_count * block_size_bytes == length_bytes
                &&& task.lba == task.start_lba
                &&& task.data@.len() == 0
                &&& length_bytes > 0
                &&& offset_bytes + length_bytes <= old(e)@.geometry.size_bytes
            },
            EngineStep::Done(Err(err)) => {
                &&& err is InvalidRequest
                &&& length_bytes == 0 || offset_bytes as int % block_size_bytes as int != 0
                    || length_bytes as int % block_size_bytes as int != 0 || offset_bytes
                    + length_bytes > old(e)@.geometry.size_bytes
            },
            _ => false,
        },
{
    let bs = block_size_bytes as int;
    let offset = offset_bytes as int;
    let length = length_bytes as int;
    let total = old(e)@.geometry.total_blocks as int;
    vstd::arithmetic::div_mod::lemma_fundamental_div_mod(offset, bs);
    vstd::arithmetic::div_mod::lemma_fundamental_div_mod(length, bs);
    let lba = offset / bs;
    let count = length / bs;
    assert(bs * lba == lba * bs && bs * count == count * bs && (lba + count) * bs == lba * bs + count
        * bs) by (nonlinear_arith);
    vstd::arithmetic::div_mod::lemma_div_is_ordered_by_denominator(offset, 1, bs);
    vstd::arithmetic::div_mod::lemma_div_is_ordered_by_denominator(length, 1, bs);
    if lba + count <= total {
        assert((lba + count) * bs <= total * bs) by (nonlinear_arith)
            requires
                lba + count <= total,
                bs > 0,
        ;
    } else {
        assert((lba + count) * bs > total * bs) by (nonlinear_arith)
            requires
                lba + count > total,
                bs > 0,
        ;
    }
    if length > 0 && length % bs == 0 {
        assert(count > 0) by (nonlinear_arith)
            requires
                length == bs * count,
                length > 0,
                bs > 0,
        ;
    }
}

/// Bytes that are written are staged where they belong: byte `i` of the data is then the byte of the
/// volume at `offset_bytes + i`. Data that are not whole blocks of the volume are refused as the
/// caller's fault, and nothing changes. (Data of more than `u32::MAX` blocks are set aside: those are
/// refused too.)
pub proof fn law_write_of_bytes<T>(
    e: &mut CachingBlockEngine<T>,
    block_size_bytes: u32,
    offset_bytes: u64,
    data: Vec<u8>,
    step: EngineStep,
    i: int,
)
    requires
        old(e).wf(),
        old(e)@.geometry.wf(),
        old(e)@.geometry.block_size_bytes == block_size_bytes,
        data@.len() <= usize::MAX,
        data@.len() as int / block_size_bytes as int <= u32::MAX,
        call_ensures(
            bridge::handle_request::<T>,
            (e, block_size_bytes, BridgeCommand::Write { offset_bytes, data }),
            step,
        ),
    ensures
        ({
            let bs = block_size_bytes as int;
            let at = offset_bytes + i;
            let lba = (at / bs) as u64;
            if data@.len() == 0 || offset_bytes as int % bs != 0 || data@.len() as int % bs != 0
                || offset_bytes + data@.len() > old(e)@.geometry.size_bytes {
                &&& step matches EngineStep::Done(Err(err)) && err is InvalidRequest
                &&& final(e)@ == old(e)@
            } else {
                &&& !(step matches EngineStep::Done(Err(_)))
                &&& 0 <= i < data@.len() ==> {
                    &&& final(e)@.dirty.contains_key(lba)
                    &&& final(e)@.dirty[lba].len() == bs
                    &&& final(e)@.dirty[lba][at % bs] == data@[i]
                }
            }
        }),
{
    let bs = block_size_bytes as int;
    let offset = offset_bytes as int;
    let length = data@.len() as int;
    let total = old(e)@.geometry.total_blocks as int;
    vstd::arithmetic::div_mod::lemma_fundamental_div_mod(offset, bs);
    vstd::arithmetic::div_mod::lemma_fundamental_div_mod(length, bs);
    let lba = offset / bs;
    let count = length / bs;
    assert(bs * lba == lba * bs && bs * count == count * bs && (lba + count) * bs == lba * bs + count
        * bs) by (nonlinear_arith);
    vstd::arithmetic::div_mod::lemma_div_is_ordered_by_denominator(offset, 1, bs);
    if lba + count <= total {
        assert((lba + count) * bs <= total * bs) by (nonlinear_arith)
            requires
                lba + count <= total,
                bs > 0,
        ;
    } else {
        assert((lba + count) * bs > total * bs) by (nonlinear_arith)
            requires
                lba + count > total,
                bs > 0,
        ;
    }
    if offset % bs == 0 && length % bs == 0 && 0 <= i < length {
        let k = i / bs;
        let j = i % bs;
        vstd::arithmetic::div_mod::lemma_fundamental_div_mod(i, bs);
        assert(0 <= k < count) by (nonlinear_arith)
            requires
                i == bs * k + j,
                0 <= j < bs,
                0 <= i < length,
                length == bs * count,
                bs > 0,
        ;
        assert(bs * k == k * bs && (lba + k) * bs + j == offset + i && (k + 1) * bs == k * bs + bs)
            by (nonlinear_arith)
            requires
                i == bs * k + j,
                offset == lba * bs,
        ;
        vstd::arithmetic::div_mod::lemma_fundamental_div_mod_converse(
            offset + i,
            bs,
            lba + k,
            j,
        );
        assert((k + 1) * bs <= count * bs) by (nonlinear_arith)
            requires
                k + 1 <= count,
                bs > 0,
        ;
    }
}

/// A write of bytes leaves every block alone that none of them belongs to, and ends at once only
/// where fewer blocks than the high watermark are staged then.
pub proof fn law_write_of_bytes_leaves_the_rest<T>(
    e: &mut CachingBlockEngine<T>,
    block_size_bytes: u32,
    offset_bytes: u64,
    data: Vec<u8>,
    step: EngineStep,
    lba: u64,
    staged: usize,
)
    requires
        old(e).wf(),
        old(e)@.geometry.block_size_bytes == block_size_bytes,
        call_ensures(
            bridge::handle_request::<T>,
            (e, block_size_bytes, BridgeCommand::Write { offset_bytes, data }),
            step,
        ),
        call_ensures(CachingBlockEngine::<T>::dirty_count, (&*final(e),), staged),
        (lba + 1) * block_size_bytes <= offset_bytes || lba * block_size_bytes >= offset_bytes
            + data@.len(),
    ensures
        final(e)@.geometry == old(e)@.geometry,
        final(e)@.config == old(e)@.config,
        final(e).held() == old(e).held(),
        final(e)@.dirty.contains_key(lba) == old(e)@.dirty.contains_key(lba),
        old(e)@.dirty.contains_key(lba) ==> final(e)@.dirty[lba] == old(e)@.dirty[lba],
        match step {
            EngineStep::Done(Ok(bytes)) => bytes@.len() == 0 && staged
                < old(e)@.config.dirty_high_watermark_blocks,
            EngineStep::Done(Err(err)) => err is InvalidRequest && final(e)@ == old(e)@,
            _ => staged >= old(e)@.config.dirty_high_watermark_blocks
                && engine_calls::sends_lowest(*final(e), FlushGoal::Write, step),
        },
{
    let bs = block_size_bytes as int;
    let offset = offset_bytes as int;
    let length = data@.len() as int;
    if step is Write {
        engine_calls::lemma_sends_lowest(*final(e), FlushGoal::Write, step);
    }
    if bs > 0 {
        vstd::arithmetic::div_mod::lemma_fundamental_div_mod(offset, bs);
        vstd::arithmetic::div_mod::lemma_fundamental_div_mod(length, bs);
        let first = offset / bs;
        let count = length / bs;
        if offset % bs == 0 && length % bs == 0 {
            assert(lba < first || lba >= first + count) by (nonlinear_arith)
                requires
                    offset == bs * first,
                    length == bs * count,
                    (lba + 1) * bs <= offset || lba * bs >= offset + length,
                    bs > 0,
            ;
            vstd::arithmetic::div_mod::lemma_div_is_ordered_by_denominator(offset, 1, bs);
        }
    }
}

/// A range of bytes that is refused is told for the first thing that is wrong with it.
pub proof fn law_refused_range_says_why(
    offset_bytes: u64,
    length_bytes: u64,
    block_size_bytes: u32,
    r: Result<(u64, u32), EngineError>,
)
    requires
        call_ensures(
            bridge::offset_len_to_lba,
            (offset_bytes, length_bytes, block_size_bytes),
            r,
        ),
    ensures
        r matches Err(EngineError::InvalidRequest { message }) ==> message@ == if block_size_bytes
            == 0 {
            "block size must be > 0"@
        } else if length_bytes == 0 {
            "request length must be > 0"@
        } else if offset_bytes as int % block_size_bytes as int != 0 {
            "offset "@ + text::decimal(offset_bytes as nat) + " is not aligned to block size "@
                + text::decimal(block_size_bytes as nat)
        } else if length_bytes as int % block_size_bytes as int != 0 {
            "length "@ + text::decimal(length_bytes as nat) + " is not aligned to block size "@
                + text::decimal(block_size_bytes as nat)
        } else {
            "block_count does not fit into u32"@
        },
{
}

/// A request that was lost, on its way or on its way back, is answered with `EIO` and what became of
/// it.
pub proof fn law_lost_requests_are_answered(
    detail: &str,
    closed: BridgeResponse,
    dropped: BridgeResponse,
)
    requires
        call_ensures(BridgeResponse::queue_closed, (detail,), closed),
        call_ensures(BridgeResponse::response_dropped, (detail,), dropped),
    ensures
        closed.errno == 5,
        closed.data@ == vstd::utf8::encode_utf8("bridge queue closed: "@ + detail@),
        dropped.errno == 5,
        dropped.data@ == vstd::utf8::encode_utf8("bridge response dropped: "@ + detail@),
{
}

/// A failure is answered with its error number, and no data.
pub proof fn law_failure_is_answered(error: EngineError, response: BridgeResponse)
    requires
        call_ensures(BridgeResponse::from_error, (error,), response),
    ensures
        error is InvalidRequest ==> response.errno == 22,
        error is Io ==> response.errno == 5,
        response.data@.len() == 0,
{
}

/// A flush, and the flush that a disconnect begins with, send the lowest staged blocks; with nothing
/// staged they are over. Neither changes what is staged by itself.
pub proof fn law_flush_and_disconnect_are_passed_on<T>(
    e: &mut CachingBlockEngine<T>,
    block_size_bytes: u32,
    command: BridgeCommand,
    step: EngineStep,
)
    requires
        old(e).wf(),
        command is Flush || command is Disconnect,
        call_ensures(bridge::handle_request::<T>, (e, block_size_bytes, command), step),
    ensures
        final(e)@ == old(e)@,
        ({
            let goal = if command is Flush {
                FlushGoal::Flush
            } else {
                FlushGoal::Disconnect
            };
            if old(e)@.dirty.dom().len() == 0 {
                engine_calls::ends_well(goal, step)
            } else {
                engine_calls::sends_lowest(*old(e), goal, step)
            }
        }),
{
    let goal = if command is Flush {
        FlushGoal::Flush
    } else {
        FlushGoal::Disconnect
    };
    engine_calls::lemma_sends_lowest(*old(e), goal, step);
}

/// Only a disconnect ends a session.
pub proof fn law_only_a_disconnect_ends_a_session(command: BridgeCommand, r: bool)
    requires
        call_ensures(BridgeCommand::ends_session, (&command,), r),
    ensures
        r <==> command is Disconnect,
{
}

/// The loop goes on after any answer but that to a disconnect. It disconnects the engine on its way
/// out unless a disconnect was what ended it.
pub proof fn law_loop_ends_by_a_disconnect(event: LoopEvent, action: LoopAction)
    requires
        call_ensures(bridge::next_loop_action, (event,), action),
    ensures
        action is Continue <==> event == (LoopEvent::Answered { ends_session: false }),
        action is Exit <==> event == (LoopEvent::Answered { ends_session: true }),
{
}

/// A success is answered with zero and its data, a failure with its error number, which is not zero,
/// and no data.
pub proof fn law_responses_tell_success_from_failure(
    result: Result<Vec<u8>, EngineError>,
    response: BridgeResponse,
)
    requires
        call_ensures(BridgeResponse::from_result, (result,), response),
    ensures
        match result {
            Ok(data) => response.errno == 0 && response.data@ == data@,
            Err(EngineError::InvalidRequest { .. }) => response.errno == 22
                && response.data@.len() == 0,
            Err(EngineError::Io { .. }) => response.errno == 5 && response.data@.len() == 0,
        },
{
}

/// The queue holds as many requests as was asked for, and at least one.
pub proof fn law_queue_holds_a_request(capacity: usize, r: usize)
    requires
        call_ensures(bridge::queue_capacity, (capacity,), r),
    ensures
        r >= 1,
        r >= capacity,
        r <= capacity || r == 1,
{
}

} // verus!
