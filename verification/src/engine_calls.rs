//! What callers of the block cache can count on, call by call and from one call to the next.
//!
//! `call_ensures(f, args, r)` says that `f`, called with `args`, returned `r`; of an engine that is
//! passed to be changed, `old(..)` is the engine before the call and `final(..)` the one after it.
use crate::engine::{
    CachingBlockEngine, CloseTask, EngineConfig, EngineStep, FlushGoal, FlushTask, PauseTask,
    ReadTask, VolumeGeometry,
};
use crate::engine;
use crate::errors::{EngineError, TransportError};
use crate::text;
use crate::time::Duration;
use vstd::prelude::*;

verus! {

/// A volume can be laid out where its size is a positive multiple of its block size, and only
/// there; its blocks then fill it exactly.
pub proof fn law_geometry_fills_the_volume(
    size_bytes: u64,
    block_size_bytes: u32,
    r: Result<VolumeGeometry, EngineError>,
)
    requires
        call_ensures(VolumeGeometry::new, (size_bytes, block_size_bytes), r),
    ensures
        r is Ok <==> block_size_bytes > 0 && size_bytes > 0 && exists|n: int|
            #![trigger n * block_size_bytes]
            n * block_size_bytes == size_bytes,
        r matches Ok(g) ==> {
            &&& g.size_bytes == size_bytes
            &&& g.block_size_bytes == block_size_bytes
            &&& g.total_blocks * block_size_bytes == size_bytes
        },
        r matches Err(e) ==> e is InvalidRequest,
{
    let bs = block_size_bytes as int;
    let size = size_bytes as int;
    if bs > 0 {
        vstd::arithmetic::div_mod::lemma_fundamental_div_mod(size, bs);
        if size % bs == 0 {
            assert((size / bs) * bs == size) by (nonlinear_arith)
                requires
                    size == bs * (size / bs) + size % bs,
                    size % bs == 0,
            ;
            assert((size / bs) * block_size_bytes == size_bytes);
        }
        if exists|n: int| #![trigger n * block_size_bytes] n * block_size_bytes == size_bytes {
            let n = choose|n: int|
                #![trigger n * block_size_bytes]
                n * block_size_bytes == size_bytes;
            vstd::arithmetic::div_mod::lemma_mod_multiples_basic(n, bs);
        }
    }
}

/// A new engine has nothing staged, works on the volume that it was given, and keeps its settings,
/// but for a watermark of zero, which would never let a write through.
pub proof fn law_new_engine_is_clean<T>(
    geometry: VolumeGeometry,
    transport: T,
    config: EngineConfig,
    r: CachingBlockEngine<T>,
    n: usize,
)
    requires
        call_ensures(CachingBlockEngine::<T>::new, (geometry, transport, config), r),
        call_ensures(CachingBlockEngine::<T>::dirty_count, (&r,), n),
    ensures
        n == 0,
        forall|lba: u64| !(#[trigger] r@.dirty.contains_key(lba)),
        r@.geometry == geometry,
        r@.config.flush_retry_deadline == config.flush_retry_deadline,
        r@.config.flush_retry_interval == config.flush_retry_interval,
        config.dirty_high_watermark_blocks > 0 ==> r@.config.dirty_high_watermark_blocks
            == config.dirty_high_watermark_blocks,
        r@.config.dirty_high_watermark_blocks >= 1,
        config.dirty_high_watermark_blocks == 0 ==> r@.config.dirty_high_watermark_blocks == 1,
{
}

/// The count of staged blocks is the number of addresses under which a block is staged.
pub proof fn law_staged_blocks_are_counted<T>(e: CachingBlockEngine<T>, n: usize)
    requires
        call_ensures(CachingBlockEngine::<T>::dirty_count, (&e,), n),
    ensures
        n == e@.dirty.dom().len(),
{
}

/// A write is refused, as the caller's fault and without a trace, unless its data are whole blocks,
/// at least one, that all lie in the volume.
pub proof fn law_write_is_accepted_or_refused<T>(
    e: &mut CachingBlockEngine<T>,
    start_lba: u64,
    data: &[u8],
    step: EngineStep,
)
    requires
        old(e).wf(),
        call_ensures(CachingBlockEngine::<T>::write_blocks, (e, start_lba, data), step),
    ensures
        (step matches EngineStep::Done(Err(_))) <==> !(old(e)@.geometry.block_size_bytes > 0 && exists|
            n: int,
        |
            #![trigger n * old(e)@.geometry.block_size_bytes]
            n > 0 && n * old(e)@.geometry.block_size_bytes == data@.len() && start_lba + n
                <= old(e)@.geometry.total_blocks),
        step matches EngineStep::Done(Err(err)) ==> err is InvalidRequest && final(e)@ == old(e)@,
{
    let bs = old(e)@.geometry.block_size_bytes as int;
    let len = data@.len() as int;
    if bs > 0 {
        let n = len / bs;
        vstd::arithmetic::div_mod::lemma_fundamental_div_mod(len, bs);
        if len > 0 && len % bs == 0 {
            assert(n * bs == len && n > 0) by (nonlinear_arith)
                requires
                    len == bs * n + len % bs,
                    len % bs == 0,
                    len > 0,
                    bs > 0,
            ;
            assert(n * old(e)@.geometry.block_size_bytes == len);
        }
        assert forall|m: int|
            #![trigger m * old(e)@.geometry.block_size_bytes]
            m > 0 && m * bs == len implies len > 0 && len % bs == 0 && n == m by {
            vstd::arithmetic::div_mod::lemma_mod_multiples_basic(m, bs);
            vstd::arithmetic::div_mod::lemma_div_by_multiple(m, bs);
            assert(m * bs > 0) by (nonlinear_arith)
                requires
                    m > 0,
                    bs > 0,
            ;
        }
    }
}

/// A write that is done with success leaves fewer blocks staged than the high watermark. One that
/// leaves as many or more goes on to flush them, and says so.
pub proof fn law_done_write_is_below_the_watermark<T>(
    e: &mut CachingBlockEngine<T>,
    start_lba: u64,
    data: &[u8],
    step: EngineStep,
    staged: usize,
)
    requires
        old(e).wf(),
        call_ensures(CachingBlockEngine::<T>::write_blocks, (e, start_lba, data), step),
        call_ensures(CachingBlockEngine::<T>::dirty_count, (&*final(e),), staged),
    ensures
        match step {
            EngineStep::Done(Ok(bytes)) => bytes@.len() == 0 && staged
                < old(e)@.config.dirty_high_watermark_blocks,
            EngineStep::Done(Err(_)) => true,
            EngineStep::Write(task) => staged >= old(e)@.config.dirty_high_watermark_blocks
                && sends_lowest(*final(e), FlushGoal::Write, step),
            _ => false,
        },
{
    if step is Write {
        lemma_sends_lowest(*final(e), FlushGoal::Write, step);
    }
}

/// A request whose flush has begun ends in success only once nothing is staged any more, whatever
/// the backend answers on the way and however often the flush pauses.
pub proof fn law_flushed_request_ends_with_nothing_staged<T>(
    e: &mut CachingBlockEngine<T>,
    task: FlushTask,
    reply: Result<(), TransportError>,
    elapsed: Duration,
    step: EngineStep,
    staged: usize,
    pause: PauseTask,
    resumed: EngineStep,
)
    requires
        old(e).wf(),
        call_ensures(CachingBlockEngine::<T>::write_reply, (e, task, reply, elapsed), step),
        call_ensures(CachingBlockEngine::<T>::dirty_count, (&*final(e),), staged),
        call_ensures(CachingBlockEngine::<T>::resume_flush, (&*final(e), pause), resumed),
    ensures
        (step matches EngineStep::Done(Ok(_))) ==> staged == 0,
        (resumed matches EngineStep::Done(Ok(_))) ==> staged == 0,
        (step matches EngineStep::Close(close) && close.flush_result is Ok) ==> staged == 0,
        (resumed matches EngineStep::Close(close) && close.flush_result is Ok) ==> staged == 0,
{
}

/// Once a write is accepted, each of its blocks is staged with its part of the data; every other
/// block is staged, or not, as it was. Nothing else about the engine changes.
pub proof fn law_write_stages_its_data<T>(
    e: &mut CachingBlockEngine<T>,
    start_lba: u64,
    data: &[u8],
    step: EngineStep,
    lba: u64,
    i: int,
)
    requires
        old(e).wf(),
        call_ensures(CachingBlockEngine::<T>::write_blocks, (e, start_lba, data), step),
        !(step matches EngineStep::Done(Err(_))),
    ensures
        final(e)@.geometry == old(e)@.geometry,
        final(e)@.config == old(e)@.config,
        final(e).held() == old(e).held(),
        ({
            let bs = old(e)@.geometry.block_size_bytes as int;
            let from = (lba - start_lba) * bs;
            if start_lba <= lba && from < data@.len() {
                &&& final(e)@.dirty.contains_key(lba)
                &&& final(e)@.dirty[lba].len() == bs
                &&& 0 <= i < bs ==> from + i < data@.len() && final(e)@.dirty[lba][i] == data@[from
                    + i]
            } else {
                &&& final(e)@.dirty.contains_key(lba) == old(e)@.dirty.contains_key(lba)
                &&& old(e)@.dirty.contains_key(lba) ==> final(e)@.dirty[lba] == old(e)@.dirty[lba]
            }
        }),
{
    let bs = old(e)@.geometry.block_size_bytes as int;
    let len = data@.len() as int;
    let n = len / bs;
    vstd::arithmetic::div_mod::lemma_fundamental_div_mod(len, bs);
    assert(n * bs == len) by (nonlinear_arith)
        requires
            len == bs * n + len % bs,
            len % bs == 0,
    ;
    let k = lba - start_lba;
    if k >= 0 {
        if k < n {
            assert((k + 1) * bs <= n * bs && (k + 1) * bs == k * bs + bs && 0 <= k * bs)
                by (nonlinear_arith)
                requires
                    0 <= k,
                    k + 1 <= n,
                    bs > 0,
            ;
        } else {
            assert(k * bs >= n * bs) by (nonlinear_arith)
                requires
                    k >= n,
                    bs > 0,
            ;
        }
    }
}

/// A read starts where its blocks, at least one, all lie in the volume and their bytes can be
/// counted; else it is refused as the caller's fault. It starts at its first block with nothing
/// read, and asks for all blocks at once where there are no more than 512, else for 512.
pub proof fn law_read_is_started_or_refused<T>(
    e: CachingBlockEngine<T>,
    start_lba: u64,
    block_count: u32,
    step: EngineStep,
)
    requires
        call_ensures(CachingBlockEngine::<T>::read_blocks, (&e, start_lba, block_count), step),
    ensures
        match step {
            EngineStep::Read(task) => {
                &&& block_count > 0
                &&& start_lba + block_count <= e@.geometry.total_blocks
                &&& block_count * e@.geometry.block_size_bytes <= usize::MAX
                &&& task.start_lba == start_lba
                &&& task.block_count == block_count
                &&& task.lba == start_lba
                &&& task.data@.len() == 0
                &&& task.chunk_blocks == if block_count <= 512 {
                    block_count
                } else {
                    512
                }
            },
            EngineStep::Done(Err(err)) => err is InvalidRequest && (block_count == 0 || start_lba
                + block_count > e@.geometry.total_blocks || block_count
                * e@.geometry.block_size_bytes > usize::MAX),
            _ => false,
        },
{
}

/// A read that is refused says why: that it is empty, that it ends beyond the volume, or that it is
/// too large.
pub proof fn law_refused_read_says_why<T>(
    e: CachingBlockEngine<T>,
    start_lba: u64,
    block_count: u32,
    step: EngineStep,
)
    requires
        call_ensures(CachingBlockEngine::<T>::read_blocks, (&e, start_lba, block_count), step),
    ensures
        step matches EngineStep::Done(Err(EngineError::InvalidRequest { message })) ==> message@
            == if block_count == 0 {
            "block_count must be > 0"@
        } else if start_lba + block_count > u64::MAX {
            "request range overflows u64"@
        } else if start_lba + block_count > e@.geometry.total_blocks {
            "request out of range: end_lba "@ + text::decimal((start_lba + block_count) as nat)
                + " > total_blocks "@ + text::decimal(e@.geometry.total_blocks as nat)
        } else {
            "requested read size is too large"@
        },
{
}

/// A write that is refused says why: that it is empty, that it is not made of whole blocks, or that
/// it ends beyond the volume.
pub proof fn law_refused_write_says_why<T>(
    e: &mut CachingBlockEngine<T>,
    start_lba: u64,
    data: &[u8],
    step: EngineStep,
    blocks: int,
)
    requires
        old(e).wf(),
        call_ensures(CachingBlockEngine::<T>::write_blocks, (e, start_lba, data), step),
    ensures
        step matches EngineStep::Done(Err(EngineError::InvalidRequest { message })) ==> {
            let bs = old(e)@.geometry.block_size_bytes as int;
            &&& data@.len() == 0 ==> message@ == "write payload must not be empty"@
            &&& data@.len() > 0 && bs > 0 && blocks * bs == data@.len() && start_lba + blocks
                > u64::MAX ==> message@ == "request range overflows u64"@
            &&& data@.len() > 0 && bs > 0 && blocks * bs == data@.len() && start_lba + blocks
                <= u64::MAX ==> message@ == "request out of range: end_lba "@ + text::decimal(
                (start_lba + blocks) as nat,
            ) + " > total_blocks "@ + text::decimal(old(e)@.geometry.total_blocks as nat)
            &&& data@.len() > 0 && (bs == 0 || data@.len() as int % bs != 0) ==> message@
                == "write payload len "@ + text::decimal(data@.len())
                + " is not aligned to block size "@ + text::decimal(bs as nat)
        },
{
    let bs = old(e)@.geometry.block_size_bytes as int;
    if bs > 0 && blocks * bs == data@.len() {
        let len = data@.len() as int;
        assert(blocks >= 0) by (nonlinear_arith)
            requires
                blocks * bs == len,
                len >= 0,
                bs > 0,
        ;
        vstd::arithmetic::div_mod::lemma_mod_multiples_basic(blocks, bs);
        vstd::arithmetic::div_mod::lemma_div_by_multiple(blocks, bs);
    }
}

/// A volume that cannot be laid out says why.
pub proof fn law_refused_geometry_says_why(
    size_bytes: u64,
    block_size_bytes: u32,
    r: Result<VolumeGeometry, EngineError>,
)
    requires
        call_ensures(VolumeGeometry::new, (size_bytes, block_size_bytes), r),
    ensures
        r matches Err(EngineError::InvalidRequest { message }) ==> message@ == if block_size_bytes
            == 0 {
            "block_size_bytes must be > 0"@
        } else if size_bytes == 0 {
            "size_bytes must be > 0"@
        } else {
            "size_bytes must be a multiple of block_size_bytes"@
        },
{
}

/// An answer of the wrong length is told by its length and the one that was expected.
pub proof fn law_wrong_answer_is_told<T>(
    e: CachingBlockEngine<T>,
    task: ReadTask,
    chunk: Vec<u8>,
    step: EngineStep,
)
    requires
        e.wf(),
        task@.wf(e@.geometry),
        chunk@.len() != task.chunk_blocks * e@.geometry.block_size_bytes,
        call_ensures(CachingBlockEngine::<T>::read_reply, (&e, task, Ok(chunk)), step),
    ensures
        step matches EngineStep::Done(Err(EngineError::Io { message })) && message@
            == "backend returned "@ + text::decimal(chunk@.len()) + " bytes for "@ + text::decimal(
            task.chunk_blocks as nat,
        ) + " blocks (expected "@ + text::decimal(
            (task.chunk_blocks * e@.geometry.block_size_bytes) as nat,
        ) + ")"@,
{
}

/// The backend connection is the one that the engine was made with.
pub proof fn law_connection_is_given_back<T>(
    geometry: VolumeGeometry,
    transport: T,
    config: EngineConfig,
    e: CachingBlockEngine<T>,
    back: T,
)
    requires
        call_ensures(CachingBlockEngine::<T>::new, (geometry, transport, config), e),
        call_ensures(CachingBlockEngine::<T>::into_transport, (e,), back),
    ensures
        back == transport,
{
}

/// Where nothing is said, 2048 blocks may be staged, and a flush is tried again for twenty seconds,
/// every 200 milliseconds.
pub proof fn law_engine_is_set_up_by_default(config: EngineConfig)
    requires
        call_ensures(EngineConfig::default, (), config),
    ensures
        config.dirty_high_watermark_blocks == 2048,
        config.flush_retry_deadline@ == 20 * 1_000_000_000,
        config.flush_retry_interval@ == 200 * 1_000_000,
{
}

/// What the backend answers to a read that has begun takes the read on: a failure, or an answer of
/// the wrong length, ends it with an input/output error; else the answer is added to what has
/// arrived, and the next blocks are asked for, or the read is done. Nothing is skipped, and nothing
/// asked for twice.
pub proof fn law_read_goes_on_where_it_stopped<T>(
    e: CachingBlockEngine<T>,
    task: ReadTask,
    reply: Result<Vec<u8>, TransportError>,
    step: EngineStep,
)
    requires
        e.wf(),
        task@.wf(e@.geometry),
        call_ensures(CachingBlockEngine::<T>::read_reply, (&e, task, reply), step),
    ensures
        reply is Err ==> (step matches EngineStep::Done(Err(err)) && err is Io),
        reply matches Ok(chunk) ==> {
            let end = task.start_lba + task.block_count;
            let next_lba = task.lba + task.chunk_blocks;
            if chunk@.len() != task.chunk_blocks * e@.geometry.block_size_bytes {
                step matches EngineStep::Done(Err(err)) && err is Io
            } else if next_lba < end {
                step matches EngineStep::Read(next) && {
                    &&& next.start_lba == task.start_lba
                    &&& next.block_count == task.block_count
                    &&& next.lba == next_lba
                    &&& next.data@ == task.data@ + chunk@
                    &&& next.chunk_blocks == if end - next_lba <= 512 {
                        end - next_lba
                    } else {
                        512
                    }
                }
            } else {
                step matches EngineStep::Done(Ok(bytes)) && bytes@.len() == task.data@.len()
                    + chunk@.len()
            }
        },
{
}

/// A backend failure is passed on in its own words.
pub proof fn law_read_failure_is_told<T>(
    e: CachingBlockEngine<T>,
    task: ReadTask,
    error: TransportError,
    step: EngineStep,
)
    requires
        e.wf(),
        task@.wf(e@.geometry),
        call_ensures(CachingBlockEngine::<T>::read_reply, (&e, task, Err(error)), step),
    ensures
        step matches EngineStep::Done(Err(EngineError::Io { message })) && match error {
            TransportError::Retryable { message: m } => message@ == m@,
            TransportError::Terminal { message: m } => message@ == m@,
        },
{
}

/// The bytes of a read that is done: byte `i` of a block is that of the staged block where one is
/// staged, else the one that arrived from the backend.
pub proof fn law_read_prefers_what_is_staged<T>(
    e: CachingBlockEngine<T>,
    task: ReadTask,
    chunk: Vec<u8>,
    step: EngineStep,
    k: int,
    i: int,
)
    requires
        e.wf(),
        task@.wf(e@.geometry),
        call_ensures(CachingBlockEngine::<T>::read_reply, (&e, task, Ok(chunk)), step),
        0 <= k < task.block_count,
        0 <= i < e@.geometry.block_size_bytes,
    ensures
        step matches EngineStep::Done(Ok(bytes)) ==> {
            let bs = e@.geometry.block_size_bytes as int;
            let lba = (task.start_lba + k) as u64;
            &&& bytes@.len() == task.block_count * bs
            &&& 0 <= k * bs + i < bytes@.len()
            &&& bytes@[k * bs + i] == if e@.dirty.contains_key(lba) {
                e@.dirty[lba][i]
            } else {
                (task.data@ + chunk@)[k * bs + i]
            }
        },
{
    let bs = e@.geometry.block_size_bytes as int;
    let done = task.lba - task.start_lba;
    assert((done + task.chunk_blocks) * bs == done * bs + task.chunk_blocks * bs)
        by (nonlinear_arith);
    assert(0 <= k * bs + i < task.block_count * bs) by (nonlinear_arith)
        requires
            0 <= k < task.block_count,
            0 <= i < bs,
    ;
    vstd::arithmetic::div_mod::lemma_fundamental_div_mod_converse(k * bs + i, bs, k, i);
}

/// Whether a step sends part of what is staged: at least one block and at most 512, all there are
/// where they are no more than that, in ascending order, as they are staged, and none before one
/// with a lower address.
pub open spec fn sends_lowest<T>(e: CachingBlockEngine<T>, goal: FlushGoal, step: EngineStep) -> bool {
    step matches EngineStep::Write(task) && {
        &&& task.goal == goal
        &&& 1 <= task.writes@.len() <= 512
        &&& task.writes@.len() == 512 || task.writes@.len() == e@.dirty.dom().len()
        &&& forall|i: int, j: int|
            #![trigger task.writes@[i], task.writes@[j]]
            0 <= i < j < task.writes@.len() ==> task.writes@[i].lba < task.writes@[j].lba
        &&& forall|i: int|
            0 <= i < task.writes@.len() ==> e@.dirty.contains_key(
                (#[trigger] task.writes@[i]).lba,
            ) && e@.dirty[task.writes@[i].lba] == task.writes@[i].data@
        &&& forall|lba: u64, i: int|
            #![trigger e@.dirty.contains_key(lba), task.writes@[i]]
            e@.dirty.contains_key(lba) && 0 <= i < task.writes@.len() && lba < task.writes@[i].lba
                ==> exists|j: int| 0 <= j < i && (#[trigger] task.writes@[j]).lba == lba
    }
}

/// Whether a step is the regular end of a flush.
pub open spec fn ends_well(goal: FlushGoal, step: EngineStep) -> bool {
    match goal {
        FlushGoal::Disconnect => step matches EngineStep::Close(task) && task.flush_result is Ok,
        _ => step matches EngineStep::Done(Ok(bytes)) && bytes@.len() == 0,
    }
}

/// How a flush goes on, stated by the blocks that are staged.
pub proof fn lemma_sends_lowest<T>(e: CachingBlockEngine<T>, goal: FlushGoal, step: EngineStep)
    requires
        engine::flush_goes_on(e@, goal, step@),
    ensures
        if e@.dirty.dom().len() == 0 {
            ends_well(goal, step)
        } else {
            sends_lowest(e, goal, step)
        },
{
    if e@.dirty.dom().len() > 0 {
        if let EngineStep::Write(task) = step {
            let view = engine::writes_view(task.writes@);
            assert forall|i: int, j: int|
                #![trigger task.writes@[i], task.writes@[j]]
                0 <= i < j < task.writes@.len() implies task.writes@[i].lba < task.writes@[j].lba by {
                assert(view[i].lba < view[j].lba);
            }
            assert forall|i: int| 0 <= i < task.writes@.len() implies e@.dirty.contains_key(
                (#[trigger] task.writes@[i]).lba,
            ) && e@.dirty[task.writes@[i].lba] == task.writes@[i].data@ by {
                assert(e@.dirty.contains_key(view[i].lba));
            }
            assert forall|lba: u64, i: int|
                #![trigger e@.dirty.contains_key(lba), task.writes@[i]]
                e@.dirty.contains_key(lba) && 0 <= i < task.writes@.len() && lba
                    < task.writes@[i].lba implies exists|j: int|
                0 <= j < i && (#[trigger] task.writes@[j]).lba == lba by {
                assert(view[i].lba == task.writes@[i].lba);
                if engine::lists(view, lba) {
                    let j = choose|j: int| 0 <= j < view.len() && (#[trigger] view[j]).lba == lba;
                    assert(task.writes@[j].lba == lba);
                    if j > i {
                        assert(view[i].lba < view[j].lba);
                    }
                }
            }
        }
    }
}

/// A flush that is asked for, or that a disconnect begins with, or that goes on after a pause, sends
/// the lowest staged blocks; with nothing staged it is over.
pub proof fn law_flush_sends_the_lowest_blocks<T>(
    e: CachingBlockEngine<T>,
    pause: PauseTask,
    flushed: EngineStep,
    left: EngineStep,
    resumed: EngineStep,
)
    requires
        call_ensures(CachingBlockEngine::<T>::flush, (&e,), flushed),
        call_ensures(CachingBlockEngine::<T>::disconnect, (&e,), left),
        call_ensures(CachingBlockEngine::<T>::resume_flush, (&e, pause), resumed),
    ensures
        if e@.dirty.dom().len() == 0 {
            &&& ends_well(FlushGoal::Flush, flushed)
            &&& ends_well(FlushGoal::Disconnect, left)
            &&& ends_well(pause.goal, resumed)
        } else {
            &&& sends_lowest(e, FlushGoal::Flush, flushed)
            &&& sends_lowest(e, FlushGoal::Disconnect, left)
            &&& sends_lowest(e, pause.goal, resumed)
        },
{
    lemma_sends_lowest(e, FlushGoal::Flush, flushed);
    lemma_sends_lowest(e, FlushGoal::Disconnect, left);
    lemma_sends_lowest(e, pause.goal, resumed);
}

/// A batch that was taken is staged no more, and all else is as it was; then the next lowest blocks
/// are sent, and only with nothing staged any more is the flush over.
pub proof fn law_taken_batch_is_unstaged<T>(
    e: &mut CachingBlockEngine<T>,
    task: FlushTask,
    elapsed: Duration,
    step: EngineStep,
    lba: u64,
)
    requires
        old(e).wf(),
        call_ensures(CachingBlockEngine::<T>::write_reply, (e, task, Ok(()), elapsed), step),
    ensures
        final(e)@.geometry == old(e)@.geometry,
        final(e)@.config == old(e)@.config,
        final(e).held() == old(e).held(),
        final(e)@.dirty.contains_key(lba) <==> old(e)@.dirty.contains_key(lba) && forall|i: int|
            0 <= i < task.writes@.len() ==> (#[trigger] task.writes@[i]).lba != lba,
        final(e)@.dirty.contains_key(lba) ==> final(e)@.dirty[lba] == old(e)@.dirty[lba],
        if final(e)@.dirty.dom().len() == 0 {
            ends_well(task.goal, step)
        } else {
            sends_lowest(*final(e), task.goal, step)
        },
{
    lemma_sends_lowest(*final(e), task.goal, step);
    let view = engine::writes_view(task.writes@);
    assert forall|i: int| 0 <= i < task.writes@.len() implies view[i].lba == (
    #[trigger] task.writes@[i]).lba by {}
    if engine::lists(view, lba) {
        let i = choose|i: int| 0 <= i < view.len() && (#[trigger] view[i]).lba == lba;
        assert(task.writes@[i].lba == lba);
    } else {
        assert forall|i: int| 0 <= i < task.writes@.len() implies (#[trigger] task.writes@[i]).lba
            != lba by {
            assert(view[i].lba != lba);
        }
    }
}

/// A batch that was refused stays staged, with all else. It is sent again after the configured pause
/// where the failure may pass and the deadline has not, and only there; else the flush is over with
/// an input/output error in the backend's words.
pub proof fn law_refused_batch_stays_staged<T>(
    e: &mut CachingBlockEngine<T>,
    task: FlushTask,
    error: TransportError,
    elapsed: Duration,
    step: EngineStep,
)
    requires
        old(e).wf(),
        call_ensures(CachingBlockEngine::<T>::write_reply, (e, task, Err(error), elapsed), step),
    ensures
        final(e)@ == old(e)@,
        final(e).held() == old(e).held(),
        ({
            let message = match error {
                TransportError::Retryable { message } => message@,
                TransportError::Terminal { message } => message@,
            };
            if error is Retryable && elapsed@ < old(e)@.config.flush_retry_deadline@ {
                step matches EngineStep::Pause(pause) && pause.goal == task.goal && pause.interval
                    == old(e)@.config.flush_retry_interval
            } else if task.goal is Disconnect {
                step matches EngineStep::Close(close) && close.flush_result matches Err(
                    EngineError::Io { message: m },
                ) && m@ == message
            } else {
                step matches EngineStep::Done(Err(EngineError::Io { message: m })) && m@ == message
            }
        }),
{
}

/// A disconnect ends with what its flush came to where that failed, else with what letting the
/// backend go came to.
pub proof fn law_disconnect_reports_the_first_failure<T>(
    e: CachingBlockEngine<T>,
    task: CloseTask,
    reply: Result<(), TransportError>,
    step: EngineStep,
)
    requires
        call_ensures(CachingBlockEngine::<T>::close_reply, (&e, task, reply), step),
    ensures
        match (task.flush_result, reply) {
            (Err(first), _) => step matches EngineStep::Done(Err(err)) && err@ == first@,
            (Ok(()), Err(TransportError::Retryable { message })) => step matches EngineStep::Done(
                Err(EngineError::Io { message: m }),
            ) && m@ == message@,
            (Ok(()), Err(TransportError::Terminal { message })) => step matches EngineStep::Done(
                Err(EngineError::Io { message: m }),
            ) && m@ == message@,
            (Ok(()), Ok(())) => step matches EngineStep::Done(Ok(bytes)) && bytes@.len() == 0,
        },
{
}

/// The caller's faults are told as `EINVAL`, the backend's as `EIO`.
pub proof fn law_faults_have_their_error_numbers(error: EngineError, number: i32)
    requires
        call_ensures(EngineError::errno, (&error,), number),
    ensures
        error is InvalidRequest ==> number == 22,
        error is Io ==> number == 5,
{
}

} // verus!
