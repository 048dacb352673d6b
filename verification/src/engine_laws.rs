//! What the block cache promises over several steps.
use crate::engine::{BlockWriteView, EngineState, EngineStepView, FlushGoal, ReadTaskView};
use crate::engine;
use crate::errno;
use crate::errors::TransportErrorView;
use vstd::prelude::*;

verus! {

/// What the volume holds at `lba`: the staged block where there is one, else the backend's.
pub open spec fn content(
    dirty: Map<u64, Seq<u8>>,
    backend: spec_fn(u64) -> Seq<u8>,
    lba: u64,
) -> Seq<u8> {
    if dirty.contains_key(lba) {
        dirty[lba]
    } else {
        backend(lba)
    }
}

/// Whether `after` is `backend` once it has stored a batch, and nothing else.
pub open spec fn stored(
    backend: spec_fn(u64) -> Seq<u8>,
    writes: Seq<BlockWriteView>,
    after: spec_fn(u64) -> Seq<u8>,
) -> bool {
    &&& forall|i: int| 0 <= i < writes.len() ==> after((#[trigger] writes[i]).lba) == writes[i].data
    &&& forall|lba: u64| !engine::lists(writes, lba) ==> #[trigger] after(lba) == backend(lba)
}

/// The bytes that a faithful backend answers a read of `count` blocks from `lba` on with.
pub open spec fn fetched(
    backend: spec_fn(u64) -> Seq<u8>,
    lba: u64,
    count: int,
    block_size: int,
) -> Seq<u8> {
    Seq::new(
        (count * block_size) as nat,
        |i: int| backend((lba + i / block_size) as u64)[i % block_size],
    )
}

/// The bytes of `count` blocks of the volume from `lba` on.
pub open spec fn volume_bytes(
    dirty: Map<u64, Seq<u8>>,
    backend: spec_fn(u64) -> Seq<u8>,
    lba: u64,
    count: int,
    block_size: int,
) -> Seq<u8> {
    fetched(|at: u64| content(dirty, backend, at), lba, count, block_size)
}

/// Where a read ends that starts at `task`, when a faithful backend answers every call.
pub open spec fn read_run(
    state: EngineState,
    task: ReadTaskView,
    backend: spec_fn(u64) -> Seq<u8>,
) -> EngineStepView
    decreases task.start_lba + task.block_count - task.lba,
{
    let reply = fetched(backend, task.lba, task.chunk_blocks as int, state.block_size());
    let step = engine::read_next(state, task, Ok::<Seq<u8>, TransportErrorView>(reply));
    match step {
        EngineStepView::Read(next) => if task.lba < next.lba <= task.start_lba + task.block_count
            && next.start_lba == task.start_lba && next.block_count == task.block_count {
            read_run(state, next, backend)
        } else {
            step
        },
        _ => step,
    }
}

/// After a write was accepted, the volume holds the written data in the written blocks and
/// everywhere else what it held before. A block written twice holds what was written last.
pub proof fn law_write_changes_only_its_blocks(
    state: EngineState,
    start_lba: u64,
    data: Seq<u8>,
    backend: spec_fn(u64) -> Seq<u8>,
    lba: u64,
)
    requires
        state.wf(),
        engine::write_error(state, start_lba, data) is None,
    ensures
        content(
            engine::with_blocks(state.dirty, start_lba, state.block_size(), data),
            backend,
            lba,
        ) == if start_lba <= lba < start_lba + data.len() as int / state.block_size() {
            data.subrange(
                (lba - start_lba) * state.block_size(),
                (lba - start_lba + 1) * state.block_size(),
            )
        } else {
            content(state.dirty, backend, lba)
        },
{
}

/// A batch that the backend took changes nothing that the volume holds.
pub proof fn law_taken_batch_keeps_content(
    dirty: Map<u64, Seq<u8>>,
    writes: Seq<BlockWriteView>,
    backend: spec_fn(u64) -> Seq<u8>,
    after: spec_fn(u64) -> Seq<u8>,
    lba: u64,
)
    requires
        engine::is_next_batch(writes, dirty),
        stored(backend, writes, after),
    ensures
        content(engine::without(dirty, writes), after, lba) == content(dirty, backend, lba),
{
    if engine::lists(writes, lba) {
        let i = choose|i: int| 0 <= i < writes.len() && (#[trigger] writes[i]).lba == lba;
        assert(after(writes[i].lba) == writes[i].data);
    }
}

/// A batch that the backend refused changes nothing that the volume holds, even where the backend
/// stored some of its blocks, or garbled them, before it gave up: all of them are still staged.
pub proof fn law_refused_batch_keeps_content(
    dirty: Map<u64, Seq<u8>>,
    writes: Seq<BlockWriteView>,
    backend: spec_fn(u64) -> Seq<u8>,
    after: spec_fn(u64) -> Seq<u8>,
    lba: u64,
)
    requires
        engine::is_next_batch(writes, dirty),
        forall|at: u64| !engine::lists(writes, at) ==> #[trigger] after(at) == backend(at),
    ensures
        content(dirty, after, lba) == content(dirty, backend, lba),
{
    if engine::lists(writes, lba) {
        let i = choose|i: int| 0 <= i < writes.len() && (#[trigger] writes[i]).lba == lba;
        assert(dirty.contains_key(writes[i].lba));
    } else {
        assert(after(lba) == backend(lba));
    }
}

proof fn lemma_scale(a: int, b: int, scale: int)
    requires
        0 <= a <= b,
        0 <= scale,
    ensures
        0 <= a * scale <= b * scale,
        (b - a) * scale == b * scale - a * scale,
{
    assert(0 <= a * scale <= b * scale) by (nonlinear_arith)
        requires
            0 <= a <= b,
            0 <= scale,
    ;
    assert((b - a) * scale == b * scale - a * scale) by (nonlinear_arith);
}

proof fn lemma_shifted(i: int, blocks: int, block_size: int)
    requires
        block_size > 0,
        0 <= blocks,
        0 <= i,
    ensures
        (blocks * block_size + i) / block_size == blocks + i / block_size,
        (blocks * block_size + i) % block_size == i % block_size,
{
    vstd::arithmetic::div_mod::lemma_fundamental_div_mod(i, block_size);
    let q = i / block_size;
    let r = i % block_size;
    assert((blocks + q) * block_size == blocks * block_size + block_size * q) by (nonlinear_arith);
    vstd::arithmetic::div_mod::lemma_fundamental_div_mod_converse(
        blocks * block_size + i,
        block_size,
        blocks + q,
        r,
    );
}

proof fn lemma_fetched_append(
    backend: spec_fn(u64) -> Seq<u8>,
    lba: u64,
    first: int,
    second: int,
    block_size: int,
)
    requires
        block_size > 0,
        first >= 0,
        second >= 0,
        lba + first + second <= u64::MAX,
    ensures
        fetched(backend, lba, first, block_size) + fetched(
            backend,
            (lba + first) as u64,
            second,
            block_size,
        ) == fetched(backend, lba, first + second, block_size),
{
    lemma_scale(first, first + second, block_size);
    lemma_scale(second, second, block_size);
    let a = fetched(backend, lba, first, block_size);
    let b = fetched(backend, (lba + first) as u64, second, block_size);
    let c = fetched(backend, lba, first + second, block_size);
    assert((first + second) * block_size == first * block_size + second * block_size)
        by (nonlinear_arith);
    assert forall|i: int| 0 <= i < c.len() implies (a + b)[i] == c[i] by {
        if i >= a.len() {
            let j = i - a.len();
            lemma_shifted(j, first, block_size);
            assert((a + b)[i] == b[j]);
        }
    }
    assert(a + b =~= c);
}

proof fn lemma_overlay_is_content(
    dirty: Map<u64, Seq<u8>>,
    backend: spec_fn(u64) -> Seq<u8>,
    lba: u64,
    count: int,
    block_size: int,
)
    requires
        block_size > 0,
        count >= 0,
    ensures
        engine::overlay(dirty, lba, block_size, fetched(backend, lba, count, block_size))
            == volume_bytes(dirty, backend, lba, count, block_size),
{
    assert(engine::overlay(dirty, lba, block_size, fetched(backend, lba, count, block_size))
        =~= volume_bytes(dirty, backend, lba, count, block_size));
}

proof fn lemma_read_run(state: EngineState, task: ReadTaskView, backend: spec_fn(u64) -> Seq<u8>)
    requires
        state.wf(),
        state.block_size() > 0,
        task.wf(state.geometry),
        task.data == fetched(
            backend,
            task.start_lba,
            task.lba - task.start_lba,
            state.block_size(),
        ),
    ensures
        read_run(state, task, backend) == EngineStepView::Done(
            Ok(
                volume_bytes(
                    state.dirty,
                    backend,
                    task.start_lba,
                    task.block_count as int,
                    state.block_size(),
                ),
            ),
        ),
    decreases task.start_lba + task.block_count - task.lba,
{
    let bs = state.block_size();
    let done = task.lba - task.start_lba;
    let reply = fetched(backend, task.lba, task.chunk_blocks as int, bs);
    lemma_scale(0, task.chunk_blocks as int, bs);
    lemma_fetched_append(backend, task.start_lba, done, task.chunk_blocks as int, bs);
    assert((done + task.chunk_blocks) * bs == done * bs + task.chunk_blocks * bs)
        by (nonlinear_arith);
    match engine::read_next(state, task, Ok::<Seq<u8>, TransportErrorView>(reply)) {
        EngineStepView::Read(next) => {
            lemma_read_run(state, next, backend);
        },
        _ => {
            lemma_overlay_is_content(
                state.dirty,
                backend,
                task.start_lba,
                task.block_count as int,
                bs,
            );
        },
    }
}

/// A read of part of the volume, answered by a faithful backend, gives what the volume holds
/// there: the staged blocks, and the backend's where nothing is staged.
pub proof fn law_read_gives_content(
    state: EngineState,
    start_lba: u64,
    block_count: u32,
    task: ReadTaskView,
    backend: spec_fn(u64) -> Seq<u8>,
)
    requires
        state.wf(),
        state.block_size() > 0,
        engine::read_start(state, start_lba, block_count) == EngineStepView::Read(task),
    ensures
        read_run(state, task, backend) == EngineStepView::Done(
            Ok(
                volume_bytes(
                    state.dirty,
                    backend,
                    start_lba,
                    block_count as int,
                    state.block_size(),
                ),
            ),
        ),
{
    let bs = state.block_size();
    assert(0int * bs == 0) by (nonlinear_arith);
    assert(task.data =~= fetched(backend, task.start_lba, 0, bs));
    lemma_read_run(state, task, backend);
}

/// A read of exactly the blocks that were just written gives back what was written, whatever the
/// backend holds.
pub proof fn law_read_gives_back_write(
    state: EngineState,
    start_lba: u64,
    data: Seq<u8>,
    block_count: u32,
    task: ReadTaskView,
    backend: spec_fn(u64) -> Seq<u8>,
)
    requires
        state.wf(),
        engine::write_error(state, start_lba, data) is None,
        data.len() as int / state.block_size() == block_count,
        engine::read_start(
            state.with_dirty(
                engine::with_blocks(state.dirty, start_lba, state.block_size(), data),
            ),
            start_lba,
            block_count,
        ) == EngineStepView::Read(task),
    ensures
        read_run(
            state.with_dirty(
                engine::with_blocks(state.dirty, start_lba, state.block_size(), data),
            ),
            task,
            backend,
        ) == EngineStepView::Done(Ok(data)),
{
    let bs = state.block_size();
    let after = state.with_dirty(engine::with_blocks(state.dirty, start_lba, bs, data));
    lemma_with_blocks_wf(state, start_lba, data);
    law_read_gives_content(after, start_lba, block_count, task, backend);
    let bytes = volume_bytes(after.dirty, backend, start_lba, block_count as int, bs);
    vstd::arithmetic::div_mod::lemma_fundamental_div_mod(data.len() as int, bs);
    assert(bs * block_count == block_count * bs) by (nonlinear_arith);
    assert forall|i: int| 0 <= i < data.len() implies bytes[i] == data[i] by {
        let n = i / bs;
        vstd::arithmetic::div_mod::lemma_fundamental_div_mod(i, bs);
        assert(0 <= n < block_count) by (nonlinear_arith)
            requires
                0 <= i < block_count * bs,
                i == bs * n + i % bs,
                0 <= i % bs < bs,
                bs > 0,
        ;
        assert(bs * n == n * bs) by (nonlinear_arith);
        lemma_scale(n + 1, block_count as int, bs);
        assert((n + 1) * bs == n * bs + bs) by (nonlinear_arith);
        let lba = (start_lba + n) as u64;
        assert(after.dirty.contains_key(lba));
        assert(after.dirty[lba] == data.subrange(n * bs, (n + 1) * bs));
    }
    assert(bytes =~= data);
}

proof fn lemma_with_blocks_wf(state: EngineState, start_lba: u64, data: Seq<u8>)
    requires
        state.wf(),
        engine::write_error(state, start_lba, data) is None,
    ensures
        state.with_dirty(
            engine::with_blocks(state.dirty, start_lba, state.block_size(), data),
        ).wf(),
{
    let bs = state.block_size();
    let grown = engine::with_blocks(state.dirty, start_lba, bs, data);
    let count = data.len() as int / bs;
    vstd::arithmetic::div_mod::lemma_fundamental_div_mod(data.len() as int, bs);
    assert(bs * count == count * bs) by (nonlinear_arith);
    assert forall|lba: u64| #[trigger] grown.contains_key(lba) implies lba
        < state.geometry.total_blocks && grown[lba].len() == bs by {
        if start_lba <= lba < start_lba + count {
            let n = lba - start_lba;
            lemma_scale(n + 1, count, bs);
            lemma_scale(n, n + 1, bs);
            assert((n + 1) * bs == n * bs + bs) by (nonlinear_arith);
        }
    }
    let low = Set::new(|lba: u64| start_lba <= lba < start_lba + count);
    lemma_interval_finite(start_lba, count as nat);
    assert(grown.dom() =~= state.dirty.dom().union(low));
}

proof fn lemma_interval_finite(start_lba: u64, count: nat)
    requires
        start_lba + count <= u64::MAX,
    ensures
        Set::new(|lba: u64| start_lba <= lba < start_lba + count).finite(),
    decreases count,
{
    let all = Set::new(|lba: u64| start_lba <= lba < start_lba + count);
    if count == 0 {
        assert(all =~= Set::empty());
    } else {
        let fewer = (count - 1) as nat;
        lemma_interval_finite(start_lba, fewer);
        let rest = Set::new(|lba: u64| start_lba <= lba < start_lba + fewer);
        assert(all =~= rest.insert((start_lba + fewer) as u64));
    }
}

/// Whether `batches` are all that a flush of `dirty` sends, in order, when each one is taken.
pub open spec fn is_flush(dirty: Map<u64, Seq<u8>>, batches: Seq<Seq<BlockWriteView>>) -> bool
    decreases batches.len(),
{
    if batches.len() == 0 {
        dirty.len() == 0
    } else {
        &&& dirty.len() > 0
        &&& engine::is_next_batch(batches[0], dirty)
        &&& is_flush(engine::without(dirty, batches[0]), batches.drop_first())
    }
}

/// Whether `backends` are the states that a backend goes through while it stores `batches`.
pub open spec fn all_stored(
    backends: Seq<spec_fn(u64) -> Seq<u8>>,
    batches: Seq<Seq<BlockWriteView>>,
) -> bool {
    &&& backends.len() == batches.len() + 1
    &&& forall|i: int|
        0 <= i < batches.len() ==> stored(backends[i], #[trigger] batches[i], backends[i + 1])
}

proof fn lemma_batch_shrinks(dirty: Map<u64, Seq<u8>>, writes: Seq<BlockWriteView>)
    requires
        dirty.dom().finite(),
        engine::is_next_batch(writes, dirty),
    ensures
        engine::without(dirty, writes).dom().finite(),
        engine::without(dirty, writes).len() == dirty.len() - writes.len(),
{
    let lbas = Seq::new(writes.len(), |i: int| writes[i].lba);
    assert(lbas.no_duplicates());
    lbas.unique_seq_to_set();
    let sent = lbas.to_set();
    assert forall|lba: u64| sent.contains(lba) == engine::lists(writes, lba) by {
        if sent.contains(lba) {
            let i = choose|i: int| 0 <= i < lbas.len() && lbas[i] == lba;
            assert(writes[i].lba == lba);
        }
        if engine::lists(writes, lba) {
            let i = choose|i: int| 0 <= i < writes.len() && (#[trigger] writes[i]).lba == lba;
            assert(lbas[i] == lba);
        }
    }
    assert(sent.subset_of(dirty.dom()));
    assert(engine::without(dirty, writes).dom() =~= dirty.dom().difference(sent));
    vstd::set_lib::lemma_set_disjoint_lens(dirty.dom().difference(sent), sent);
    assert(dirty.dom().difference(sent) + sent =~= dirty.dom());
}

proof fn lemma_same_block(
    dirty: Map<u64, Seq<u8>>,
    a: Seq<BlockWriteView>,
    b: Seq<BlockWriteView>,
    i: int,
)
    requires
        engine::is_next_batch(a, dirty),
        engine::is_next_batch(b, dirty),
        0 <= i < a.len(),
        forall|j: int| 0 <= j < i ==> (#[trigger] a[j]).lba == b[j].lba,
    ensures
        b[i].lba <= a[i].lba,
{
    let lba = a[i].lba;
    assert(dirty.contains_key(lba));
    if engine::lists(b, lba) {
        let k = choose|k: int| 0 <= k < b.len() && (#[trigger] b[k]).lba == lba;
        if k < i {
            assert(a[k].lba == b[k].lba);
        }
    } else {
        assert(b[i].lba < lba);
    }
}

proof fn lemma_same_blocks(
    dirty: Map<u64, Seq<u8>>,
    a: Seq<BlockWriteView>,
    b: Seq<BlockWriteView>,
    n: int,
)
    requires
        engine::is_next_batch(a, dirty),
        engine::is_next_batch(b, dirty),
        0 <= n <= a.len(),
    ensures
        forall|j: int| 0 <= j < n ==> (#[trigger] a[j]).lba == b[j].lba,
        forall|j: int| 0 <= j < n ==> (#[trigger] b[j]).lba == a[j].lba,
    decreases n,
{
    if n > 0 {
        lemma_same_blocks(dirty, a, b, n - 1);
        lemma_same_block(dirty, a, b, n - 1);
        lemma_same_block(dirty, b, a, n - 1);
    }
}

/// The staged blocks determine the next batch of a flush.
pub proof fn law_batch_is_determined(
    dirty: Map<u64, Seq<u8>>,
    a: Seq<BlockWriteView>,
    b: Seq<BlockWriteView>,
)
    requires
        engine::is_next_batch(a, dirty),
        engine::is_next_batch(b, dirty),
    ensures
        a == b,
{
    lemma_same_blocks(dirty, a, b, a.len() as int);
    assert forall|i: int| 0 <= i < a.len() implies a[i] == b[i] by {
        assert(a[i].lba == b[i].lba);
        assert(dirty.contains_key(a[i].lba) && dirty.contains_key(b[i].lba));
    }
    assert(a =~= b);
}

/// A batch that the backend refused for the time being is sent again after a pause, by itself and
/// unchanged: what was taken before it is not sent a second time.
pub proof fn law_refused_batch_is_sent_again(
    state: EngineState,
    goal: FlushGoal,
    writes: Seq<BlockWriteView>,
    error: TransportErrorView,
    elapsed: nat,
    resumed: EngineStepView,
)
    requires
        state.wf(),
        engine::flush_goes_on(state, goal, EngineStepView::Write(goal, writes)),
        error is Retryable,
        elapsed < state.config.flush_retry_deadline@,
        engine::flush_goes_on(state, goal, resumed),
    ensures
        engine::flush_refused(state, goal, error, elapsed) == EngineStepView::Pause(
            goal,
            state.config.flush_retry_interval,
        ),
        resumed == EngineStepView::Write(goal, writes),
{
    if let EngineStepView::Write(_, again) = resumed {
        law_batch_is_determined(state.dirty, writes, again);
    }
}

/// A flush whose batches are all taken sends as few batches as hold the staged blocks.
pub proof fn law_flush_batch_count(dirty: Map<u64, Seq<u8>>, batches: Seq<Seq<BlockWriteView>>)
    requires
        dirty.dom().finite(),
        is_flush(dirty, batches),
    ensures
        batches.len() == (dirty.len() + 511) / 512,
        forall|i: int| 0 <= i < batches.len() ==> 1 <= (#[trigger] batches[i]).len() <= 512,
    decreases batches.len(),
{
    if batches.len() > 0 {
        lemma_batch_shrinks(dirty, batches[0]);
        law_flush_batch_count(engine::without(dirty, batches[0]), batches.drop_first());
        assert forall|i: int| 0 <= i < batches.len() implies 1 <= (#[trigger] batches[i]).len()
            <= 512 by {
            if i > 0 {
                assert(batches[i] == batches.drop_first()[i - 1]);
            }
        }
    }
}

/// Once all batches of a flush are taken, the backend by itself holds what the volume held.
pub proof fn law_flush_stores_everything(
    dirty: Map<u64, Seq<u8>>,
    batches: Seq<Seq<BlockWriteView>>,
    backends: Seq<spec_fn(u64) -> Seq<u8>>,
    lba: u64,
)
    requires
        dirty.dom().finite(),
        is_flush(dirty, batches),
        all_stored(backends, batches),
    ensures
        backends.last()(lba) == content(dirty, backends[0], lba),
    decreases batches.len(),
{
    if batches.len() == 0 {
        assert(dirty.dom() =~= Set::empty());
    } else {
        let rest = batches.drop_first();
        let later = backends.drop_first();
        assert forall|i: int| 0 <= i < rest.len() implies stored(
            later[i],
            #[trigger] rest[i],
            later[i + 1],
        ) by {
            assert(rest[i] == batches[i + 1]);
        }
        lemma_batch_shrinks(dirty, batches[0]);
        law_flush_stores_everything(engine::without(dirty, batches[0]), rest, later, lba);
        law_taken_batch_keeps_content(dirty, batches[0], backends[0], backends[1], lba);
    }
}

/// A flush is reported as a success only when nothing is staged any more.
pub proof fn law_flush_succeeds_only_when_all_is_stored(
    state: EngineState,
    goal: FlushGoal,
    step: EngineStepView,
)
    requires
        engine::flush_goes_on(state, goal, step),
        match step {
            EngineStepView::Done(result) => result is Ok,
            EngineStepView::Close(result) => result is Ok,
            _ => false,
        },
    ensures
        state.dirty.len() == 0,
{
}

/// A flush that gives up is an input/output error, and that of a disconnect lets the backend go
/// all the same.
pub proof fn law_flush_that_gives_up_is_an_io_error(
    state: EngineState,
    goal: FlushGoal,
    error: TransportErrorView,
    elapsed: nat,
)
    requires
        !(error is Retryable) || elapsed >= state.config.flush_retry_deadline@,
    ensures
        match engine::flush_refused(state, goal, error, elapsed) {
            EngineStepView::Done(Err(e)) => !(goal is Disconnect) && e.errno()
                == errno::IO_ERROR,
            EngineStepView::Close(Err(e)) => goal is Disconnect && e.errno() == errno::IO_ERROR,
            _ => false,
        },
{
}

} // verus!
