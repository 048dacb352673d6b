//! What the device service promises over several requests.
use crate::control::fingerprint;
use crate::control::protocol::{
    AddDeviceRequest, ControlRequest, ErrorCode, Operation, ProtocolError, RemoveDeviceRequest,
    RequestBody, RequestEnvelope, ResponseResultView, ResponseView,
};
use crate::control::protocol;
use crate::text;
use crate::ublk::device::{DeviceState, RemoveDeviceResultView};
use crate::ublk::device;
use crate::ublk::registry::{DeviceView, OutcomeView, Registry, RemovePreparationView};
use crate::ublk::registry;
use crate::ublk::server::{PendingView, RequestStepView, RuntimeStartErrorView};
use crate::ublk::server;
use vstd::prelude::*;

verus! {

/// The answer to a repeated request: the first answer under the identifier of the repetition.
pub open spec fn replayed(response: ResponseView, request_id: Seq<char>) -> ResponseView {
    ResponseView { version: protocol::PROTOCOL_VERSION@, request_id, ..response }
}

/// Setting a number aside for a device keeps a registry in order. The number is one that no live
/// device has, and all other devices are left as they are.
pub proof fn law_reservation_keeps_order(
    reg: Registry,
    request_id: Seq<char>,
    body: AddDeviceRequest,
)
    requires
        reg.wf(),
    ensures
        registry::reserve(reg, request_id, body).0.wf(),
        registry::reserve(reg, request_id, body).1 matches Ok(reservation) ==> {
            let after = registry::reserve(reg, request_id, body).0;
            &&& after.devices.contains_key(reservation.device_id)
            &&& after.devices[reservation.device_id].state is Allocating
            &&& !registry::is_live(reg.devices, reservation.device_id)
            &&& forall|other: u32| #[trigger]
                after.devices.contains_key(other) && other != reservation.device_id
                    ==> reg.devices.contains_key(other) && after.devices[other]
                    == reg.devices[other]
        },
{
    registry::lemma_first_free(reg.devices, reg.next_device_id, 0x1_0000_0000);
    registry::lemma_reserved(reg, request_id, body);
}

/// Whatever happens to a device, and in whatever order, a registry that is in order stays so: the
/// volumes that are taken are those of the live devices, of which there are no more than allowed,
/// and neither terminal devices nor kept outcomes pile up.
pub proof fn law_changes_keep_order(reg: Registry, id: u32)
    requires
        reg.wf(),
    ensures
        registry::opening(reg, id).0.wf(),
        forall|request_id: Seq<char>| #[trigger] registry::added(reg, request_id, id).0.wf(),
        forall|request_id: Seq<char>, code: ErrorCode, message: Seq<char>|
            (#[trigger] registry::add_failed(reg, request_id, id, code, message)).0.wf(),
        forall|request_id: Seq<char>, body: RemoveDeviceRequest|
            (#[trigger] registry::draining(reg, request_id, body)).0.wf(),
        forall|request_id: Seq<char>, forced: bool|
            (#[trigger] registry::removed(reg, request_id, id, forced)).0.wf(),
{
    reg.lemma_ticked();
    if registry::is_live(reg.devices, id) {
        let d = reg.devices[id];
        reg.lemma_changed(id, DeviceState::OpeningVolume, d.last_error);
        reg.lemma_changed(id, DeviceState::Serving, None);
        assert forall|request_id: Seq<char>, code: ErrorCode, message: Seq<char>|
            (#[trigger] registry::add_failed(reg, request_id, id, code, message)).0.wf() by {
            reg.lemma_changed(id, DeviceState::Failed, Some(message));
            reg.changed(id, DeviceState::Failed, Some(message)).released(
                d.volume_id,
            ).lemma_tidied();
        }
        assert forall|request_id: Seq<char>, forced: bool|
            (#[trigger] registry::removed(reg, request_id, id, forced)).0.wf() by {
            let state = if forced {
                DeviceState::ForceDetached
            } else {
                DeviceState::Detached
            };
            reg.lemma_changed(id, state, d.last_error);
            reg.changed(id, state, d.last_error).released(d.volume_id).lemma_tidied();
        }
    }
    assert forall|request_id: Seq<char>, body: RemoveDeviceRequest|
        (#[trigger] registry::draining(reg, request_id, body)).0.wf() by {
        if let Ok(target) = registry::remove_target(reg, body) {
            if registry::is_live(reg.devices, target) {
                reg.lemma_changed(target, DeviceState::Draining, reg.devices[target].last_error);
            }
        }
    }
}

/// A mutating operation that is asked for again under its key is answered as it was the first
/// time, but for the identifier of the request.
pub proof fn law_repetition_is_answered_the_same(
    reg: Registry,
    key: Seq<char>,
    op: Operation,
    print: Seq<u8>,
    response: ResponseView,
    request_id: Seq<char>,
)
    requires
        reg.wf(),
        !text::is_blank(key),
    ensures
        registry::known_answer(
            registry::remembered(reg, key, op, print, response),
            request_id,
            key,
            op,
            print,
        ) == Some(replayed(response, request_id)),
{
    registry::lemma_remembered(reg, key, op, print, response);
    let after = registry::remembered(reg, key, op, print, response);
    registry::lemma_kept_at(after, key, after.cache.len() - 1);
}

/// A request to add or to remove a device that is handled twice changes nothing the second time, and
/// is answered the same.
pub proof fn law_repeated_request_changes_nothing(
    before: Registry,
    first: ControlRequest,
    middle: Registry,
    answer: ResponseView,
    second: ControlRequest,
    after: Registry,
    second_answer: ResponseView,
)
    requires
        before.wf(),
        first.body.operation().mutating(),
        second.body == first.body,
        registry::key_of(second) == registry::key_of(first),
        !text::is_blank(registry::key_of(first)),
        registry::known_answer(
            before,
            first.request_id@,
            registry::key_of(first),
            first.body.operation(),
            fingerprint::fingerprint(first.body),
        ) is None,
        registry::handled(before, first, middle, answer),
        registry::handled(middle, second, after, second_answer),
    ensures
        after == middle,
        second_answer == replayed(answer, second.request_id@),
{
    let request_id = first.request_id@;
    let done = match first.body {
        RequestBody::AddDevice(body) => {
            law_reservation_keeps_order(before, request_id, body);
            let (reserved, outcome) = registry::reserve(before, request_id, body);
            if let Ok(reservation) = outcome {
                law_changes_keep_order(reserved, reservation.device_id);
                law_changes_keep_order(
                    registry::opening(reserved, reservation.device_id).0,
                    reservation.device_id,
                );
            }
            registry::add_at_once(before, request_id, body)
        },
        RequestBody::RemoveDevice(body) => {
            law_changes_keep_order(before, 0);
            let (prepared, preparation) = registry::draining(before, request_id, body);
            if let RemovePreparationView::Draining { device_id, .. } = preparation {
                law_changes_keep_order(prepared, device_id);
            }
            registry::remove_at_once(before, request_id, body)
        },
        _ => (before, answer),
    };
    law_repetition_is_answered_the_same(
        done.0,
        registry::key_of(first),
        first.body.operation(),
        fingerprint::fingerprint(first.body),
        done.1,
        second.request_id@,
    );
}

/// A device that was added, or could not be, is not touched by a repetition of the request, which
/// is answered the same.
pub proof fn law_repeated_add_is_answered_the_same(
    middle: Registry,
    request: PendingView,
    device_id: u32,
    started: Result<(), RuntimeStartErrorView>,
    body: AddDeviceRequest,
    second_id: Seq<char>,
)
    requires
        middle.wf(),
        !text::is_blank(request.key),
    ensures
        ({
            let (after, response) = server::add_finished(middle, request, device_id, started);
            server::add_begun(after, PendingView { request_id: second_id, ..request }, body) == (
                after,
                RequestStepView::Respond(replayed(response, second_id)),
            )
        }),
{
    law_changes_keep_order(middle, device_id);
    let (done, response) = match started {
        Ok(()) => registry::added(middle, request.request_id, device_id),
        Err(e) => registry::add_failed(
            middle,
            request.request_id,
            device_id,
            e.code,
            e.message,
        ),
    };
    law_repetition_is_answered_the_same(
        done,
        request.key,
        Operation::AddDevice,
        request.fingerprint,
        response,
        second_id,
    );
}

/// A device that was removed is not touched by a repetition of the request, which is answered the
/// same.
pub proof fn law_repeated_remove_is_answered_the_same(
    middle: Registry,
    request: PendingView,
    device_id: u32,
    force: bool,
    timed_out: bool,
    body: RemoveDeviceRequest,
    second_id: Seq<char>,
)
    requires
        middle.wf(),
        !text::is_blank(request.key),
    ensures
        ({
            let (after, response) = server::remove_finished(
                middle,
                request,
                device_id,
                force,
                timed_out,
            );
            server::remove_begun(after, PendingView { request_id: second_id, ..request }, body) == (
                after,
                RequestStepView::Respond(replayed(response, second_id)),
            )
        }),
{
    law_changes_keep_order(middle, device_id);
    let (done, response) = registry::removed(
        middle,
        request.request_id,
        device_id,
        force || timed_out,
    );
    law_repetition_is_answered_the_same(
        done,
        request.key,
        Operation::RemoveDevice,
        request.fingerprint,
        response,
        second_id,
    );
}

/// A kept outcome stays while another operation's outcome is kept, unless it is the oldest of as
/// many as are kept.
pub proof fn law_outcome_stays(
    reg: Registry,
    key: Seq<char>,
    other: Seq<char>,
    op: Operation,
    print: Seq<u8>,
    response: ResponseView,
)
    requires
        reg.wf(),
        key != other,
        registry::kept(reg.cache, key) is Some,
        reg.cache.len() < reg.idempotency_cache_limit || reg.cache[0].key != key,
    ensures
        registry::kept(registry::remembered(reg, other, op, print, response).cache, key)
            == registry::kept(reg.cache, key),
{
    let at = choose|at: int| #[trigger] registry::has_key(reg.cache, key, at);
    let after = registry::remembered(reg, other, op, print, response);
    let (gone, dropped) = registry::lemma_remembered(reg, other, op, print, response);
    let now = if at < gone {
        at - dropped
    } else {
        at - 1 - dropped
    };
    assert(after.cache[now] == reg.cache[at]);
    registry::lemma_kept_at(reg, key, at);
    registry::lemma_kept_at(after, key, now);
}

/// Whether at most one outcome was kept from one point to another, under one of `keys`.
pub open spec fn keeps_under(before: Registry, after: Registry, keys: Set<Seq<char>>) -> bool {
    &&& after.idempotency_cache_limit == before.idempotency_cache_limit
    &&& after.cache == before.cache || exists|
        key: Seq<char>,
        op: Operation,
        print: Seq<u8>,
        response: ResponseView,
    |
        keys.contains(key) && after.cache == (#[trigger] registry::remembered(
            before,
            key,
            op,
            print,
            response,
        )).cache
}

/// Whether an outcome stands at a place of the cache, with none but outcomes under `keys` behind it.
spec fn stands_at(
    cache: Seq<OutcomeView>,
    outcome: OutcomeView,
    keys: Set<Seq<char>>,
    at: int,
) -> bool {
    &&& 0 <= at < cache.len()
    &&& cache[at] == outcome
    &&& forall|j: int| at < j < cache.len() ==> keys.contains((#[trigger] cache[j]).key)
}

proof fn lemma_behind_are_few(
    cache: Seq<OutcomeView>,
    outcome: OutcomeView,
    keys: Set<Seq<char>>,
    at: int,
)
    requires
        keys.finite(),
        stands_at(cache, outcome, keys, at),
        forall|i: int, j: int|
            #![trigger cache[i], cache[j]]
            0 <= i < j < cache.len() ==> cache[i].key != cache[j].key,
    ensures
        cache.len() - 1 - at <= keys.len(),
{
    let behind = Seq::new((cache.len() - 1 - at) as nat, |i: int| cache[at + 1 + i].key);
    assert(behind.no_duplicates()) by {
        assert forall|i: int, j: int|
            0 <= i < behind.len() && 0 <= j < behind.len() && i != j implies behind[i]
            != behind[j] by {
            assert(cache[at + 1 + i].key == behind[i]);
            assert(cache[at + 1 + j].key == behind[j]);
        }
    }
    behind.unique_seq_to_set();
    assert forall|key: Seq<char>| behind.to_set().contains(key) implies keys.contains(key) by {
        let i = choose|i: int| 0 <= i < behind.len() && behind[i] == key;
        assert(keys.contains(cache[at + 1 + i].key));
    }
    vstd::set_lib::lemma_len_subset(behind.to_set(), keys);
}

proof fn lemma_stays_in_place(
    reg: Registry,
    outcome: OutcomeView,
    keys: Set<Seq<char>>,
    at: int,
    key: Seq<char>,
    op: Operation,
    print: Seq<u8>,
    response: ResponseView,
) -> (now: int)
    requires
        reg.cache_in_order(),
        keys.finite(),
        keys.len() < reg.idempotency_cache_limit,
        !keys.contains(outcome.key),
        keys.contains(key),
        stands_at(reg.cache, outcome, keys, at),
    ensures
        registry::remembered(reg, key, op, print, response).cache_in_order(),
        stands_at(
            registry::remembered(reg, key, op, print, response).cache,
            outcome,
            keys,
            now,
        ),
{
    let after = registry::remembered(reg, key, op, print, response);
    let (gone, dropped) = registry::lemma_remembered(reg, key, op, print, response);
    if gone == reg.cache.len() {
        assert(stands_at(reg.cache, outcome, keys.remove(key), at));
        lemma_behind_are_few(reg.cache, outcome, keys.remove(key), at);
    }
    let now = if at < gone {
        at - dropped
    } else {
        at - 1 - dropped
    };
    assert(after.cache[now] == outcome);
    assert forall|j: int| now < j < after.cache.len() implies keys.contains(
        (#[trigger] after.cache[j]).key,
    ) by {
        if j < after.cache.len() - 1 {
            assert(at < registry::stood_at(gone, dropped, j));
        }
    }
    now
}

proof fn lemma_stays_throughout(
    history: Seq<Registry>,
    outcome: OutcomeView,
    keys: Set<Seq<char>>,
    n: nat,
) -> (at: int)
    requires
        0 <= n < history.len(),
        history[0].cache_in_order(),
        history[0].cache.len() > 0,
        history[0].cache.last() == outcome,
        keys.finite(),
        keys.len() < history[0].idempotency_cache_limit,
        !keys.contains(outcome.key),
        forall|i: int|
            0 <= i < history.len() - 1 ==> keeps_under(
                #[trigger] history[i],
                history[i + 1],
                keys,
            ),
    ensures
        history[n as int].idempotency_cache_limit == history[0].idempotency_cache_limit,
        history[n as int].cache_in_order(),
        stands_at(history[n as int].cache, outcome, keys, at),
    decreases n,
{
    if n == 0 {
        history[0].cache.len() - 1
    } else {
        let at = lemma_stays_throughout(history, outcome, keys, (n - 1) as nat);
        let before = history[n - 1];
        let after = history[n - 1 + 1];
        assert(keeps_under(before, after, keys));
        if after.cache == before.cache {
            at
        } else {
            let (key, op, print, response) = choose|
                key: Seq<char>,
                op: Operation,
                print: Seq<u8>,
                response: ResponseView,
            |
                keys.contains(key) && after.cache == (#[trigger] registry::remembered(
                    before,
                    key,
                    op,
                    print,
                    response,
                )).cache;
            lemma_stays_in_place(before, outcome, keys, at, key, op, print, response)
        }
    }
}

/// An outcome that was kept is there for as long as outcomes are kept under fewer other keys than
/// the limit, however often and whatever else happens meanwhile.
pub proof fn law_outcome_survives(
    history: Seq<Registry>,
    outcome: OutcomeView,
    keys: Set<Seq<char>>,
)
    requires
        history.len() > 0,
        history[0].wf(),
        history[0].cache.len() > 0,
        history[0].cache.last() == outcome,
        keys.finite(),
        keys.len() < history[0].idempotency_cache_limit,
        !keys.contains(outcome.key),
        forall|i: int|
            0 <= i < history.len() - 1 ==> keeps_under(
                #[trigger] history[i],
                history[i + 1],
                keys,
            ),
    ensures
        registry::kept(history.last().cache, outcome.key) == Some(outcome),
{
    let n = (history.len() - 1) as nat;
    let at = lemma_stays_throughout(history, outcome, keys, n);
    registry::lemma_kept_at(history.last(), outcome.key, at);
}

/// Handling a request keeps at most one outcome, and that under the key of the request.
pub proof fn law_requests_keep_their_own_outcome(
    reg: Registry,
    request: ControlRequest,
    after: Registry,
    step: RequestStepView,
)
    requires
        server::begun(reg, request, after, step),
    ensures
        keeps_under(reg, after, set![registry::key_of(request)]),
{
    let pending = server::pending_of(request);
    match request.body {
        RequestBody::AddDevice(body) => {
            let (reserved, outcome) = registry::reserve(reg, pending.request_id, body);
            if let Err(response) = outcome {
                assert(after.cache == reg.cache || after.cache == registry::remembered(
                    reg,
                    pending.key,
                    Operation::AddDevice,
                    pending.fingerprint,
                    response,
                ).cache);
            }
        },
        RequestBody::RemoveDevice(body) => {
            let (prepared, preparation) = registry::draining(reg, pending.request_id, body);
            if let RemovePreparationView::Immediate(response) = preparation {
                assert(after.cache == reg.cache || after.cache == registry::remembered(
                    reg,
                    pending.key,
                    Operation::RemoveDevice,
                    pending.fingerprint,
                    response,
                ).cache);
            }
        },
        _ => {},
    }
}

/// What is left to do once a device was started or stopped keeps one outcome, and that under the
/// key of the request.
pub proof fn law_late_outcomes_keep_their_own_key(
    reg: Registry,
    request: PendingView,
    device_id: u32,
    started: Result<(), RuntimeStartErrorView>,
    force: bool,
    timed_out: bool,
)
    ensures
        keeps_under(
            reg,
            server::add_finished(reg, request, device_id, started).0,
            set![request.key],
        ),
        keeps_under(
            reg,
            server::remove_finished(reg, request, device_id, force, timed_out).0,
            set![request.key],
        ),
{
    let (added, response) = server::add_finished(reg, request, device_id, started);
    assert(added.cache == registry::remembered(
        reg,
        request.key,
        Operation::AddDevice,
        request.fingerprint,
        response,
    ).cache);
    let (removed, response) = server::remove_finished(
        reg,
        request,
        device_id,
        force,
        timed_out,
    );
    assert(removed.cache == registry::remembered(
        reg,
        request.key,
        Operation::RemoveDevice,
        request.fingerprint,
        response,
    ).cache);
}

/// A key that was used for one request to add a device is refused for one that differs in anything,
/// and nothing changes. (Missing overrides and overrides that are the JSON value `null` are set
/// aside as a pair: the requests are then taken for the same.)
pub proof fn law_reused_key_is_refused(
    reg: Registry,
    first: AddDeviceRequest,
    second: AddDeviceRequest,
    request: PendingView,
)
    requires
        !text::is_blank(request.key),
        registry::kept(reg.cache, request.key) matches Some(outcome) && outcome.op
            == Operation::AddDevice && outcome.fingerprint == fingerprint::fingerprint(
            RequestBody::AddDevice(first),
        ),
        request.fingerprint == fingerprint::fingerprint(RequestBody::AddDevice(second)),
        !fingerprint::missing_and_null(first, second),
        first.volume_id@ != second.volume_id@ || first.ublk_device_id != second.ublk_device_id
            || device::text_view(first.overrides) != device::text_view(second.overrides),
    ensures
        server::add_begun(reg, request, second) == (
            reg,
            RequestStepView::Respond(
                protocol::failure(
                    request.request_id,
                    ErrorCode::InvalidArgument,
                    "idempotency_key was reused with a different operation or payload"@,
                ),
            ),
        ),
{
    if fingerprint::fingerprint(RequestBody::AddDevice(first)) == fingerprint::fingerprint(
        RequestBody::AddDevice(second),
    ) {
        fingerprint::law_add_fingerprints_differ(first, second);
    }
}

/// A key that was used for one request to remove a device is refused for one that differs in
/// anything, and nothing changes.
pub proof fn law_reused_remove_key_is_refused(
    reg: Registry,
    first: RemoveDeviceRequest,
    second: RemoveDeviceRequest,
    request: PendingView,
)
    requires
        !text::is_blank(request.key),
        registry::kept(reg.cache, request.key) matches Some(outcome) && outcome.op
            == Operation::RemoveDevice && outcome.fingerprint == fingerprint::fingerprint(
            RequestBody::RemoveDevice(first),
        ),
        request.fingerprint == fingerprint::fingerprint(RequestBody::RemoveDevice(second)),
        first.device_id != second.device_id || device::text_view(first.volume_id)
            != device::text_view(second.volume_id) || first.force != second.force,
    ensures
        server::remove_begun(reg, request, second) == (
            reg,
            RequestStepView::Respond(
                protocol::failure(
                    request.request_id,
                    ErrorCode::InvalidArgument,
                    "idempotency_key was reused with a different operation or payload"@,
                ),
            ),
        ),
{
    if fingerprint::fingerprint(RequestBody::RemoveDevice(first)) == fingerprint::fingerprint(
        RequestBody::RemoveDevice(second),
    ) {
        fingerprint::law_remove_fingerprints_differ(first, second);
    }
}

/// What holds of the registry between any two mutating requests: it is in order, and every live
/// device serves.
pub open spec fn settled(reg: Registry) -> bool {
    &&& reg.wf()
    &&& forall|id: u32| #[trigger]
        registry::is_live(reg.devices, id) ==> reg.devices[id].state is Serving
}

/// Whether a device may go from one state to another in one step.
pub open spec fn may_follow(before: DeviceState, after: DeviceState) -> bool {
    ||| before == after
    ||| before is Allocating && after is OpeningVolume
    ||| before is OpeningVolume && after is Serving
    ||| before is Serving && after is Draining
    ||| before is Draining && after is Detached
    ||| before is Draining && after is ForceDetached
    ||| !before.terminal() && after is Failed
}

/// Whether every device went through one step of its life at most. A number that no live device has
/// may be given to a new device.
pub open spec fn lives_on(before: Registry, after: Registry) -> bool {
    forall|id: u32| #[trigger]
        after.devices.contains_key(id) ==> {
            ||| before.devices.contains_key(id) && may_follow(
                before.devices[id].state,
                after.devices[id].state,
            )
            ||| !registry::is_live(before.devices, id) && after.devices[id].state is Allocating
        }
}

/// A service without devices is settled.
pub proof fn law_new_service_is_settled(reg: Registry)
    requires
        reg.wf(),
        reg.devices == Map::<u32, DeviceView>::empty(),
    ensures
        settled(reg),
{
    assert(registry::live_ids(reg.devices) =~= Set::<u32>::empty());
}

/// No two live devices have the same volume.
pub proof fn law_volume_has_one_device(reg: Registry, a: u32, b: u32)
    requires
        reg.wf(),
        registry::is_live(reg.devices, a),
        registry::is_live(reg.devices, b),
        reg.devices[a].volume_id == reg.devices[b].volume_id,
    ensures
        a == b,
{
}

/// A volume that a live device has, even one that is being drained, cannot be added again under
/// another key, whatever the device number that is asked for; the registry only remembers that it
/// was refused.
pub proof fn law_attached_volume_is_refused(
    reg: Registry,
    id: u32,
    request: PendingView,
    body: AddDeviceRequest,
)
    requires
        reg.wf(),
        registry::is_live(reg.devices, id),
        reg.devices[id].volume_id == text::trimmed(body.volume_id@),
        text::trimmed(body.volume_id@).len() > 0,
        !text::is_blank(request.key),
        registry::kept(reg.cache, request.key) is None,
    ensures
        ({
            let refused = protocol::failure(
                request.request_id,
                ErrorCode::AlreadyExists,
                "volume_id '"@ + text::trimmed(body.volume_id@) + "' is already attached"@,
            );
            server::add_begun(reg, request, body) == (
                server::concluded(reg, request, Operation::AddDevice, refused),
                RequestStepView::Respond(refused),
            )
        }),
{
}

/// A device that is being drained is busy: it cannot be removed once more, neither by its number
/// nor by its volume.
pub proof fn law_draining_device_is_busy(
    reg: Registry,
    id: u32,
    request_id: Seq<char>,
    body: RemoveDeviceRequest,
)
    requires
        reg.wf(),
        reg.devices.contains_key(id),
        reg.devices[id].state is Draining,
        is_about(body, id, reg.devices[id].volume_id),
    ensures
        registry::draining(reg, request_id, body) == (
            reg,
            RemovePreparationView::Immediate(
                protocol::failure(
                    request_id,
                    ErrorCode::Busy,
                    "device_id '"@ + text::decimal(id as nat) + "' is already draining"@,
                ),
            ),
        ),
{
    assert(registry::is_live(reg.devices, id));
}

/// Whether a request to remove a device names this one by its number, by its volume, or by both.
pub open spec fn is_about(body: RemoveDeviceRequest, id: u32, volume_id: Seq<char>) -> bool {
    &&& body.device_id is None || body.device_id == Some(id)
    &&& protocol::present(body.volume_id) is None || protocol::present(body.volume_id) == Some(
        volume_id,
    )
    &&& body.device_id is Some || protocol::present(body.volume_id) is Some
}

/// Whether a request to remove a device meets none that does not serve yet.
pub open spec fn meets_no_unready(reg: Registry, body: RemoveDeviceRequest) -> bool {
    registry::remove_target(reg, body) matches Ok(target) ==> reg.devices.contains_key(target) ==> {
        &&& !(reg.devices[target].state is Allocating)
        &&& !(reg.devices[target].state is OpeningVolume)
    }
}

/// Whatever is asked for, and in whatever order, every device goes from state to state as
/// `may_follow` says. (A removal that meets a device before it serves is set aside: it drains the
/// device all the same.)
pub proof fn law_devices_follow_their_states(reg: Registry, id: u32)
    requires
        reg.wf(),
    ensures
        forall|request_id: Seq<char>, body: AddDeviceRequest| #[trigger]
            lives_on(reg, registry::reserve(reg, request_id, body).0),
        lives_on(reg, registry::opening(reg, id).0),
        forall|request_id: Seq<char>| #[trigger]
            lives_on(reg, registry::added(reg, request_id, id).0),
        forall|request_id: Seq<char>, code: ErrorCode, message: Seq<char>| #[trigger]
            lives_on(reg, registry::add_failed(reg, request_id, id, code, message).0),
        forall|request_id: Seq<char>, body: RemoveDeviceRequest|
            meets_no_unready(reg, body) ==> #[trigger] lives_on(
                reg,
                registry::draining(reg, request_id, body).0,
            ),
        forall|request_id: Seq<char>, forced: bool| #[trigger]
            lives_on(reg, registry::removed(reg, request_id, id, forced).0),
{
    assert forall|request_id: Seq<char>, body: AddDeviceRequest| #[trigger]
        lives_on(reg, registry::reserve(reg, request_id, body).0) by {
        law_reservation_keeps_order(reg, request_id, body);
    }
    assert forall|request_id: Seq<char>, code: ErrorCode, message: Seq<char>| #[trigger]
        lives_on(reg, registry::add_failed(reg, request_id, id, code, message).0) by {
        if registry::is_live(reg.devices, id) {
            let changed = reg.changed(id, DeviceState::Failed, Some(message));
            registry::lemma_pruned(changed.devices, reg.terminal_history_limit);
        }
    }
    assert forall|request_id: Seq<char>, forced: bool| #[trigger]
        lives_on(reg, registry::removed(reg, request_id, id, forced).0) by {
        if registry::is_live(reg.devices, id) {
            let state = if forced {
                DeviceState::ForceDetached
            } else {
                DeviceState::Detached
            };
            let changed = reg.changed(id, state, reg.devices[id].last_error);
            registry::lemma_pruned(changed.devices, reg.terminal_history_limit);
        }
    }
}

/// Nothing happens to a terminal device any more: it can neither be opened, nor come to serve, nor
/// fail, and all that is left of removing it is to say that this was done.
pub proof fn law_terminal_device_stays(
    reg: Registry,
    id: u32,
    request_id: Seq<char>,
    code: ErrorCode,
    message: Seq<char>,
    forced: bool,
)
    requires
        reg.wf(),
        reg.devices.contains_key(id),
        reg.devices[id].state.terminal(),
    ensures
        registry::opening(reg, id).0 == reg,
        registry::opening(reg, id).1 is Err,
        registry::added(reg, request_id, id).0 == reg,
        !registry::added(reg, request_id, id).1.ok,
        registry::add_failed(reg, request_id, id, code, message).0 == reg,
        !registry::add_failed(reg, request_id, id, code, message).1.ok,
        registry::removed(reg, request_id, id, forced) == (
            reg,
            registry::removed_already(request_id, reg.devices[id]),
        ),
{
}

proof fn lemma_remembered_keeps(
    reg: Registry,
    key: Seq<char>,
    op: Operation,
    print: Seq<u8>,
    response: ResponseView,
)
    requires
        reg.wf(),
    ensures
        registry::remembered(reg, key, op, print, response).wf(),
        settled(reg) ==> settled(registry::remembered(reg, key, op, print, response)),
{
    let after = registry::remembered(reg, key, op, print, response);
    registry::lemma_remembered(reg, key, op, print, response);
    assert forall|v: Seq<char>| #[trigger] after.active.contains_key(v) implies registry::is_live(
        after.devices,
        after.active[v],
    ) && after.devices[after.active[v]].volume_id == v by {
        assert(reg.active.contains_key(v));
    }
}

/// A device that has been opening its volume serves it where it could be started, and has failed
/// where it could not. The other devices are left as they are.
pub proof fn law_opened_device_serves_or_fails(
    reg: Registry,
    request: PendingView,
    id: u32,
    started: Result<(), RuntimeStartErrorView>,
)
    requires
        reg.wf(),
        reg.devices.contains_key(id),
        reg.devices[id].state is OpeningVolume,
    ensures
        ({
            let (after, response) = server::add_finished(reg, request, id, started);
            &&& after.wf()
            &&& lives_on(reg, after)
            &&& response.ok == started is Ok
            &&& forall|other: u32| #[trigger]
                after.devices.contains_key(other) && other != id ==> reg.devices.contains_key(other)
                    && after.devices[other] == reg.devices[other]
            &&& after.devices.contains_key(id) ==> if started is Ok {
                after.devices[id].state is Serving
            } else {
                after.devices[id].state is Failed
            }
        }),
{
    let (after, response) = match started {
        Ok(()) => registry::added(reg, request.request_id, id),
        Err(e) => registry::add_failed(reg, request.request_id, id, e.code, e.message),
    };
    law_changes_keep_order(reg, id);
    law_devices_follow_their_states(reg, id);
    assert(lives_on(reg, after));
    if let Err(e) = started {
        let changed = reg.changed(id, DeviceState::Failed, Some(e.message));
        registry::lemma_pruned(changed.devices, reg.terminal_history_limit);
    }
    lemma_remembered_keeps(
        after,
        request.key,
        Operation::AddDevice,
        request.fingerprint,
        response,
    );
}

/// Adding a device takes a settled service to a settled one, whether it is answered at once, the
/// volume opens, or it does not.
pub proof fn law_add_keeps_the_service_settled(
    reg: Registry,
    request: PendingView,
    body: AddDeviceRequest,
    started: Result<(), RuntimeStartErrorView>,
)
    requires
        settled(reg),
    ensures
        match server::add_begun(reg, request, body) {
            (after, RequestStepView::Respond(_)) => settled(after),
            (middle, RequestStepView::Start { request: pending, device_id, .. }) => {
                &&& middle.wf()
                &&& pending == request
                &&& middle.devices.contains_key(device_id)
                &&& middle.devices[device_id].state is OpeningVolume
                &&& settled(server::add_finished(middle, pending, device_id, started).0)
            },
            (_, RequestStepView::Stop { .. }) => false,
        },
{
    match registry::known_answer(
        reg,
        request.request_id,
        request.key,
        Operation::AddDevice,
        request.fingerprint,
    ) {
        Some(_) => {},
        None => {
            law_reservation_keeps_order(reg, request.request_id, body);
            let (reserved, outcome) = registry::reserve(reg, request.request_id, body);
            match outcome {
                Err(response) => {
                    lemma_remembered_keeps(
                        reserved,
                        request.key,
                        Operation::AddDevice,
                        request.fingerprint,
                        response,
                    );
                },
                Ok(reservation) => {
                    let id = reservation.device_id;
                    law_changes_keep_order(reserved, id);
                    let middle = registry::opening(reserved, id).0;
                    law_opened_device_serves_or_fails(middle, request, id, started);
                    let after = server::add_finished(middle, request, id, started).0;
                    assert forall|other: u32| #[trigger]
                        registry::is_live(
                            after.devices,
                            other,
                        ) implies after.devices[other].state is Serving by {
                        assert(after.devices.contains_key(other));
                        if other != id {
                            assert(middle.devices.contains_key(other));
                            assert(reserved.devices.contains_key(other));
                            assert(registry::is_live(reg.devices, other));
                        }
                    }
                },
            }
        },
    }
}

/// Removing a device takes a settled service to a settled one, and every device through at most
/// one step of its life at a time.
pub proof fn law_remove_keeps_the_service_settled(
    reg: Registry,
    request: PendingView,
    body: RemoveDeviceRequest,
    timed_out: bool,
)
    requires
        settled(reg),
    ensures
        match server::remove_begun(reg, request, body) {
            (after, RequestStepView::Respond(_)) => settled(after) && after.devices == reg.devices,
            (middle, RequestStepView::Stop { request: pending, device_id, force }) => {
                let (after, response) = server::remove_finished(
                    middle,
                    pending,
                    device_id,
                    force,
                    timed_out,
                );
                &&& middle.wf()
                &&& lives_on(reg, middle)
                &&& pending == request
                &&& middle.devices.contains_key(device_id)
                &&& middle.devices[device_id].state is Draining
                &&& settled(after)
                &&& lives_on(middle, after)
                &&& response.ok
            },
            (_, RequestStepView::Start { .. }) => false,
        },
{
    let (prepared, preparation) = registry::draining(reg, request.request_id, body);
    match preparation {
        RemovePreparationView::Immediate(response) => {
            lemma_remembered_keeps(
                prepared,
                request.key,
                Operation::RemoveDevice,
                request.fingerprint,
                response,
            );
        },
        RemovePreparationView::Draining { device_id: id, force, .. } => {
            assert(registry::is_live(reg.devices, id));
            let middle = prepared;
            law_changes_keep_order(reg, id);
            law_devices_follow_their_states(reg, id);
            assert(meets_no_unready(reg, body));
            assert(lives_on(reg, middle));
            law_changes_keep_order(middle, id);
            law_devices_follow_their_states(middle, id);
            let forced = force || timed_out;
            let (tidy, response) = registry::removed(middle, request.request_id, id, forced);
            assert(tidy.wf());
            assert(lives_on(middle, tidy));
            let state = if forced {
                DeviceState::ForceDetached
            } else {
                DeviceState::Detached
            };
            let gone = middle.changed(id, state, middle.devices[id].last_error);
            registry::lemma_pruned(gone.devices, gone.terminal_history_limit);
            assert forall|other: u32| #[trigger]
                registry::is_live(tidy.devices, other) implies tidy.devices[other].state is Serving by {
                assert(tidy.devices.contains_key(other));
                assert(gone.devices.contains_key(other));
                assert(registry::is_live(reg.devices, other));
            }
            lemma_remembered_keeps(
                tidy,
                request.key,
                Operation::RemoveDevice,
                request.fingerprint,
                response,
            );
        },
    }
}

/// A terminal device that no other one changed after is the last to be forgotten.
proof fn lemma_newest_is_kept(devices: Map<u32, DeviceView>, limit: usize, id: u32)
    requires
        devices.dom().finite(),
        limit >= 1,
        devices.contains_key(id),
        devices[id].state.terminal(),
        forall|other: u32| #[trigger]
            devices.contains_key(other) && other != id ==> devices[other].updated_seq
                < devices[id].updated_seq,
    ensures
        registry::pruned(devices, limit).contains_key(id),
        registry::pruned(devices, limit)[id] == devices[id],
    decreases registry::terminal_ids(devices).len(),
{
    registry::lemma_pruned(devices, limit);
    if registry::terminal_ids(devices).len() > limit {
        registry::lemma_terminal_finite(devices);
        let oldest = choose|c: u32| registry::is_oldest_terminal(devices, c);
        registry::lemma_oldest_exists(devices);
        if oldest == id {
            let rest = registry::terminal_ids(devices).remove(id);
            assert(rest.len() > 0);
            let other = rest.choose();
            assert(rest.contains(other));
            assert(devices.contains_key(other));
        }
        registry::lemma_pruned_step(devices, limit, oldest);
        lemma_newest_is_kept(devices.remove(oldest), limit, id);
    }
}

proof fn lemma_ended_is_newest(
    reg: Registry,
    id: u32,
    state: DeviceState,
    last_error: Option<Seq<char>>,
)
    requires
        reg.wf(),
        reg.next_sequence < u64::MAX,
        registry::is_live(reg.devices, id),
        state.terminal(),
    ensures
        ({
            let changed = reg.changed(id, state, last_error);
            let after = changed.released(reg.devices[id].volume_id).tidied();
            &&& after.devices.contains_key(id)
            &&& after.devices[id] == changed.devices[id]
            &&& registry::is_most_recent(after.devices, reg.devices[id].volume_id, id)
        }),
{
    let changed = reg.changed(id, state, last_error);
    assert forall|other: u32| #[trigger]
        changed.devices.contains_key(other) && other != id implies changed.devices[other].updated_seq
        < changed.devices[id].updated_seq by {
        assert(reg.devices.contains_key(other));
    }
    lemma_newest_is_kept(changed.devices, reg.terminal_history_limit, id);
    registry::lemma_pruned(changed.devices, reg.terminal_history_limit);
}

/// A device that has been removed, or could not be added, is still listed as that. (The last
/// sequence number is set aside: from then on changes can no longer be told apart by their age.)
pub proof fn law_ended_device_is_listed(
    reg: Registry,
    id: u32,
    request_id: Seq<char>,
    code: ErrorCode,
    message: Seq<char>,
    forced: bool,
)
    requires
        reg.wf(),
        reg.next_sequence < u64::MAX,
        registry::is_live(reg.devices, id),
    ensures
        ({
            let failed = registry::add_failed(reg, request_id, id, code, message).0;
            &&& failed.devices.contains_key(id)
            &&& failed.devices[id].state is Failed
            &&& failed.devices[id].last_error == Some(message)
        }),
        reg.devices[id].state is Draining ==> {
            let removed = registry::removed(reg, request_id, id, forced).0;
            &&& removed.devices.contains_key(id)
            &&& removed.devices[id].state == if forced {
                DeviceState::ForceDetached
            } else {
                DeviceState::Detached
            }
        },
{
    let state = if forced {
        DeviceState::ForceDetached
    } else {
        DeviceState::Detached
    };
    lemma_ended_is_newest(reg, id, DeviceState::Failed, Some(message));
    lemma_ended_is_newest(reg, id, state, reg.devices[id].last_error);
}

/// A device that has been removed can be removed again, by its number, by its volume or by both:
/// that succeeds, changes nothing, and says so. (The last sequence number is set aside: from then
/// on changes can no longer be told apart by their age.)
pub proof fn law_removing_again_is_a_success(
    reg: Registry,
    first_id: Seq<char>,
    id: u32,
    forced: bool,
    second_id: Seq<char>,
    again: RemoveDeviceRequest,
)
    requires
        reg.wf(),
        reg.next_sequence < u64::MAX,
        reg.devices.contains_key(id),
        reg.devices[id].state is Draining,
        is_about(again, id, reg.devices[id].volume_id),
    ensures
        ({
            let after = registry::removed(reg, first_id, id, forced).0;
            registry::draining(after, second_id, again) == (
                after,
                RemovePreparationView::Immediate(
                    protocol::success(
                        second_id,
                        ResponseResultView::RemoveDevice(
                            RemoveDeviceResultView {
                                device_id: Some(id),
                                volume_id: Some(reg.devices[id].volume_id),
                                state: if forced {
                                    DeviceState::ForceDetached
                                } else {
                                    DeviceState::Detached
                                },
                                noop: true,
                            },
                        ),
                    ),
                ),
            )
        }),
{
    let state = if forced {
        DeviceState::ForceDetached
    } else {
        DeviceState::Detached
    };
    let volume_id = reg.devices[id].volume_id;
    assert(registry::is_live(reg.devices, id));
    lemma_ended_is_newest(reg, id, state, reg.devices[id].last_error);
    let after = registry::removed(reg, first_id, id, forced).0;
    assert(!after.active.contains_key(volume_id));
    registry::lemma_most_recent_unique(after.devices, volume_id, id);
}

/// Whatever happens to one device, the other live ones are left as they are.
pub proof fn law_other_devices_are_left_alone(reg: Registry, id: u32, other: u32)
    requires
        reg.wf(),
        other != id,
        registry::is_live(reg.devices, other),
    ensures
        lives_unchanged(reg, registry::opening(reg, id).0, other),
        forall|request_id: Seq<char>| #[trigger]
            lives_unchanged(reg, registry::added(reg, request_id, id).0, other),
        forall|request_id: Seq<char>, code: ErrorCode, message: Seq<char>| #[trigger]
            lives_unchanged(
                reg,
                registry::add_failed(reg, request_id, id, code, message).0,
                other,
            ),
        forall|request_id: Seq<char>, body: RemoveDeviceRequest|
            registry::remove_target(reg, body) != Ok::<u32, (ErrorCode, Seq<char>)>(other)
                ==> #[trigger] lives_unchanged(
                reg,
                registry::draining(reg, request_id, body).0,
                other,
            ),
        forall|request_id: Seq<char>, forced: bool| #[trigger]
            lives_unchanged(reg, registry::removed(reg, request_id, id, forced).0, other),
{
    assert forall|request_id: Seq<char>, code: ErrorCode, message: Seq<char>| #[trigger]
        lives_unchanged(reg, registry::add_failed(reg, request_id, id, code, message).0, other) by {
        if registry::is_live(reg.devices, id) {
            let changed = reg.changed(id, DeviceState::Failed, Some(message));
            registry::lemma_pruned(changed.devices, reg.terminal_history_limit);
            assert(changed.devices.contains_key(other));
        }
    }
    assert forall|request_id: Seq<char>, forced: bool| #[trigger]
        lives_unchanged(reg, registry::removed(reg, request_id, id, forced).0, other) by {
        if reg.devices.contains_key(id) {
            let state = if forced {
                DeviceState::ForceDetached
            } else {
                DeviceState::Detached
            };
            let changed = reg.changed(id, state, reg.devices[id].last_error);
            registry::lemma_pruned(changed.devices, reg.terminal_history_limit);
            assert(changed.devices.contains_key(other));
        }
    }
}

/// Whether a device is still there, and as it was.
pub open spec fn lives_unchanged(before: Registry, after: Registry, id: u32) -> bool {
    after.devices.contains_key(id) && after.devices[id] == before.devices[id]
}

/// A volume is taken while its device is being drained, and free to be attached again once the
/// device has been removed, or could not be started.
pub proof fn law_released_volume_is_free(
    reg: Registry,
    request_id: Seq<char>,
    id: u32,
    code: ErrorCode,
    message: Seq<char>,
    body: RemoveDeviceRequest,
)
    requires
        reg.wf(),
    ensures
        registry::is_live(reg.devices, id) ==> !registry::is_taken(
            registry::add_failed(reg, request_id, id, code, message).0.devices,
            reg.devices[id].volume_id,
        ),
        registry::draining(reg, request_id, body).1 matches RemovePreparationView::Draining {
            device_id,
            volume_id,
            ..
        } ==> {
            let drained = registry::draining(reg, request_id, body).0;
            &&& registry::is_taken(drained.devices, volume_id)
            &&& forall|forced: bool|
                !registry::is_taken(
                    (#[trigger] registry::removed(drained, request_id, device_id, forced)).0.devices,
                    volume_id,
                )
        },
{
    law_changes_keep_order(reg, id);
    let failed = registry::add_failed(reg, request_id, id, code, message).0;
    failed.lemma_taken(reg.devices[id].volume_id);
    let drained = registry::draining(reg, request_id, body).0;
    if let RemovePreparationView::Draining { device_id, volume_id, .. } = registry::draining(
        reg,
        request_id,
        body,
    ).1 {
        assert(registry::is_live(drained.devices, device_id));
        law_changes_keep_order(drained, device_id);
        assert forall|forced: bool|
            !registry::is_taken(
                (#[trigger] registry::removed(drained, request_id, device_id, forced)).0.devices,
                volume_id,
            ) by {
            registry::removed(drained, request_id, device_id, forced).0.lemma_taken(volume_id);
        }
    }
}

/// A request to list devices, or for the health of the service, changes nothing, and the key that
/// it may carry does not matter.
pub proof fn law_reads_change_nothing(
    before: Registry,
    request: ControlRequest,
    after: Registry,
    step: RequestStepView,
    same: ControlRequest,
)
    requires
        !request.body.operation().mutating(),
        server::begun(before, request, after, step),
        same.body == request.body,
        same.request_id@ == request.request_id@,
    ensures
        after == before,
        step is Respond,
        server::begun(before, same, after, step),
{
}

/// A device has the same path for as long as it is known, and no other device has it.
pub proof fn law_device_path_is_stable(before: Registry, after: Registry, a: u32, b: u32)
    requires
        before.wf(),
        after.wf(),
        before.devices.contains_key(a),
        after.devices.contains_key(b),
    ensures
        before.devices[a].device_path == after.devices[b].device_path <==> a == b,
{
    if before.devices[a].device_path == after.devices[b].device_path {
        let head = "/dev/ublkb"@;
        assert(registry::path_of(a).subrange(head.len() as int, registry::path_of(a).len() as int)
            =~= text::decimal(a as nat));
        assert(registry::path_of(b).subrange(head.len() as int, registry::path_of(b).len() as int)
            =~= text::decimal(b as nat));
        text::lemma_decimal_injective(a as nat, b as nat);
    }
}

/// Every response carries the identifier of its request as it was sent: one that is given at once
/// does, and what is left to do for the others is done under that identifier.
pub proof fn law_responses_carry_the_request_id(
    before: Registry,
    envelope: RequestEnvelope,
    after: Registry,
    step: RequestStepView,
)
    requires
        server::payload_begun(before, Ok(envelope), after, step),
    ensures
        match step {
            RequestStepView::Respond(response) => response.request_id == envelope.request_id@,
            RequestStepView::Start { request, .. } => request.request_id == envelope.request_id@,
            RequestStepView::Stop { request, .. } => request.request_id == envelope.request_id@,
        },
{
    let decoded = choose|decoded: Result<ControlRequest, ProtocolError>| #[trigger]
        protocol::is_decoded(Ok(envelope), decoded) && match decoded {
            Ok(request) => server::begun(before, request, after, step),
            Err(e) => after == before && step == RequestStepView::Respond(protocol::refusal(e@)),
        };
    protocol::law_request_id_is_kept(envelope, decoded);
}

/// Every response carries the identifier of its request: one that is given after a device was
/// started or stopped does.
pub proof fn law_late_responses_carry_the_request_id(
    reg: Registry,
    request: PendingView,
    device_id: u32,
    started: Result<(), RuntimeStartErrorView>,
    force: bool,
    timed_out: bool,
)
    ensures
        server::add_finished(reg, request, device_id, started).1.request_id == request.request_id,
        server::remove_finished(reg, request, device_id, force, timed_out).1.request_id
            == request.request_id,
{
}

} // verus!
