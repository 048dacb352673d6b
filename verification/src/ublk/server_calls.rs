//! What callers of the device service can count on, call by call and from one call to the next.
//!
//! `call_ensures(f, args, r)` says that `f`, called with `args`, returned `r`; of a manager that is
//! passed to be changed, `old(..)` is the manager before the call and `final(..)` the one after it.
use crate::control::calls;
use crate::control::protocol::{
    ControlRequest, ErrorCode, Operation, ProtocolError, RequestBody, RequestEnvelope,
    ResponseEnvelope,
};
use crate::control::protocol;
use crate::errors::TransportError;
use crate::session::VolumeSessionConfig;
use crate::text_calls;
use crate::time::Duration;
use crate::ublk::device::DeviceState;
use crate::ublk::laws;
use crate::ublk::manager::ControlManager;
use crate::ublk::manager_calls;
use crate::ublk::registry::Registry;
use crate::ublk::registry;
use crate::ublk::server::{
    FinishedAdd, PendingAdd, PendingRemove, PendingRequest, RequestStep, RuntimeStartError,
    ServeAction, ServeConfig, ServeEvent,
};
use crate::ublk::server;
use vstd::prelude::*;

verus! {

/// Whether a request has a key under which nothing is kept yet.
pub open spec fn is_new(reg: Registry, key: Seq<char>) -> bool {
    &&& !calls::all_blank(key)
    &&& forall|at: int| 0 <= at < reg.cache.len() ==> (#[trigger] reg.cache[at]).key != key
}

/// Whether what is left to do is done for this request.
pub open spec fn is_for(
    pending: PendingRequest,
    request_id: Seq<char>,
    key: Seq<char>,
    print: Seq<u8>,
) -> bool {
    &&& pending.request_id@ == request_id
    &&& pending.idempotency_key@ == key
    &&& pending.fingerprint@ == print
}

/// Whether a request that was understood took the service from `before` to `after` with `step` to
/// do.
///
/// A request to list devices or for the health of the service is answered, and changes nothing. So
/// is a request to add or to remove a device that is known already. A new one is carried out as far
/// as it can be without waiting: the volume gets a device, which starts to open it, or the removal
/// of the device begins, with the force that is asked for. Where it is answered at once, the answer
/// is kept.
pub open spec fn begins(
    before: Registry,
    request_id: Seq<char>,
    key: Seq<char>,
    print: Seq<u8>,
    body: RequestBody,
    volume: Option<Seq<char>>,
    after: Registry,
    step: RequestStep,
) -> bool {
    match body {
        RequestBody::ListDevices(list) => {
            &&& after == before
            &&& step matches RequestStep::Respond(r)
            &&& manager_calls::answers_list(before, request_id, list, r)
        },
        RequestBody::Health(_) => {
            &&& after == before
            &&& step matches RequestStep::Respond(r)
            &&& manager_calls::answers_health(before, request_id, r)
        },
        RequestBody::AddDevice(add) => if !is_new(before, key) {
            &&& after == before
            &&& step matches RequestStep::Respond(r)
            &&& manager_calls::known(
                before,
                request_id,
                key,
                Operation::AddDevice,
                print,
                Some(r),
            )
        } else {
            let name = if volume is Some {
                volume->0
            } else {
                Seq::empty()
            };
            if manager_calls::may_attach(before, name, add.ublk_device_id) {
                &&& step matches RequestStep::Start(start)
                &&& is_for(start.request, request_id, key, print)
                &&& start.volume_id@ == name
                &&& manager_calls::attaches(
                    before,
                    name,
                    add.ublk_device_id,
                    start.device_id,
                    DeviceState::OpeningVolume,
                    after,
                )
            } else {
                &&& step matches RequestStep::Respond(r)
                &&& manager_calls::refuses_volume(before, request_id, name, add.ublk_device_id, r)
                &&& manager_calls::keeps(
                    before,
                    manager_calls::outcome_of(key, Operation::AddDevice, print, r),
                    after,
                )
            }
        },
        RequestBody::RemoveDevice(remove) => if !is_new(before, key) {
            &&& after == before
            &&& step matches RequestStep::Respond(r)
            &&& manager_calls::known(
                before,
                request_id,
                key,
                Operation::RemoveDevice,
                print,
                Some(r),
            )
        } else {
            &&& step matches RequestStep::Stop(stop) ==> {
                &&& manager_calls::is_target(before, remove, volume, stop.device_id)
                &&& manager_calls::may_remove(before, stop.device_id)
                &&& stop.force == remove.force
                &&& is_for(stop.request, request_id, key, print)
                &&& manager_calls::moved(
                    before,
                    after,
                    stop.device_id,
                    DeviceState::Draining,
                    before.devices[stop.device_id].last_error,
                )
            }
            &&& step matches RequestStep::Respond(r) ==> {
                &&& manager_calls::keeps(
                    before,
                    manager_calls::outcome_of(key, Operation::RemoveDevice, print, r),
                    after,
                )
                &&& forall|id: u32| #[trigger]
                    manager_calls::is_target(before, remove, volume, id)
                        ==> !manager_calls::may_remove(before, id)
                        && manager_calls::answers_removal(before, request_id, id, r)
                &&& (forall|id: u32| !#[trigger]
                    manager_calls::is_target(before, remove, volume, id))
                    ==> manager_calls::refuses_target(request_id, remove, r)
            }
            &&& !(step is Start)
        },
    }
}

/// Whether this is the volume that a request to add or to remove a device names, without the blanks
/// around its name.
pub open spec fn is_named(body: RequestBody, volume: Option<Seq<char>>) -> bool {
    match body {
        RequestBody::AddDevice(add) => manager_calls::names(Some(add.volume_id), volume),
        RequestBody::RemoveDevice(remove) => manager_calls::names(remove.volume_id, volume),
        _ => true,
    }
}

/// The key of a request; that of a request without one is empty.
pub open spec fn key_given(request: ControlRequest) -> Seq<char> {
    match request.idempotency_key {
        Some(key) => key@,
        None => Seq::empty(),
    }
}

proof fn lemma_begins(
    before: Registry,
    request: ControlRequest,
    print: Seq<u8>,
    volume: Option<Seq<char>>,
    after: Registry,
    step: RequestStep,
)
    requires
        before.wf(),
        server::begun(before, request, after, step@),
        print == crate::control::fingerprint::fingerprint(request.body),
        is_named(request.body, volume),
    ensures
        begins(
            before,
            request.request_id@,
            key_given(request),
            print,
            request.body,
            volume,
            after,
            step,
        ),
{
    let id = request.request_id@;
    let key = key_given(request);
    assert(key == registry::key_of(request));
    text_calls::lemma_blank(key);
    match request.body {
        RequestBody::ListDevices(list) => {
            manager_calls::lemma_answers_list(before, id, list, step->Respond_0);
        },
        RequestBody::Health(_) => {
            manager_calls::lemma_answers_health(before, id, step->Respond_0);
        },
        RequestBody::AddDevice(add) => {
            let op = Operation::AddDevice;
            let name = if volume is Some {
                volume->0
            } else {
                Seq::empty()
            };
            manager_calls::lemma_attaches(before, id, add, name);
            let answer = registry::known_answer(before, id, key, op, print);
            if answer is Some {
                manager_calls::lemma_known(before, id, key, op, print, Some(step->Respond_0));
            } else {
                manager_calls::lemma_known(before, id, key, op, print, None);
                match registry::reserve(before, id, add).1 {
                    Err(_) => {
                        manager_calls::lemma_keeps(before, key, op, print, step->Respond_0);
                    },
                    Ok(reserved) => {
                        let middle = registry::reserve(before, id, add).0;
                        assert(registry::opening(middle, reserved.device_id).1 is Ok);
                        assert(after.devices =~= before.devices.insert(
                            reserved.device_id,
                            after.devices[reserved.device_id],
                        ));
                    },
                }
            }
        },
        RequestBody::RemoveDevice(remove) => {
            let op = Operation::RemoveDevice;
            manager_calls::lemma_target(before, remove, volume);
            let answer = registry::known_answer(before, id, key, op, print);
            if answer is Some {
                manager_calls::lemma_known(before, id, key, op, print, Some(step->Respond_0));
            } else {
                manager_calls::lemma_known(before, id, key, op, print, None);
                if step is Respond {
                    manager_calls::lemma_keeps(before, key, op, print, step->Respond_0);
                }
            }
        },
    }
}

/// A request that was understood is begun as its body asks.
pub proof fn law_request_is_begun_as_asked(
    m: &mut ControlManager,
    request: ControlRequest,
    step: RequestStep,
    print: Vec<u8>,
    volume: Option<Seq<char>>,
)
    requires
        old(m).wf(),
        call_ensures(server::process_request, (m, request), step),
        call_ensures(ControlRequest::body_fingerprint, (&request,), Ok(print)),
        is_named(request.body, volume),
    ensures
        final(m).wf(),
        begins(
            old(m)@,
            request.request_id@,
            key_given(request),
            print@,
            request.body,
            volume,
            final(m)@,
            step,
        ),
{
    lemma_begins(old(m)@, request, print@, volume, final(m)@, step);
}

/// A payload that says nothing wrong is begun as its body asks, under its identifier and its key
/// without the blanks around it. Any other is refused for the first thing that is wrong with it, and
/// changes nothing.
pub proof fn law_payload_is_begun_or_refused(
    m: &mut ControlManager,
    payload: Result<RequestEnvelope, String>,
    step: RequestStep,
    example: ControlRequest,
    print: Vec<u8>,
    volume: Option<Seq<char>>,
    key: Option<Seq<char>>,
)
    requires
        old(m).wf(),
        call_ensures(server::handle_payload, (m, payload), step),
        payload matches Ok(envelope) ==> (forall|message: Seq<char>| !#[trigger]
            calls::fault(envelope, message)) ==> {
            &&& calls::same_body(envelope.body, example.body)
            &&& call_ensures(ControlRequest::body_fingerprint, (&example,), Ok(print))
            &&& is_named(example.body, volume)
            &&& manager_calls::names(envelope.idempotency_key, key)
        },
    ensures
        final(m).wf(),
        match payload {
            Err(detail) => {
                &&& final(m)@ == old(m)@
                &&& step matches RequestStep::Respond(r)
                &&& manager_calls::refuses(
                    r,
                    Seq::empty(),
                    ErrorCode::InvalidArgument,
                    "invalid JSON payload: "@ + detail@,
                )
            },
            Ok(envelope) => if exists|message: Seq<char>| #[trigger]
                calls::fault(envelope, message) {
                &&& final(m)@ == old(m)@
                &&& step matches RequestStep::Respond(r)
                &&& r.error is Some
                &&& calls::fault(envelope, r.error->0.message@)
                &&& manager_calls::refuses(
                    r,
                    envelope.request_id@,
                    ErrorCode::InvalidArgument,
                    r.error->0.message@,
                )
            } else {
                begins(
                    old(m)@,
                    envelope.request_id@,
                    if key is Some {
                        key->0
                    } else {
                        Seq::empty()
                    },
                    print@,
                    example.body,
                    volume,
                    final(m)@,
                    step,
                )
            },
        },
{
    let decoded = choose|decoded: Result<ControlRequest, ProtocolError>| #[trigger]
        protocol::is_decoded(payload, decoded) && match decoded {
            Ok(request) => server::begun(old(m)@, request, final(m)@, step@),
            Err(e) => final(m)@ == old(m)@ && step@ == server::RequestStepView::Respond(
                protocol::refusal(e@),
            ),
        };
    if let Ok(envelope) = payload {
        calls::lemma_decoded(envelope, decoded);
        match decoded {
            Err(e) => {
                assert(calls::fault(envelope, e.error.message@));
            },
            Ok(request) => {
                let given = if request.idempotency_key is Some {
                    Some(request.idempotency_key->0@)
                } else {
                    None
                };
                if let Some(sent) = envelope.idempotency_key {
                    let a = if given is Some {
                        given->0
                    } else {
                        Seq::empty()
                    };
                    let b = if key is Some {
                        key->0
                    } else {
                        Seq::empty()
                    };
                    text_calls::lemma_core_is_unique(sent@, a, b);
                }
                assert(request.body == example.body);
                lemma_begins(old(m)@, request, print@, volume, final(m)@, step);
            },
        }
    }
}

/// Whether all that happened is that a removal was completed, and that its answer was kept.
pub open spec fn finishes_removal(
    before: Registry,
    pending: PendingRemove,
    forced: bool,
    after: Registry,
    r: ResponseEnvelope,
) -> bool {
    exists|removed: Registry| #[trigger]
        manager_calls::completes_removal(
            before,
            pending.request.request_id@,
            pending.device_id,
            forced,
            removed,
            r,
        ) && manager_calls::keeps(
            removed,
            manager_calls::outcome_of(
                pending.request.idempotency_key@,
                Operation::RemoveDevice,
                pending.request.fingerprint@,
                r,
            ),
            after,
        )
}

/// A removal ends by force where it was to, or where the task of the device did not stop in time,
/// and regularly elsewhere; its answer is kept.
pub proof fn law_removal_is_finished(
    m: &mut ControlManager,
    pending: PendingRemove,
    timed_out: bool,
    r: ResponseEnvelope,
)
    requires
        old(m).wf(),
        call_ensures(server::finish_remove, (m, pending, timed_out), r),
    ensures
        final(m).wf(),
        pending.force || timed_out ==> finishes_removal(old(m)@, pending, true, final(m)@, r),
        !pending.force && !timed_out ==> finishes_removal(old(m)@, pending, false, final(m)@, r),
{
    let before = old(m)@;
    let forced = pending.force || timed_out;
    let id = pending.device_id;
    let request_id = pending.request.request_id@;
    let removed = registry::removed(before, request_id, id, forced).0;
    laws::law_changes_keep_order(before, id);
    manager_calls::lemma_completes_removal(before, request_id, id, forced, r);
    manager_calls::lemma_keeps(
        removed,
        pending.request.idempotency_key@,
        Operation::RemoveDevice,
        pending.request.fingerprint@,
        r,
    );
}

/// A removal that is begun carries the force flag of its request: where the request asked for force,
/// the removal, however the task of the device stops, ends with the device detached by force. Where
/// it did not ask, and the task stopped in time, the device is detached regularly; where the task
/// did not stop in time, by force.
pub proof fn law_removal_ends_as_asked(
    begun: &mut ControlManager,
    request: ControlRequest,
    pending: PendingRemove,
    done: &mut ControlManager,
    timed_out: bool,
    r: ResponseEnvelope,
)
    requires
        old(begun).wf(),
        request.body is RemoveDevice,
        call_ensures(server::process_request, (begun, request), RequestStep::Stop(pending)),
        old(done).wf(),
        old(done)@.devices.contains_key(pending.device_id),
        old(done)@.devices[pending.device_id] == final(begun)@.devices[pending.device_id],
        call_ensures(server::finish_remove, (done, pending, timed_out), r),
    ensures
        ({
            let force = request.body->RemoveDevice_0.force;
            let state = if force {
                DeviceState::ForceDetached
            } else if timed_out {
                DeviceState::ForceDetached
            } else {
                DeviceState::Detached
            };
            let id = pending.device_id;
            &&& manager_calls::holds(old(begun)@, id)
            &&& manager_calls::says_removed(
                r,
                request.request_id@,
                id,
                old(begun)@.devices[id].volume_id,
                state,
                false,
            )
            &&& final(done)@.devices.contains_key(id) ==> final(done)@.devices[id].state == state
            &&& old(done)@.next_sequence < u64::MAX ==> final(done)@.devices.contains_key(id)
        }),
{
    let before = old(begun)@;
    let middle = old(done)@;
    let id = pending.device_id;
    let forced = pending.force || timed_out;
    assert(middle.devices[id].state is Draining);
    manager_calls::lemma_completes_removal(middle, request.request_id@, id, forced, r);
    let removed = registry::removed(middle, request.request_id@, id, forced).0;
    let state = if forced {
        DeviceState::ForceDetached
    } else {
        DeviceState::Detached
    };
    let all = manager_calls::in_state(middle, removed, id, state, middle.devices[id].last_error);
    assert(manager_calls::forgets_oldest(all, removed.devices, middle.terminal_history_limit));
    assert(final(done)@.devices == removed.devices);
}

/// Whether all that happened is that a device came to serve or failed, and that the answer was kept.
pub open spec fn finishes_addition(
    before: Registry,
    pending: PendingAdd,
    started: Result<(), RuntimeStartError>,
    after: Registry,
    r: ResponseEnvelope,
) -> bool {
    exists|done: Registry|
        #![trigger manager_calls::same_limits(before, done)]
        manager_calls::same_limits(before, done) && (match started {
            Ok(()) => manager_calls::comes_to_serve(
                before,
                pending.request.request_id@,
                pending.device_id,
                done,
                r,
            ),
            Err(e) => manager_calls::fails(
                before,
                pending.request.request_id@,
                pending.device_id,
                e.code,
                e.message@,
                done,
                r,
            ),
        }) && manager_calls::keeps(
            done,
            manager_calls::outcome_of(
                pending.request.idempotency_key@,
                Operation::AddDevice,
                pending.request.fingerprint@,
                r,
            ),
            after,
        )
}

/// An addition ends with the device serving where it could be started, and with the device failed,
/// for the reason that is given, where it could not. The answer is kept. A device that was started
/// but is not to serve is to be stopped again.
pub proof fn law_addition_is_finished(
    m: &mut ControlManager,
    pending: PendingAdd,
    started: Result<(), RuntimeStartError>,
    r: FinishedAdd,
)
    requires
        old(m).wf(),
        call_ensures(server::finish_add, (m, pending, started), r),
    ensures
        final(m).wf(),
        finishes_addition(old(m)@, pending, started, final(m)@, r.response),
        r.stop_runtime <==> started is Ok && !r.response.ok,
{
    let before = old(m)@;
    let id = pending.device_id;
    let request_id = pending.request.request_id@;
    let done = match started {
        Ok(()) => registry::added(before, request_id, id).0,
        Err(e) => registry::add_failed(before, request_id, id, e.code, e.message@).0,
    };
    laws::law_changes_keep_order(before, id);
    if let Err(e) = started {
        manager_calls::lemma_fails(before, request_id, id, e.code, e.message@, r.response);
    }
    manager_calls::lemma_keeps(
        done,
        pending.request.idempotency_key@,
        Operation::AddDevice,
        pending.request.fingerprint@,
        r.response,
    );
    assert(manager_calls::same_limits(before, done));
}

/// A device whose addition was begun serves once its volume is open, and the answer says so.
pub proof fn law_started_device_serves(
    begun: &mut ControlManager,
    request: ControlRequest,
    pending: PendingAdd,
    done: &mut ControlManager,
    started: Result<(), RuntimeStartError>,
    r: FinishedAdd,
)
    requires
        old(begun).wf(),
        request.body is AddDevice,
        call_ensures(server::process_request, (begun, request), RequestStep::Start(pending)),
        old(done).wf(),
        old(done)@.devices.contains_key(pending.device_id),
        old(done)@.devices[pending.device_id] == final(begun)@.devices[pending.device_id],
        call_ensures(server::finish_add, (done, pending, started), r),
    ensures
        !r.stop_runtime,
        match started {
            Ok(()) => {
                &&& final(done)@.devices.contains_key(pending.device_id)
                &&& final(done)@.devices[pending.device_id].state is Serving
                &&& manager_calls::says_added(
                    r.response,
                    request.request_id@,
                    pending.device_id,
                    pending.volume_id@,
                    "/dev/ublkb"@ + crate::text::decimal(pending.device_id as nat),
                )
            },
            Err(e) => manager_calls::refuses(
                r.response,
                request.request_id@,
                e.code,
                e.message@,
            ) && !manager_calls::attached(final(done)@, pending.volume_id@),
        },
{
    let middle = old(done)@;
    assert(middle.devices[pending.device_id].state is OpeningVolume);
    if let Err(e) = started {
        let id = pending.device_id;
        manager_calls::lemma_fails(
            middle,
            request.request_id@,
            id,
            e.code,
            e.message@,
            r.response,
        );
        let failed = registry::add_failed(middle, request.request_id@, id, e.code, e.message@).0;
        assert(final(done)@.devices == failed.devices);
        assert(!manager_calls::attached(failed, pending.volume_id@));
        assert forall|k: u32| #[trigger] manager_calls::holds(final(done)@, k) implies
            final(done)@.devices[k].volume_id != pending.volume_id@ by {
            assert(manager_calls::holds(failed, k));
        }
    }
}

/// The operation that a request body is for.
pub open spec fn op_of(body: RequestBody) -> Operation {
    match body {
        RequestBody::AddDevice(_) => Operation::AddDevice,
        RequestBody::RemoveDevice(_) => Operation::RemoveDevice,
        RequestBody::ListDevices(_) => Operation::ListDevices,
        RequestBody::Health(_) => Operation::Health,
    }
}

/// A request to remove a device that comes again, once the first one is done, changes nothing and is
/// answered as the first one was, under its own identifier.
pub proof fn law_repeated_removal_gets_the_same_answer(
    done: &mut ControlManager,
    pending: PendingRemove,
    timed_out: bool,
    r: ResponseEnvelope,
    again: &mut ControlManager,
    request: ControlRequest,
    print: Vec<u8>,
    step: RequestStep,
)
    requires
        old(done).wf(),
        call_ensures(server::finish_remove, (done, pending, timed_out), r),
        old(again)@ == final(done)@,
        request.body is RemoveDevice,
        call_ensures(ControlRequest::body_fingerprint, (&request,), Ok(print)),
        is_for(pending.request, pending.request.request_id@, key_given(request), print@),
        !calls::all_blank(key_given(request)),
        call_ensures(server::process_request, (again, request), step),
    ensures
        final(again)@ == old(again)@,
        step matches RequestStep::Respond(second) && manager_calls::repeats(
            second,
            request.request_id@,
            manager_calls::outcome_of(key_given(request), Operation::RemoveDevice, print@, r),
        ),
{
    let key = key_given(request);
    assert(key == registry::key_of(request));
    text_calls::lemma_blank(key);
    laws::law_repeated_remove_is_answered_the_same(
        old(done)@,
        pending.request@,
        pending.device_id,
        pending.force,
        timed_out,
        request.body->RemoveDevice_0,
        request.request_id@,
    );
}

/// A request to add a device that comes again, once the first one is done, changes nothing and is
/// answered as the first one was, under its own identifier.
pub proof fn law_repeated_addition_gets_the_same_answer(
    done: &mut ControlManager,
    pending: PendingAdd,
    started: Result<(), RuntimeStartError>,
    r: FinishedAdd,
    again: &mut ControlManager,
    request: ControlRequest,
    print: Vec<u8>,
    step: RequestStep,
)
    requires
        old(done).wf(),
        call_ensures(server::finish_add, (done, pending, started), r),
        old(again)@ == final(done)@,
        request.body is AddDevice,
        call_ensures(ControlRequest::body_fingerprint, (&request,), Ok(print)),
        is_for(pending.request, pending.request.request_id@, key_given(request), print@),
        !calls::all_blank(key_given(request)),
        call_ensures(server::process_request, (again, request), step),
    ensures
        final(again)@ == old(again)@,
        step matches RequestStep::Respond(second) && manager_calls::repeats(
            second,
            request.request_id@,
            manager_calls::outcome_of(
                key_given(request),
                Operation::AddDevice,
                print@,
                r.response,
            ),
        ),
{
    let key = key_given(request);
    assert(key == registry::key_of(request));
    text_calls::lemma_blank(key);
    laws::law_repeated_add_is_answered_the_same(
        old(done)@,
        pending.request@,
        pending.device_id,
        server::started_view(started),
        request.body->AddDevice_0,
        request.request_id@,
    );
}

/// A request that is handled at once is answered as the two halves together would answer it: a
/// device is added and serves, or is removed, by force exactly where that was asked for.
pub proof fn law_request_is_handled_at_once(
    m: &mut ControlManager,
    request: ControlRequest,
    r: ResponseEnvelope,
    volume: Option<Seq<char>>,
    print: Vec<u8>,
)
    requires
        old(m).wf(),
        call_ensures(ControlManager::handle_request, (m, request), r),
        call_ensures(ControlRequest::body_fingerprint, (&request,), Ok(print)),
        is_named(request.body, volume),
    ensures
        final(m).wf(),
        request.body matches RequestBody::ListDevices(list) ==> final(m)@ == old(m)@
            && manager_calls::answers_list(old(m)@, request.request_id@, list, r),
        request.body is Health ==> final(m)@ == old(m)@ && manager_calls::answers_health(
            old(m)@,
            request.request_id@,
            r,
        ),
        (request.body is AddDevice || request.body is RemoveDevice) && !is_new(
            old(m)@,
            key_given(request),
        ) ==> final(m)@ == old(m)@ && manager_calls::known(
            old(m)@,
            request.request_id@,
            key_given(request),
            op_of(request.body),
            print@,
            Some(r),
        ),
        (request.body is AddDevice || request.body is RemoveDevice) && is_new(
            old(m)@,
            key_given(request),
        ) ==> manager_calls::keeps(
            Registry { cache: old(m)@.cache, ..final(m)@ },
            manager_calls::outcome_of(
                key_given(request),
                op_of(request.body),
                print@,
                r,
            ),
            final(m)@,
        ),
        forall|other: u32| #[trigger]
            manager_calls::holds(old(m)@, other) && !(request.body matches RequestBody::RemoveDevice(
                remove,
            ) && manager_calls::is_target(old(m)@, remove, volume, other))
                ==> final(m)@.devices.contains_key(other) && final(m)@.devices[other]
                == old(m)@.devices[other],
        request.body matches RequestBody::RemoveDevice(remove) ==> is_new(
            old(m)@,
            key_given(request),
        ) && (forall|id: u32| !#[trigger]
            manager_calls::is_target(old(m)@, remove, volume, id))
            ==> manager_calls::refuses_target(request.request_id@, remove, r),
        request.body matches RequestBody::AddDevice(add) ==> is_new(old(m)@, key_given(request))
            ==> {
            let name = if volume is Some {
                volume->0
            } else {
                Seq::empty()
            };
            if manager_calls::may_attach(old(m)@, name, add.ublk_device_id) {
                &&& r.result matches Some(protocol::ResponseResult::AddDevice(added))
                &&& manager_calls::is_given(old(m)@, add.ublk_device_id, added.device_id)
                &&& manager_calls::says_added(
                    r,
                    request.request_id@,
                    added.device_id,
                    name,
                    "/dev/ublkb"@ + crate::text::decimal(added.device_id as nat),
                )
                &&& final(m)@.devices.dom() == old(m)@.devices.dom().insert(added.device_id)
                &&& final(m)@.devices[added.device_id].state is Serving
                &&& final(m)@.devices[added.device_id].volume_id == name
                &&& forall|k: u32| #[trigger]
                    old(m)@.devices.contains_key(k) && k != added.device_id
                        ==> final(m)@.devices[k] == old(m)@.devices[k]
            } else {
                &&& final(m)@.devices == old(m)@.devices
                &&& manager_calls::refuses_volume(
                    old(m)@,
                    request.request_id@,
                    name,
                    add.ublk_device_id,
                    r,
                )
            }
        },
        request.body matches RequestBody::RemoveDevice(remove) ==> is_new(
            old(m)@,
            key_given(request),
        ) ==> forall|id: u32| #[trigger]
            manager_calls::is_target(old(m)@, remove, volume, id) ==> {
                let d = old(m)@.devices[id];
                let state = if remove.force {
                    DeviceState::ForceDetached
                } else {
                    DeviceState::Detached
                };
                if manager_calls::may_remove(old(m)@, id) {
                    &&& manager_calls::says_removed(
                        r,
                        request.request_id@,
                        id,
                        d.volume_id,
                        state,
                        false,
                    )
                    &&& final(m)@.devices.contains_key(id) ==> final(m)@.devices[id].state == state
                } else {
                    &&& final(m)@.devices == old(m)@.devices
                    &&& manager_calls::answers_removal(old(m)@, request.request_id@, id, r)
                }
            },
{
    let before = old(m)@;
    let after = final(m)@;
    let id = request.request_id@;
    let key = key_given(request);
    let print = print@;
    assert(key == registry::key_of(request));
    text_calls::lemma_blank(key);
    manager_calls::lemma_keeps(before, key, op_of(request.body), print, r);
    match request.body {
        RequestBody::ListDevices(list) => {
            manager_calls::lemma_answers_list(before, id, list, r);
        },
        RequestBody::Health(_) => {
            manager_calls::lemma_answers_health(before, id, r);
        },
        RequestBody::AddDevice(add) => {
            let name = if volume is Some {
                volume->0
            } else {
                Seq::empty()
            };
            let op = Operation::AddDevice;
            manager_calls::lemma_attaches(before, id, add, name);
            if registry::known_answer(before, id, key, op, print) is Some {
                manager_calls::lemma_known(before, id, key, op, print, Some(r));
            } else {
                manager_calls::lemma_known(before, id, key, op, print, None);
                if let Ok(reserved) = registry::reserve(before, id, add).1 {
                    assert(after.devices.dom() =~= before.devices.dom().insert(
                        reserved.device_id,
                    ));
                }
            }
            assert forall|other: u32| #[trigger] manager_calls::holds(before, other) implies
                after.devices.contains_key(other) && after.devices[other]
                == before.devices[other] by {}
        },
        RequestBody::RemoveDevice(remove) => {
            let op = Operation::RemoveDevice;
            manager_calls::lemma_target(before, remove, volume);
            if registry::known_answer(before, id, key, op, print) is Some {
                manager_calls::lemma_known(before, id, key, op, print, Some(r));
            } else {
                manager_calls::lemma_known(before, id, key, op, print, None);
                let (middle, preparation) = registry::draining(before, id, remove);
                if let registry::RemovePreparationView::Draining { device_id, force, .. } =
                    preparation {
                    laws::law_changes_keep_order(before, device_id);
                    let state = if force {
                        DeviceState::ForceDetached
                    } else {
                        DeviceState::Detached
                    };
                    let changed = middle.changed(
                        device_id,
                        state,
                        middle.devices[device_id].last_error,
                    );
                    registry::lemma_pruned(changed.devices, middle.terminal_history_limit);
                    assert forall|other: u32| #[trigger]
                        manager_calls::holds(before, other) && other
                            != device_id implies after.devices.contains_key(other)
                        && after.devices[other] == before.devices[other] by {
                        assert(changed.devices.contains_key(other));
                    }
                }
            }
            assert forall|other: u32| #[trigger]
                manager_calls::holds(before, other) && !manager_calls::is_target(
                    before,
                    remove,
                    volume,
                    other,
                ) implies after.devices.contains_key(other) && after.devices[other]
                == before.devices[other] by {}
        },
    }
}

/// A session with the volume of a device is set up as the service is.
pub proof fn law_sessions_are_set_up_as_the_service(
    config: ServeConfig,
    volume_id: &str,
    r: VolumeSessionConfig,
)
    requires
        call_ensures(server::build_session_config, (&config, volume_id), r),
    ensures
        r.frontend_endpoint@ == config.frontend_endpoint@,
        r.namespace@ == config.namespace@,
        r.volume_id@ == volume_id@,
        r.connect_timeout == config.connect_timeout,
        r.rpc_timeout == config.rpc_timeout,
        r.retry.max_attempts == config.retry_max_attempts,
        r.retry.initial_backoff == config.retry_initial_backoff,
        r.retry.max_backoff == config.retry_max_backoff,
{
}

/// How the service is set up where nothing is said.
pub proof fn law_service_is_set_up_by_default(config: ServeConfig)
    requires
        call_ensures(ServeConfig::default, (), config),
    ensures
        config.control_socket@ == "/tmp/temporal-ublk.sock"@,
        config.max_devices == 64,
        config.terminal_history_limit == 256,
        config.idempotency_cache_limit == 2048,
        config.ready_file is None,
        config.frontend_endpoint@ == "127.0.0.1:7233"@,
        config.namespace@ == "default"@,
        config.connect_timeout@ == 5 * 1_000_000_000,
        config.rpc_timeout@ == 5 * 1_000_000_000,
        config.retry_max_attempts == 8,
        config.retry_initial_backoff@ == 150 * 1_000_000,
        config.retry_max_backoff@ == 2 * 1_000_000_000,
        config.graceful_drain_timeout@ == 20 * 1_000_000_000,
        config.force_detach_timeout@ == 10 * 1_000_000_000,
{
}

/// A volume that could not be opened is unavailable where that may pass, and an internal failure
/// where it does not; what went wrong is told.
pub proof fn law_unopened_volume_is_told(
    volume_id: &str,
    error: TransportError,
    r: RuntimeStartError,
)
    requires
        call_ensures(server::map_open_error, (volume_id, error), r),
    ensures
        match error {
            TransportError::Retryable { message } => r.code is Unavailable && r.message@
                == "failed to open volume '"@ + volume_id@ + "' (retryable): "@ + message@,
            TransportError::Terminal { message } => r.code is Internal && r.message@
                == "failed to open volume '"@ + volume_id@ + "' (terminal): "@ + message@,
        },
{
}

/// A device whose task ended without a word is an internal failure.
pub proof fn law_silent_start_is_told(detail: &str, r: RuntimeStartError)
    requires
        call_ensures(server::startup_dropped, (detail,), r),
    ensures
        r.code is Internal,
        r.message@ == "runtime startup channel dropped: "@ + detail@,
{
}

/// A device that is removed by force is waited for as long as is set for that, any other as long as
/// is set for draining.
pub proof fn law_stop_is_waited_for(config: ServeConfig, force: bool, r: Duration)
    requires
        call_ensures(server::stop_timeout, (&config, force), r),
    ensures
        force ==> r == config.force_detach_timeout,
        !force ==> r == config.graceful_drain_timeout,
{
}

/// Only a signal ends the service, and a caller is served exactly where one was accepted.
pub proof fn law_only_a_signal_ends_the_service(event: ServeEvent, r: ServeAction)
    requires
        call_ensures(server::next_serve_action, (event,), r),
    ensures
        r is ShutDown <==> event is Signal,
        r is Serve <==> event is Accepted,
        r is Continue <==> event is AcceptFailed,
{
}

/// The line of an event starts with its level and name, and with each field grows by its name and
/// value.
pub proof fn law_event_line_grows_with_its_fields(
    level: &str,
    event: &str,
    fewer: Vec<(String, String)>,
    more: Vec<(String, String)>,
    before: String,
    after: String,
)
    requires
        more@.len() == fewer@.len() + 1,
        forall|i: int| 0 <= i < fewer@.len() ==> #[trigger] more@[i] == fewer@[i],
        call_ensures(server::event_line, (level, event, &fewer), before),
        call_ensures(server::event_line, (level, event, &more), after),
    ensures
        after@ == before@ + " "@ + more@.last().0@ + "="@ + more@.last().1@,
        fewer@.len() == 0 ==> before@ == "level="@ + level@ + " event="@ + event@,
{
    assert(more@.drop_last() =~= fewer@);
    assert(after@ =~= before@ + " "@ + more@.last().0@ + "="@ + more@.last().1@);
    if fewer@.len() == 0 {
        assert(before@ =~= "level="@ + level@ + " event="@ + event@);
    }
}

} // verus!
