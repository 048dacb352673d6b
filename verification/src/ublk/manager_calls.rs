//! What callers of the device manager can count on, call by call and from one call to the next.
//!
//! `call_ensures(f, args, r)` says that `f`, called with `args`, returned `r`; of a manager that is
//! passed to be changed, `old(..)` is the manager before the call and `final(..)` the one after it.
use crate::control::protocol::{
    AddDeviceRequest, ErrorCode, ListDevicesRequest, Operation, RemoveDeviceRequest,
    ResponseEnvelope, ResponseResult,
};
use crate::control::protocol;
use crate::text;
use crate::text_calls;
use crate::ublk::device::{DeviceState, DeviceStatus};
use crate::ublk::device;
use crate::ublk::laws;
use crate::ublk::manager::{AddDeviceReservation, ControlManager, RemovePreparation};
use crate::ublk::registry::{DeviceView, OutcomeView, Registry};
use crate::ublk::registry;
use vstd::prelude::*;

verus! {

/// Whether something may still happen to a device in this state.
pub open spec fn in_use(state: DeviceState) -> bool {
    ||| state is Allocating
    ||| state is OpeningVolume
    ||| state is Serving
    ||| state is Draining
}

/// What a state is called.
pub open spec fn called(state: DeviceState) -> Seq<char> {
    match state {
        DeviceState::Allocating => "Allocating"@,
        DeviceState::OpeningVolume => "OpeningVolume"@,
        DeviceState::Serving => "Serving"@,
        DeviceState::Draining => "Draining"@,
        DeviceState::Detached => "Detached"@,
        DeviceState::Failed => "Failed"@,
        DeviceState::ForceDetached => "ForceDetached"@,
    }
}

/// Whether there is a device with this number to which something may still happen.
pub open spec fn holds(reg: Registry, id: u32) -> bool {
    reg.devices.contains_key(id) && in_use(reg.devices[id].state)
}

/// Whether such a device has this volume.
pub open spec fn attached(reg: Registry, volume: Seq<char>) -> bool {
    exists|id: u32| #[trigger] holds(reg, id) && reg.devices[id].volume_id == volume
}

/// How many devices there are to which something may still happen.
pub open spec fn in_use_count(devices: Map<u32, DeviceView>) -> nat {
    devices.dom().filter(|id: u32| in_use(devices[id].state)).len()
}

/// How many devices there are to which nothing happens any more.
pub open spec fn past_count(devices: Map<u32, DeviceView>) -> nat {
    devices.dom().filter(|id: u32| !in_use(devices[id].state)).len()
}

/// Whether the limits of the service are the same.
pub open spec fn same_limits(before: Registry, after: Registry) -> bool {
    &&& after.max_devices == before.max_devices
    &&& after.terminal_history_limit == before.terminal_history_limit
    &&& after.idempotency_cache_limit == before.idempotency_cache_limit
}

/// Whether one more change was counted; beyond the last number that there is, none is.
pub open spec fn counted_on(before: Registry, after: Registry) -> bool {
    ||| after.next_sequence == before.next_sequence + 1
    ||| before.next_sequence == u64::MAX && after.next_sequence == u64::MAX
}

/// The devices with one of them in another state.
pub open spec fn in_state(
    before: Registry,
    after: Registry,
    id: u32,
    state: DeviceState,
    last_error: Option<Seq<char>>,
) -> Map<u32, DeviceView> {
    let d = before.devices[id];
    before.devices.insert(
        id,
        DeviceView {
            device_id: d.device_id,
            volume_id: d.volume_id,
            device_path: d.device_path,
            state,
            last_error,
            updated_seq: after.next_sequence,
        },
    )
}

/// Whether all that happened is that a device came to be in this state.
pub open spec fn moved(
    before: Registry,
    after: Registry,
    id: u32,
    state: DeviceState,
    last_error: Option<Seq<char>>,
) -> bool {
    &&& same_limits(before, after)
    &&& counted_on(before, after)
    &&& after.next_device_id == before.next_device_id
    &&& after.cache == before.cache
    &&& after.devices == in_state(before, after, id, state, last_error)
}

/// Whether a device last changed before another; of two that changed at once, the one with the
/// lower number counts as the earlier one.
pub open spec fn earlier(devices: Map<u32, DeviceView>, a: u32, b: u32) -> bool {
    if devices[a].updated_seq == devices[b].updated_seq {
        a < b
    } else {
        devices[a].updated_seq < devices[b].updated_seq
    }
}

/// Whether of `all` devices those are left that may still be used, and of the others the latest up
/// to a limit.
pub open spec fn forgets_oldest(
    all: Map<u32, DeviceView>,
    left: Map<u32, DeviceView>,
    limit: usize,
) -> bool {
    &&& forall|id: u32| #[trigger]
        left.contains_key(id) ==> all.contains_key(id) && left[id] == all[id]
    &&& forall|id: u32| #[trigger]
        all.contains_key(id) && in_use(all[id].state) ==> left.contains_key(id)
    &&& forall|gone: u32, kept: u32|
        #![trigger all.contains_key(gone), left.contains_key(kept)]
        all.contains_key(gone) && !left.contains_key(gone) && left.contains_key(kept) && !in_use(
            left[kept].state,
        ) ==> earlier(all, gone, kept)
    &&& past_count(all) <= limit ==> left == all
    &&& past_count(all) > limit ==> past_count(left) == limit
}

/// Whether all that happened is that a device came to its end in this state, and that the oldest
/// past devices were forgotten where there were too many.
pub open spec fn ended(
    before: Registry,
    after: Registry,
    id: u32,
    state: DeviceState,
    last_error: Option<Seq<char>>,
) -> bool {
    &&& same_limits(before, after)
    &&& counted_on(before, after)
    &&& after.next_device_id == before.next_device_id
    &&& after.cache == before.cache
    &&& forgets_oldest(
        in_state(before, after, id, state, last_error),
        after.devices,
        before.terminal_history_limit,
    )
    &&& !attached(after, before.devices[id].volume_id)
    &&& before.next_sequence < u64::MAX ==> after.devices.contains_key(id)
}

/// Whether a response refuses a request, and says why.
pub open spec fn refuses(
    r: ResponseEnvelope,
    request_id: Seq<char>,
    code: ErrorCode,
    message: Seq<char>,
) -> bool {
    &&& r.version@ == "v1"@
    &&& r.request_id@ == request_id
    &&& !r.ok
    &&& r.result is None
    &&& r.error is Some
    &&& r.error->0.code == code
    &&& r.error->0.message@ == message
    &&& r.error->0.details@ == "{}"@
}

/// Whether a response grants a request.
pub open spec fn grants(r: ResponseEnvelope, request_id: Seq<char>) -> bool {
    &&& r.version@ == "v1"@
    &&& r.request_id@ == request_id
    &&& r.ok
    &&& r.error is None
}

/// Whether a response says that a device is removed.
pub open spec fn says_removed(
    r: ResponseEnvelope,
    request_id: Seq<char>,
    id: u32,
    volume: Seq<char>,
    state: DeviceState,
    noop: bool,
) -> bool {
    &&& grants(r, request_id)
    &&& r.result matches Some(ResponseResult::RemoveDevice(removed))
    &&& removed.device_id == Some(id)
    &&& removed.volume_id is Some
    &&& removed.volume_id->0@ == volume
    &&& removed.state == state
    &&& removed.noop == noop
}

/// Whether a response says that a device serves a volume.
pub open spec fn says_added(
    r: ResponseEnvelope,
    request_id: Seq<char>,
    id: u32,
    volume: Seq<char>,
    path: Seq<char>,
) -> bool {
    &&& grants(r, request_id)
    &&& r.result matches Some(ResponseResult::AddDevice(added))
    &&& added.device_id == id
    &&& added.volume_id@ == volume
    &&& added.device_path@ == path
    &&& added.state is Serving
}

/// Whether a text that may be missing names this volume. One of blanks only names none.
pub open spec fn names(given: Option<String>, volume: Option<Seq<char>>) -> bool {
    match given {
        None => volume is None,
        Some(s) => match volume {
            None => text_calls::is_core(s@, Seq::empty()),
            Some(v) => v.len() > 0 && text_calls::is_core(s@, v),
        },
    }
}

proof fn lemma_named(given: Option<String>, volume: Option<Seq<char>>)
    requires
        names(given, volume),
    ensures
        protocol::present(given) == volume,
{
    if let Some(s) = given {
        text_calls::lemma_trimmed_is_core(s@);
        match volume {
            None => text_calls::lemma_core_is_unique(s@, Seq::empty(), text::trimmed(s@)),
            Some(v) => text_calls::lemma_core_is_unique(s@, v, text::trimmed(s@)),
        }
    }
}

proof fn lemma_in_use(reg: Registry)
    requires
        reg.consistent(),
    ensures
        forall|id: u32| #[trigger] holds(reg, id) <==> registry::is_live(reg.devices, id),
        forall|id: u32| #[trigger] registry::is_live(reg.devices, id) ==> holds(reg, id),
        in_use_count(reg.devices) == registry::live_ids(reg.devices).len(),
        forall|v: Seq<char>| #[trigger] reg.active.contains_key(v) <==> attached(reg, v),
        forall|v: Seq<char>| #[trigger] attached(reg, v) ==> reg.active.contains_key(v),
        past_count(reg.devices) == registry::terminal_ids(reg.devices).len(),
{
    lemma_counts(reg.devices);
    assert forall|v: Seq<char>| #[trigger] reg.active.contains_key(v) implies attached(reg, v) by {
        assert(holds(reg, reg.active[v]));
    }
    assert forall|v: Seq<char>| #[trigger] attached(reg, v) implies reg.active.contains_key(v) by {
        let id = choose|id: u32| #[trigger] holds(reg, id) && reg.devices[id].volume_id == v;
        assert(registry::is_live(reg.devices, id));
    }
}

proof fn lemma_counts(devices: Map<u32, DeviceView>)
    ensures
        in_use_count(devices) == registry::live_ids(devices).len(),
        past_count(devices) == registry::terminal_ids(devices).len(),
{
    assert(devices.dom().filter(|id: u32| in_use(devices[id].state)) =~= registry::live_ids(
        devices,
    ));
    assert(devices.dom().filter(|id: u32| !in_use(devices[id].state)) =~= registry::terminal_ids(
        devices,
    ));
}

proof fn lemma_forgets(all: Map<u32, DeviceView>, limit: usize)
    requires
        all.dom().finite(),
    ensures
        forgets_oldest(all, registry::pruned(all, limit), limit),
    decreases registry::terminal_ids(all).len(),
{
    let left = registry::pruned(all, limit);
    registry::lemma_pruned(all, limit);
    lemma_counts(all);
    lemma_counts(left);
    if registry::terminal_ids(all).len() > limit {
        registry::lemma_oldest_exists(all);
        let oldest = choose|c: u32| registry::is_oldest_terminal(all, c);
        registry::lemma_pruned_step(all, limit, oldest);
        let rest = all.remove(oldest);
        lemma_forgets(rest, limit);
        lemma_counts(rest);
        assert forall|gone: u32, kept: u32|
            #![trigger all.contains_key(gone), left.contains_key(kept)]
            all.contains_key(gone) && !left.contains_key(gone) && left.contains_key(kept)
                && !in_use(left[kept].state) implies earlier(all, gone, kept) by {
            assert(rest.contains_key(kept));
            if gone == oldest {
                assert(all.contains_key(kept));
                assert(registry::older(all, gone, kept));
            } else {
                assert(rest.contains_key(gone));
                assert(earlier(rest, gone, kept));
            }
        }
    }
}

/// A new service has no devices and remembers nothing. It has the limits that were asked for, where
/// they are not too low.
pub proof fn law_new_service_is_empty(
    max_devices: usize,
    history: usize,
    outcomes: usize,
    m: ControlManager,
)
    requires
        call_ensures(ControlManager::new, (max_devices, history, outcomes), m),
    ensures
        m.wf(),
        m@.devices.dom() == Set::<u32>::empty(),
        m@.cache.len() == 0,
        m@.next_device_id == 0,
        m@.max_devices >= 1,
        max_devices >= 1 ==> m@.max_devices == max_devices,
        max_devices == 0 ==> m@.max_devices == 1,
        history >= 1 ==> m@.terminal_history_limit == history,
        history == 0 ==> m@.terminal_history_limit == 1,
        outcomes >= 16 ==> m@.idempotency_cache_limit == outcomes,
        outcomes < 16 ==> m@.idempotency_cache_limit == 16,
{
}

/// How many steps it is from one number to another, going up and round.
pub open spec fn steps(from: u32, to: u32) -> int {
    if from <= to {
        to - from
    } else {
        to - from + 0x1_0000_0000
    }
}

proof fn lemma_first_free(devices: Map<u32, DeviceView>, from: u32, tries: nat)
    requires
        tries <= 0x1_0000_0000,
    ensures
        match registry::first_free(devices, from, tries) {
            Some(id) => {
                &&& !registry::is_live(devices, id)
                &&& steps(from, id) < tries
                &&& forall|k: u32|
                    #![trigger registry::is_live(devices, k)]
                    steps(from, k) < steps(from, id) ==> registry::is_live(devices, k)
            },
            None => forall|k: u32|
                #![trigger registry::is_live(devices, k)]
                steps(from, k) < tries ==> registry::is_live(devices, k),
        },
    decreases tries,
{
    if tries > 0 && registry::is_live(devices, from) {
        let next = registry::wrapped_next(from);
        lemma_first_free(devices, next, (tries - 1) as nat);
        match registry::first_free(devices, from, tries) {
            Some(id) => {
                assert(id != from);
                assert forall|k: u32|
                    #![trigger registry::is_live(devices, k)]
                    steps(from, k) < steps(from, id) implies registry::is_live(devices, k) by {
                    if k != from {
                        assert(steps(next, k) == steps(from, k) - 1);
                        assert(steps(next, id) == steps(from, id) - 1);
                    }
                }
            },
            None => {
                assert forall|k: u32|
                    #![trigger registry::is_live(devices, k)]
                    steps(from, k) < tries implies registry::is_live(devices, k) by {
                    if k != from {
                        assert(steps(next, k) == steps(from, k) - 1);
                    }
                }
            },
        }
    }
}

/// Whether a number is the one that a new device gets: the one that was asked for, or else the
/// first one that is free, counting on from the number after the last one that was given.
pub open spec fn is_given(reg: Registry, wanted: Option<u32>, id: u32) -> bool {
    &&& !holds(reg, id)
    &&& match wanted {
        Some(w) => id == w,
        None => forall|k: u32|
            steps(reg.next_device_id, k) < steps(reg.next_device_id, id) ==> #[trigger] holds(
                reg,
                k,
            ),
    }
}

/// Whether a volume can be attached to a new device: it has a name, is not attached yet, fewer
/// devices than allowed are in use, and there is a number for the device.
pub open spec fn may_attach(reg: Registry, volume: Seq<char>, wanted: Option<u32>) -> bool {
    &&& volume.len() > 0
    &&& !attached(reg, volume)
    &&& in_use_count(reg.devices) < reg.max_devices
    &&& exists|id: u32| #[trigger] is_given(reg, wanted, id)
}

/// Whether a response says why a volume cannot be attached to a new device.
pub open spec fn refuses_volume(
    reg: Registry,
    request_id: Seq<char>,
    volume: Seq<char>,
    wanted: Option<u32>,
    r: ResponseEnvelope,
) -> bool {
    if volume.len() == 0 {
        refuses(r, request_id, ErrorCode::InvalidArgument, "volume_id must be non-empty"@)
    } else if attached(reg, volume) {
        refuses(
            r,
            request_id,
            ErrorCode::AlreadyExists,
            "volume_id '"@ + volume + "' is already attached"@,
        )
    } else if in_use_count(reg.devices) >= reg.max_devices {
        refuses(
            r,
            request_id,
            ErrorCode::Unavailable,
            "max_devices="@ + text::decimal(reg.max_devices as nat) + " reached"@,
        )
    } else {
        match wanted {
            Some(id) => refuses(
                r,
                request_id,
                ErrorCode::AlreadyExists,
                "device_id '"@ + text::decimal(id as nat) + "' is already in use"@,
            ),
            None => refuses(
                r,
                request_id,
                ErrorCode::Unavailable,
                "no free device_id available"@,
            ),
        }
    }
}

/// Whether all that happened is that a volume got a new device, which came to this state.
pub open spec fn attaches(
    before: Registry,
    volume: Seq<char>,
    wanted: Option<u32>,
    id: u32,
    state: DeviceState,
    after: Registry,
) -> bool {
    &&& is_given(before, wanted, id)
    &&& same_limits(before, after)
    &&& after.cache == before.cache
    &&& wanted is Some ==> after.next_device_id == before.next_device_id
    &&& wanted is None ==> steps(id, after.next_device_id) == 1
    &&& after.devices == before.devices.insert(
        id,
        DeviceView {
            device_id: id,
            volume_id: volume,
            device_path: "/dev/ublkb"@ + text::decimal(id as nat),
            state,
            last_error: None,
            updated_seq: after.next_sequence,
        },
    )
}

/// A volume is attached to a new device where that can be. Else nothing changes, and what stands in
/// the way is told.
pub proof fn law_volume_is_attached_or_refused(
    m: &mut ControlManager,
    request_id: String,
    body: &AddDeviceRequest,
    r: Result<AddDeviceReservation, ResponseEnvelope>,
    volume: Seq<char>,
)
    requires
        old(m).wf(),
        call_ensures(ControlManager::reserve_add_device, (m, request_id, body), r),
        text_calls::is_core(body.volume_id@, volume),
    ensures
        final(m).wf(),
        r is Ok <==> may_attach(old(m)@, volume, body.ublk_device_id),
        r matches Ok(reserved) ==> {
            &&& reserved.volume_id@ == volume
            &&& reserved.device_path@ == "/dev/ublkb"@ + text::decimal(reserved.device_id as nat)
            &&& counted_on(old(m)@, final(m)@)
            &&& attaches(
                old(m)@,
                volume,
                body.ublk_device_id,
                reserved.device_id,
                DeviceState::Allocating,
                final(m)@,
            )
        },
        r matches Err(e) ==> {
            &&& final(m)@ == old(m)@
            &&& refuses_volume(old(m)@, request_id@, volume, body.ublk_device_id, e)
        },
{
    lemma_attaches(old(m)@, request_id@, *body, volume);
}

/// Setting a number aside for a device, stated by the devices that there are.
pub proof fn lemma_attaches(
    reg: Registry,
    request_id: Seq<char>,
    body: AddDeviceRequest,
    volume: Seq<char>,
)
    requires
        reg.wf(),
        text_calls::is_core(body.volume_id@, volume),
    ensures
        text::trimmed(body.volume_id@) == volume,
        registry::reserve(reg, request_id, body).1 is Ok <==> may_attach(
            reg,
            volume,
            body.ublk_device_id,
        ),
        registry::reserve(reg, request_id, body).1 matches Ok(reserved) ==> is_given(
            reg,
            body.ublk_device_id,
            reserved.device_id,
        ),
        reg.active.contains_key(volume) <==> attached(reg, volume),
        in_use_count(reg.devices) == registry::live_ids(reg.devices).len(),
{
    text_calls::lemma_trimmed_is_core(body.volume_id@);
    text_calls::lemma_core_is_unique(body.volume_id@, volume, text::trimmed(body.volume_id@));
    lemma_in_use(reg);
    lemma_first_free(reg.devices, reg.next_device_id, 0x1_0000_0000);
    match registry::chosen_id(reg, body.ublk_device_id) {
        Ok((id, _)) => {
            assert(is_given(reg, body.ublk_device_id, id));
        },
        Err(_) => {
            assert forall|id: u32| !#[trigger] is_given(reg, body.ublk_device_id, id) by {
                if body.ublk_device_id is None {
                    assert(steps(reg.next_device_id, id) < 0x1_0000_0000);
                    assert(registry::is_live(reg.devices, id));
                }
            }
        },
    }
}

/// A device starts to open its volume where a number was just set aside for it. One that does
/// already goes on. Any other is left as it is, and what is wrong with it is told.
pub proof fn law_device_starts_to_open(
    m: &mut ControlManager,
    id: u32,
    r: Result<(), ResponseEnvelope>,
)
    requires
        old(m).wf(),
        call_ensures(ControlManager::mark_device_opening, (m, id), r),
    ensures
        final(m).wf(),
        ({
            let before = old(m)@;
            let d = before.devices[id];
            let asked = "add-device:"@ + text::decimal(id as nat);
            if !before.devices.contains_key(id) {
                final(m)@ == before && (r matches Err(e) && refuses(
                    e,
                    asked,
                    ErrorCode::NotFound,
                    "device_id '"@ + text::decimal(id as nat) + "' not found"@,
                ))
            } else if d.state is OpeningVolume {
                final(m)@ == before && r is Ok
            } else if d.state is Allocating {
                moved(before, final(m)@, id, DeviceState::OpeningVolume, d.last_error) && r is Ok
            } else if in_use(d.state) {
                final(m)@ == before && (r matches Err(e) && refuses(
                    e,
                    asked,
                    ErrorCode::Busy,
                    "device_id '"@ + text::decimal(id as nat)
                        + "' cannot open its volume from state '"@ + called(d.state) + "'"@,
                ))
            } else {
                final(m)@ == before && (r matches Err(e) && refuses(
                    e,
                    asked,
                    ErrorCode::Busy,
                    "device_id '"@ + text::decimal(id as nat) + "' is in terminal state '"@
                        + called(d.state) + "'"@,
                ))
            }
        }),
{
}

/// A device comes to serve where it has been opening its volume; one that serves already goes on.
/// Any other is left as it is, and what is wrong with it is told.
pub proof fn law_device_comes_to_serve(
    m: &mut ControlManager,
    request_id: String,
    id: u32,
    r: ResponseEnvelope,
)
    requires
        old(m).wf(),
        call_ensures(ControlManager::finalize_add_success, (m, request_id, id), r),
    ensures
        final(m).wf(),
        comes_to_serve(old(m)@, request_id@, id, final(m)@, r),
{
}

/// Whether all that happened is that a device came to serve, where it could.
pub open spec fn comes_to_serve(
    before: Registry,
    request_id: Seq<char>,
    id: u32,
    after: Registry,
    r: ResponseEnvelope,
) -> bool {
    let d = before.devices[id];
    if !before.devices.contains_key(id) {
        &&& same_limits(before, after)
        &&& after.devices == before.devices
        &&& after.cache == before.cache
        &&& after.next_device_id == before.next_device_id
        &&& refuses(
            r,
            request_id,
            ErrorCode::Internal,
            "device_id '"@ + text::decimal(id as nat) + "' missing before final add transition"@,
        )
    } else if d.state is OpeningVolume || d.state is Serving {
        &&& moved(before, after, id, DeviceState::Serving, None)
        &&& says_added(r, request_id, id, d.volume_id, d.device_path)
    } else {
        &&& after == before
        &&& refuses(
            r,
            request_id,
            ErrorCode::Busy,
            "device_id '"@ + text::decimal(id as nat) + "' cannot complete add from state '"@
                + called(d.state) + "'"@,
        )
    }
}

/// Whether all that happened is that a device failed, where it was in use.
pub open spec fn fails(
    before: Registry,
    request_id: Seq<char>,
    id: u32,
    code: ErrorCode,
    message: Seq<char>,
    after: Registry,
    r: ResponseEnvelope,
) -> bool {
    let d = before.devices[id];
    if !before.devices.contains_key(id) {
        &&& same_limits(before, after)
        &&& after.devices == before.devices
        &&& after.cache == before.cache
        &&& after.next_device_id == before.next_device_id
        &&& refuses(
            r,
            request_id,
            ErrorCode::Internal,
            "device_id '"@ + text::decimal(id as nat) + "' missing during add failure cleanup"@,
        )
    } else if in_use(d.state) {
        &&& ended(before, after, id, DeviceState::Failed, Some(message))
        &&& refuses(r, request_id, code, message)
    } else {
        &&& after == before
        &&& refuses(
            r,
            request_id,
            ErrorCode::Busy,
            "device_id '"@ + text::decimal(id as nat) + "' is in terminal state '"@ + called(
                d.state,
            ) + "'"@,
        )
    }
}

proof fn lemma_ends(
    before: Registry,
    id: u32,
    state: DeviceState,
    last_error: Option<Seq<char>>,
    after: Registry,
)
    requires
        before.wf(),
        holds(before, id),
        !in_use(state),
        after == before.changed(id, state, last_error).released(
            before.devices[id].volume_id,
        ).tidied(),
        before.next_sequence < u64::MAX ==> after.devices.contains_key(id),
    ensures
        ended(before, after, id, state, last_error),
{
    let changed = before.changed(id, state, last_error);
    let released = changed.released(before.devices[id].volume_id);
    before.lemma_changed(id, state, last_error);
    released.lemma_tidied();
    assert(changed.devices =~= in_state(before, after, id, state, last_error));
    lemma_forgets(changed.devices, before.terminal_history_limit);
    lemma_in_use(after);
    assert(!after.active.contains_key(before.devices[id].volume_id));
}

/// The failure of a device, stated by the devices that there are.
pub proof fn lemma_fails(
    before: Registry,
    request_id: Seq<char>,
    id: u32,
    code: ErrorCode,
    message: Seq<char>,
    r: ResponseEnvelope,
)
    requires
        before.wf(),
        r@ == registry::add_failed(before, request_id, id, code, message).1,
    ensures
        fails(
            before,
            request_id,
            id,
            code,
            message,
            registry::add_failed(before, request_id, id, code, message).0,
            r,
        ),
{
    if holds(before, id) {
        if before.next_sequence < u64::MAX {
            laws::law_ended_device_is_listed(before, id, request_id, code, message, false);
        }
        lemma_ends(
            before,
            id,
            DeviceState::Failed,
            Some(message),
            registry::add_failed(before, request_id, id, code, message).0,
        );
    }
}

/// A device that could not be added has failed, for the reason that is given, and its volume is
/// free again. One that is past all use is left as it is.
pub proof fn law_device_fails(
    m: &mut ControlManager,
    request_id: String,
    id: u32,
    code: ErrorCode,
    message: String,
    r: ResponseEnvelope,
)
    requires
        old(m).wf(),
        call_ensures(ControlManager::fail_add_device, (m, request_id, id, code, message), r),
    ensures
        final(m).wf(),
        fails(old(m)@, request_id@, id, code, message@, final(m)@, r),
{
    lemma_fails(old(m)@, request_id@, id, code, message@, r);
}

/// Whether the removal of a device can begin: it is in use, and is not being removed already.
pub open spec fn may_remove(reg: Registry, id: u32) -> bool {
    holds(reg, id) && !(reg.devices[id].state is Draining)
}

/// Whether a response says why the removal of a device cannot begin, or that it has been removed.
pub open spec fn answers_removal(
    reg: Registry,
    request_id: Seq<char>,
    id: u32,
    r: ResponseEnvelope,
) -> bool {
    let d = reg.devices[id];
    if !reg.devices.contains_key(id) {
        refuses(
            r,
            request_id,
            ErrorCode::NotFound,
            "device_id '"@ + text::decimal(id as nat) + "' not found"@,
        )
    } else if d.state is Draining {
        refuses(
            r,
            request_id,
            ErrorCode::Busy,
            "device_id '"@ + text::decimal(id as nat) + "' is already draining"@,
        )
    } else {
        says_removed(r, request_id, id, d.volume_id, d.state, true)
    }
}

/// Whether all that happened is that the removal of a device began, where it could, and is to be
/// done by force exactly where this was asked for.
pub open spec fn begins_removal(
    before: Registry,
    request_id: Seq<char>,
    id: u32,
    force: bool,
    after: Registry,
    r: RemovePreparation,
) -> bool {
    let d = before.devices[id];
    if may_remove(before, id) {
        &&& moved(before, after, id, DeviceState::Draining, d.last_error)
        &&& r matches RemovePreparation::Draining { device_id, volume_id, force: by_force }
        &&& device_id == id
        &&& volume_id@ == d.volume_id
        &&& by_force == force
    } else {
        &&& after == before
        &&& r matches RemovePreparation::Immediate(response)
        &&& answers_removal(before, request_id, id, response)
    }
}

/// Whether a volume stands in the way of the removal of a device: another device has it, and is not
/// being drained.
pub open spec fn stands_in_the_way(reg: Registry, volume: Option<Seq<char>>, id: u32) -> bool {
    exists|a: u32| #[trigger]
        holds(reg, a) && a != id && volume == Some(reg.devices[a].volume_id) && !(
        reg.devices[a].state is Draining)
}

/// Whether a device is the one with this volume that changed last.
pub open spec fn is_latest(reg: Registry, volume: Seq<char>, id: u32) -> bool {
    &&& reg.devices.contains_key(id)
    &&& reg.devices[id].volume_id == volume
    &&& forall|other: u32| #[trigger]
        reg.devices.contains_key(other) && reg.devices[other].volume_id == volume && other != id
            ==> earlier(reg.devices, other, id)
}

/// Whether a request to remove a device is about this one: it gives its number, and no volume stands
/// in the way; or it gives its volume, where the device that has it comes before those that had it.
pub open spec fn is_target(
    reg: Registry,
    body: RemoveDeviceRequest,
    volume: Option<Seq<char>>,
    id: u32,
) -> bool {
    match body.device_id {
        Some(wanted) => id == wanted && !stands_in_the_way(reg, volume, id),
        None => volume is Some && if attached(reg, volume->0) {
            holds(reg, id) && reg.devices[id].volume_id == volume->0
        } else {
            is_latest(reg, volume->0, id)
        },
    }
}

/// Whether a response says why a request to remove a device is about none.
pub open spec fn refuses_target(
    request_id: Seq<char>,
    body: RemoveDeviceRequest,
    r: ResponseEnvelope,
) -> bool {
    if body.device_id is Some {
        refuses(
            r,
            request_id,
            ErrorCode::InvalidArgument,
            "device_id and volume_id refer to different active devices"@,
        )
    } else {
        refuses(r, request_id, ErrorCode::NotFound, "requested device was not found"@)
    }
}

/// A device that has this volume, or had it, and that changed last.
pub proof fn lemma_latest_exists(reg: Registry, volume: Seq<char>, rest: Set<u32>) -> (latest: u32)
    requires
        rest.finite(),
        rest.len() > 0,
        forall|id: u32| #[trigger]
            rest.contains(id) ==> reg.devices.contains_key(id) && reg.devices[id].volume_id
                == volume,
    ensures
        rest.contains(latest),
        forall|other: u32| #[trigger]
            rest.contains(other) && other != latest ==> earlier(reg.devices, other, latest),
    decreases rest.len(),
{
    let one = rest.choose();
    assert(rest.contains(one));
    let fewer = rest.remove(one);
    if fewer.len() == 0 {
        assert forall|other: u32| #[trigger] rest.contains(other) && other != one implies earlier(
            reg.devices,
            other,
            one,
        ) by {
            assert(fewer.contains(other));
        }
        one
    } else {
        let best = lemma_latest_exists(reg, volume, fewer);
        let latest = if earlier(reg.devices, best, one) {
            one
        } else {
            best
        };
        assert forall|other: u32| #[trigger] rest.contains(other) && other
            != latest implies earlier(reg.devices, other, latest) by {
            if other != one && other != best {
                assert(fewer.contains(other));
            }
        }
        latest
    }
}

/// Which device a request to remove one is about, stated by the devices that there are.
pub proof fn lemma_target(
    reg: Registry,
    body: RemoveDeviceRequest,
    volume: Option<Seq<char>>,
)
    requires
        reg.wf(),
        names(body.volume_id, volume),
    ensures
        match registry::remove_target(reg, body) {
            Ok(id) => is_target(reg, body, volume, id) && (forall|other: u32| #[trigger]
                is_target(reg, body, volume, other) ==> other == id),
            Err((code, message)) => {
                &&& forall|id: u32| !#[trigger] is_target(reg, body, volume, id)
                &&& body.device_id is Some ==> code is InvalidArgument && message
                    == "device_id and volume_id refer to different active devices"@
                &&& body.device_id is None ==> code is NotFound && message
                    == "requested device was not found"@
            },
        },
{
    lemma_named(body.volume_id, volume);
    lemma_in_use(reg);
    if let Some(v) = volume {
        if reg.active.contains_key(v) {
            assert(holds(reg, reg.active[v]));
        }
        assert forall|id: u32| #[trigger]
            holds(reg, id) && reg.devices[id].volume_id == v implies reg.active.contains_key(v)
            && reg.active[v] == id by {
            assert(registry::is_live(reg.devices, id));
            assert(attached(reg, v));
        }
        assert forall|id: u32| #[trigger] is_latest(reg, v, id) implies registry::most_recent(
            reg.devices,
            v,
        ) == Some(id) by {
            assert(registry::is_most_recent(reg.devices, v, id)) by {
                assert forall|other: u32| #[trigger]
                    reg.devices.contains_key(other) && reg.devices[other].volume_id == v && other
                        != id implies registry::older(reg.devices, other, id) by {
                    assert(earlier(reg.devices, other, id));
                }
            }
            registry::lemma_most_recent_unique(reg.devices, v, id);
        }
        if let Some(id) = registry::most_recent(reg.devices, v) {
            assert(registry::is_most_recent(reg.devices, v, id));
            assert(is_latest(reg, v, id)) by {
                assert forall|other: u32| #[trigger]
                    reg.devices.contains_key(other) && reg.devices[other].volume_id == v && other
                        != id implies earlier(reg.devices, other, id) by {
                    assert(registry::older(reg.devices, other, id));
                }
            }
        }
    }
}

/// Where a device has a volume, or had it, a request that gives only the volume is about one.
pub proof fn law_volume_leads_to_a_device(
    m: ControlManager,
    body: RemoveDeviceRequest,
    volume: Seq<char>,
    id: u32,
)
    requires
        m.wf(),
        body.device_id is None,
        names(body.volume_id, Some(volume)),
        m@.devices.contains_key(id),
        m@.devices[id].volume_id == volume,
    ensures
        exists|target: u32| #[trigger] is_target(m@, body, Some(volume), target),
{
    let reg = m@;
    if attached(reg, volume) {
        let a = choose|a: u32| #[trigger] holds(reg, a) && reg.devices[a].volume_id == volume;
        assert(is_target(reg, body, Some(volume), a));
    } else {
        let all = reg.devices.dom().filter(|k: u32| reg.devices[k].volume_id == volume);
        vstd::set_lib::lemma_len_subset(all, reg.devices.dom());
        assert(all.contains(id));
        let latest = lemma_latest_exists(reg, volume, all);
        assert(is_latest(reg, volume, latest)) by {
            assert forall|other: u32| #[trigger]
                reg.devices.contains_key(other) && reg.devices[other].volume_id == volume && other
                    != latest implies earlier(reg.devices, other, latest) by {
                assert(all.contains(other));
            }
        }
        assert(is_target(reg, body, Some(volume), latest));
    }
}

/// A removal that is begun carries the force flag of its request, and is of the device that the
/// request is about. Where none can be begun, nothing changes, and it is told why.
pub proof fn law_removal_is_begun_as_asked(
    m: &mut ControlManager,
    request_id: String,
    body: &RemoveDeviceRequest,
    r: RemovePreparation,
    volume: Option<Seq<char>>,
)
    requires
        old(m).wf(),
        call_ensures(ControlManager::prepare_remove_device, (m, request_id, body), r),
        names(body.volume_id, volume),
    ensures
        final(m).wf(),
        r is Immediate ==> final(m)@ == old(m)@,
        r matches RemovePreparation::Draining { device_id, force, .. } ==> {
            &&& force == body.force
            &&& is_target(old(m)@, *body, volume, device_id)
            &&& may_remove(old(m)@, device_id)
        },
        forall|id: u32| #[trigger]
            is_target(old(m)@, *body, volume, id) ==> begins_removal(
                old(m)@,
                request_id@,
                id,
                body.force,
                final(m)@,
                r,
            ),
        (forall|id: u32| !#[trigger] is_target(old(m)@, *body, volume, id)) ==> (
        r matches RemovePreparation::Immediate(response) && refuses_target(
            request_id@,
            *body,
            response,
        )),
{
    lemma_target(old(m)@, *body, volume);
}

/// Whether all that happened is that the removal of a device was completed, where it had begun.
pub open spec fn completes_removal(
    before: Registry,
    request_id: Seq<char>,
    id: u32,
    forced: bool,
    after: Registry,
    r: ResponseEnvelope,
) -> bool {
    let d = before.devices[id];
    if !before.devices.contains_key(id) {
        &&& after == before
        &&& refuses(
            r,
            request_id,
            ErrorCode::NotFound,
            "device_id '"@ + text::decimal(id as nat) + "' not found"@,
        )
    } else if d.state is Draining && forced {
        &&& ended(before, after, id, DeviceState::ForceDetached, d.last_error)
        &&& says_removed(r, request_id, id, d.volume_id, DeviceState::ForceDetached, false)
    } else if d.state is Draining {
        &&& ended(before, after, id, DeviceState::Detached, d.last_error)
        &&& says_removed(r, request_id, id, d.volume_id, DeviceState::Detached, false)
    } else if in_use(d.state) {
        &&& after == before
        &&& refuses(
            r,
            request_id,
            ErrorCode::Busy,
            "device_id '"@ + text::decimal(id as nat) + "' cannot complete remove from state '"@
                + called(d.state) + "'"@,
        )
    } else {
        &&& after == before
        &&& says_removed(r, request_id, id, d.volume_id, d.state, true)
    }
}

/// The end of a removal, stated by the devices that there are.
pub proof fn lemma_completes_removal(
    before: Registry,
    request_id: Seq<char>,
    id: u32,
    forced: bool,
    r: ResponseEnvelope,
)
    requires
        before.wf(),
        r@ == registry::removed(before, request_id, id, forced).1,
    ensures
        completes_removal(
            before,
            request_id,
            id,
            forced,
            registry::removed(before, request_id, id, forced).0,
            r,
        ),
{
    if before.devices.contains_key(id) && before.devices[id].state is Draining {
        let state = if forced {
            DeviceState::ForceDetached
        } else {
            DeviceState::Detached
        };
        if before.next_sequence < u64::MAX {
            laws::law_ended_device_is_listed(
                before,
                id,
                request_id,
                ErrorCode::Busy,
                Seq::empty(),
                forced,
            );
        }
        lemma_ends(
            before,
            id,
            state,
            before.devices[id].last_error,
            registry::removed(before, request_id, id, forced).0,
        );
    }
}

/// A removal that was begun ends with the device detached: by force where it was forced, and
/// regularly where it was not. Its volume is free again.
pub proof fn law_removal_is_completed(
    m: &mut ControlManager,
    request_id: String,
    id: u32,
    forced: bool,
    r: ResponseEnvelope,
)
    requires
        old(m).wf(),
        call_ensures(ControlManager::complete_remove_device, (m, request_id, id, forced), r),
    ensures
        final(m).wf(),
        completes_removal(old(m)@, request_id@, id, forced, final(m)@, r),
{
    lemma_completes_removal(old(m)@, request_id@, id, forced, r);
}

/// A device that is removed by a request, with what was begun carried through, is detached by force
/// exactly where the request asked for force.
pub proof fn law_force_is_carried_through(
    begun: &mut ControlManager,
    request_id: String,
    body: &RemoveDeviceRequest,
    preparation: RemovePreparation,
    done: &mut ControlManager,
    r: ResponseEnvelope,
)
    requires
        old(begun).wf(),
        call_ensures(
            ControlManager::prepare_remove_device,
            (begun, request_id, body),
            preparation,
        ),
        old(done)@ == final(begun)@,
        old(done).wf(),
        preparation matches RemovePreparation::Draining { device_id, force, .. }
            && call_ensures(
            ControlManager::complete_remove_device,
            (done, request_id, device_id, force),
            r,
        ),
    ensures
        preparation matches RemovePreparation::Draining { device_id, volume_id, .. } && {
            let state = if body.force {
                DeviceState::ForceDetached
            } else {
                DeviceState::Detached
            };
            &&& says_removed(r, request_id@, device_id, volume_id@, state, false)
            &&& final(done)@.devices.contains_key(device_id)
                ==> final(done)@.devices[device_id].state == state
        },
{
    let id = preparation->device_id;
    let before = old(done)@;
    assert(before.devices.contains_key(id) && before.devices[id].state is Draining);
    let state = if body.force {
        DeviceState::ForceDetached
    } else {
        DeviceState::Detached
    };
    let changed = before.changed(id, state, before.devices[id].last_error);
    registry::lemma_pruned(changed.devices, before.terminal_history_limit);
}

/// Whether a list holds, in the order of their numbers, exactly the devices that `wanted` holds of.
pub open spec fn lists(
    reg: Registry,
    wanted: spec_fn(DeviceView) -> bool,
    list: Seq<DeviceStatus>,
) -> bool {
    &&& forall|i: int|
        0 <= i < list.len() ==> {
            let s = #[trigger] list[i];
            let d = reg.devices[s.device_id];
            &&& reg.devices.contains_key(s.device_id)
            &&& wanted(d)
            &&& s.volume_id@ == d.volume_id
            &&& s.device_path@ == d.device_path
            &&& s.state == d.state
            &&& s.last_error is Some <==> d.last_error is Some
            &&& s.last_error is Some ==> s.last_error->0@ == d.last_error->0
        }
    &&& forall|id: u32| #[trigger]
        reg.devices.contains_key(id) && wanted(reg.devices[id]) ==> exists|i: int|
            0 <= i < list.len() && (#[trigger] list[i]).device_id == id
    &&& forall|i: int, j: int|
        #![trigger list[i], list[j]]
        0 <= i < j < list.len() ==> list[i].device_id < list[j].device_id
}

/// Whether a device agrees with each field that a request to list devices gives.
pub open spec fn agrees(body: ListDevicesRequest, d: DeviceView) -> bool {
    &&& body.device_id matches Some(id) ==> d.device_id == id
    &&& body.volume_id matches Some(volume) ==> d.volume_id == volume@
    &&& body.state matches Some(name) ==> called(d.state) == name@
}

/// Whether a response lists the devices that agree with a request; where it gives a state that there
/// is not, it is refused.
pub open spec fn answers_list(
    reg: Registry,
    request_id: Seq<char>,
    body: ListDevicesRequest,
    r: ResponseEnvelope,
) -> bool {
    if body.state matches Some(name) && (forall|s: DeviceState| #[trigger] called(s) != name@) {
        refuses(
            r,
            request_id,
            ErrorCode::InvalidArgument,
            "unknown state filter '"@ + body.state->0@ + "'"@,
        )
    } else {
        &&& grants(r, request_id)
        &&& r.result matches Some(ResponseResult::ListDevices(result))
        &&& lists(reg, |d: DeviceView| agrees(body, d), result.devices@)
    }
}

proof fn lemma_lists(
    reg: Registry,
    wanted: spec_fn(DeviceView) -> bool,
    list: Seq<DeviceStatus>,
    filter: registry::FilterView,
)
    requires
        reg.wf(),
        registry::lists_exactly(device::statuses_view(list), reg.devices, filter),
        forall|id: u32| #[trigger]
            reg.devices.contains_key(id) ==> (registry::passes(filter, reg.devices[id]) <==> wanted(
                reg.devices[id],
            )),
    ensures
        lists(reg, wanted, list),
{
    let view = device::statuses_view(list);
    assert forall|i: int| 0 <= i < list.len() implies {
        let s = #[trigger] list[i];
        let d = reg.devices[s.device_id];
        &&& reg.devices.contains_key(s.device_id)
        &&& wanted(d)
        &&& s.volume_id@ == d.volume_id
        &&& s.device_path@ == d.device_path
        &&& s.state == d.state
        &&& s.last_error is Some <==> d.last_error is Some
        &&& s.last_error is Some ==> s.last_error->0@ == d.last_error->0
    } by {
        assert(view[i] == list[i]@);
    }
    assert forall|id: u32| #[trigger]
        reg.devices.contains_key(id) && wanted(reg.devices[id]) implies exists|i: int|
        0 <= i < list.len() && (#[trigger] list[i]).device_id == id by {
        let i = choose|i: int| 0 <= i < view.len() && (#[trigger] view[i]).device_id == id;
        assert(view[i] == list[i]@);
    }
    assert forall|i: int, j: int|
        #![trigger list[i], list[j]]
        0 <= i < j < list.len() implies list[i].device_id < list[j].device_id by {
        assert(view[i] == list[i]@ && view[j] == list[j]@);
    }
}

/// An answer to a request to list devices, stated by the fields of the request.
pub proof fn lemma_answers_list(
    reg: Registry,
    request_id: Seq<char>,
    body: ListDevicesRequest,
    r: ResponseEnvelope,
)
    requires
        reg.wf(),
        registry::is_listing(reg, request_id, body, r@),
    ensures
        answers_list(reg, request_id, body, r),
{
    let wanted = |d: DeviceView| agrees(body, d);
    let unknown = body.state is Some && (forall|s: DeviceState| #[trigger]
        called(s) != body.state->0@);
    if unknown {
        assert forall|state: DeviceState| body.state->0@ != #[trigger] state.name() by {
            assert(called(state) != body.state->0@);
        }
    } else {
        let state = if body.state is Some {
            let s = choose|s: DeviceState| #[trigger] called(s) == body.state->0@;
            assert(s.name() == called(s));
            Some(s)
        } else {
            None
        };
        let filter = registry::FilterView::Matching {
            device_id: body.device_id,
            volume_id: device::text_view(body.volume_id),
            state,
        };
        assert(registry::listing_of(reg, request_id, filter, r@));
        let list = r.result->0->ListDevices_0.devices@;
        assert forall|id: u32| #[trigger] reg.devices.contains_key(id) implies (registry::passes(
            filter,
            reg.devices[id],
        ) <==> wanted(reg.devices[id])) by {
            let d = reg.devices[id];
            if state is Some {
                if called(d.state) == called(state->0) {
                    assert(d.state.name() == called(d.state));
                    device::law_state_names_differ(d.state, state->0);
                }
            }
        }
        lemma_lists(reg, wanted, list, filter);
    }
}

/// Every device in the answer to a request to list devices agrees with each field that the request
/// gives, and every device that agrees with all of them is in the answer.
pub proof fn law_listed_devices_agree_with_the_request(
    m: ControlManager,
    request_id: String,
    body: ListDevicesRequest,
    r: ResponseEnvelope,
)
    requires
        m.wf(),
        call_ensures(ControlManager::list_devices, (&m, request_id, body), r),
    ensures
        answers_list(m@, request_id@, body, r),
{
    lemma_answers_list(m@, request_id@, body, r);
}

/// Whether a response says how the service is doing: which devices failed or had to be detached by
/// force, and how many devices there are.
pub open spec fn answers_health(reg: Registry, request_id: Seq<char>, r: ResponseEnvelope) -> bool {
    &&& grants(r, request_id)
    &&& r.result matches Some(ResponseResult::Health(health))
    &&& lists(
        reg,
        |d: DeviceView| d.state is Failed || d.state is ForceDetached,
        health.degraded_devices@,
    )
    &&& health.degraded_devices@.len() == 0 ==> health.status@ == "ok"@
    &&& health.degraded_devices@.len() > 0 ==> health.status@ == "degraded"@
    &&& health.active_devices == in_use_count(reg.devices)
    &&& health.total_devices == in_use_count(reg.devices) + past_count(reg.devices)
}

/// An answer to a request for the health of the service, stated by the states of the devices.
pub proof fn lemma_answers_health(reg: Registry, request_id: Seq<char>, r: ResponseEnvelope)
    requires
        reg.wf(),
        registry::health_answered(reg, request_id, r@),
    ensures
        answers_health(reg, request_id, r),
{
    let list = r.result->0->Health_0.degraded_devices@;
    assert(device::statuses_view(list).len() == list.len());
    lemma_lists(
        reg,
        |d: DeviceView| d.state is Failed || d.state is ForceDetached,
        list,
        registry::FilterView::Degraded,
    );
    lemma_counts(reg.devices);
    registry::lemma_terminal_finite(reg.devices);
}

/// The health of the service is told by the devices that there are.
pub proof fn law_health_is_told(m: ControlManager, request_id: String, r: ResponseEnvelope)
    requires
        m.wf(),
        call_ensures(ControlManager::health, (&m, request_id), r),
    ensures
        answers_health(m@, request_id@, r),
{
    lemma_answers_health(m@, request_id@, r);
}

/// The outcome of a request as it is kept.
pub open spec fn outcome_of(
    key: Seq<char>,
    op: Operation,
    print: Seq<u8>,
    response: ResponseEnvelope,
) -> OutcomeView {
    OutcomeView {
        key,
        op,
        fingerprint: print,
        ok: response.ok,
        result: match response.result {
            Some(result) => Some(result@),
            None => None,
        },
        error: match response.error {
            Some(error) => Some(error@),
            None => None,
        },
    }
}

/// Whether all that happened is that the outcome of a request was kept: as the latest one, in place
/// of one with the same key, or else in place of the oldest one where there is no room.
pub open spec fn keeps(before: Registry, outcome: OutcomeView, after: Registry) -> bool {
    &&& same_limits(before, after)
    &&& after.devices == before.devices
    &&& after.next_device_id == before.next_device_id
    &&& after.next_sequence == before.next_sequence
    &&& forall|at: int|
        0 <= at < before.cache.len() && (#[trigger] before.cache[at]).key == outcome.key
            ==> after.cache == before.cache.remove(at).push(outcome)
    &&& (forall|at: int|
        0 <= at < before.cache.len() ==> (#[trigger] before.cache[at]).key != outcome.key)
        ==> after.cache == if before.cache.len() < before.idempotency_cache_limit {
        before.cache.push(outcome)
    } else {
        before.cache.skip(1).push(outcome)
    }
}

/// Keeping an outcome, stated by the outcomes that are kept already.
pub proof fn lemma_keeps(
    before: Registry,
    key: Seq<char>,
    op: Operation,
    print: Seq<u8>,
    response: ResponseEnvelope,
)
    requires
        before.cache_in_order(),
    ensures
        keeps(
            before,
            outcome_of(key, op, print, response),
            registry::remembered(before, key, op, print, response@),
        ),
{
    let outcome = outcome_of(key, op, print, response);
    let after = registry::remembered(before, key, op, print, response@);
    assert forall|at: int|
        0 <= at < before.cache.len() && (#[trigger] before.cache[at]).key
            == outcome.key implies after.cache == before.cache.remove(at).push(outcome) by {
        assert(registry::has_key(before.cache, key, at));
        let found = choose|f: int| #[trigger] registry::has_key(before.cache, key, f);
        assert(found == at);
    }
    if forall|at: int|
        0 <= at < before.cache.len() ==> (#[trigger] before.cache[at]).key != outcome.key {
        if exists|f: int| #[trigger] registry::has_key(before.cache, key, f) {
            let f = choose|f: int| #[trigger] registry::has_key(before.cache, key, f);
            assert(before.cache[f].key == key);
        }
        if before.cache.len() >= before.idempotency_cache_limit {
            assert(before.cache.push(outcome).skip(1) =~= before.cache.skip(1).push(outcome));
        }
    }
}

/// The outcome of a request is kept as the latest one, and no device is touched.
pub proof fn law_outcome_is_kept(
    m: &mut ControlManager,
    key: String,
    op: Operation,
    print: Vec<u8>,
    response: &ResponseEnvelope,
)
    requires
        old(m).wf(),
        call_ensures(ControlManager::cache_mutating_outcome, (m, key, op, print, response), ()),
    ensures
        final(m).wf(),
        keeps(old(m)@, outcome_of(key@, op, print@, *response), final(m)@),
{
    lemma_keeps(old(m)@, key@, op, print@, *response);
}

/// Whether a response is the kept answer, under the identifier of the new request.
pub open spec fn repeats(
    r: ResponseEnvelope,
    request_id: Seq<char>,
    outcome: OutcomeView,
) -> bool {
    &&& r.version@ == "v1"@
    &&& r.request_id@ == request_id
    &&& r.ok == outcome.ok
    &&& r.result is Some <==> outcome.result is Some
    &&& r.result is Some ==> r.result->0@ == outcome.result->0
    &&& r.error is Some <==> outcome.error is Some
    &&& r.error is Some ==> r.error->0@ == outcome.error->0
}

/// Whether `r` is what is known of a request before it is handled: that it lacks a key, that the key
/// was used for another request, or the answer that was given to it before; nothing of a new one.
pub open spec fn known(
    reg: Registry,
    request_id: Seq<char>,
    key: Seq<char>,
    op: Operation,
    print: Seq<u8>,
    r: Option<ResponseEnvelope>,
) -> bool {
    if forall|i: int| 0 <= i < key.len() ==> text_calls::white(#[trigger] key[i]) {
        r is Some && refuses(
            r->0,
            request_id,
            ErrorCode::InvalidArgument,
            "idempotency_key is required for mutating operations"@,
        )
    } else {
        &&& r is None <==> forall|at: int|
            0 <= at < reg.cache.len() ==> (#[trigger] reg.cache[at]).key != key
        &&& forall|at: int|
            0 <= at < reg.cache.len() && (#[trigger] reg.cache[at]).key == key ==> if reg.cache[at].op
                == op && reg.cache[at].fingerprint == print {
                r is Some && repeats(r->0, request_id, reg.cache[at])
            } else {
                r is Some && refuses(
                    r->0,
                    request_id,
                    ErrorCode::InvalidArgument,
                    "idempotency_key was reused with a different operation or payload"@,
                )
            }
    }
}

/// What is known of a request, stated by the outcomes that are kept.
pub proof fn lemma_known(
    reg: Registry,
    request_id: Seq<char>,
    key: Seq<char>,
    op: Operation,
    print: Seq<u8>,
    r: Option<ResponseEnvelope>,
)
    requires
        reg.cache_in_order(),
        match r {
            Some(response) => registry::known_answer(reg, request_id, key, op, print) == Some(
                response@,
            ),
            None => registry::known_answer(reg, request_id, key, op, print) is None,
        },
    ensures
        known(reg, request_id, key, op, print, r),
{
    text_calls::lemma_blank(key);
    if !text::is_blank(key) {
        assert forall|at: int|
            0 <= at < reg.cache.len() && (#[trigger] reg.cache[at]).key == key implies registry::kept(
            reg.cache,
            key,
        ) == Some(reg.cache[at]) by {
            assert(registry::has_key(reg.cache, key, at));
            registry::lemma_kept_at(reg, key, at);
        }
        if exists|f: int| #[trigger] registry::has_key(reg.cache, key, f) {
            let f = choose|f: int| #[trigger] registry::has_key(reg.cache, key, f);
            assert(reg.cache[f].key == key);
        }
    }
}

/// A request that is known is answered from what is kept of it, and no other is.
pub proof fn law_known_requests_are_recognised(
    m: ControlManager,
    request_id: String,
    key: &String,
    op: Operation,
    print: &[u8],
    r: Option<ResponseEnvelope>,
)
    requires
        m.wf(),
        call_ensures(
            ControlManager::lookup_cached_mutating_outcome,
            (&m, request_id, key, op, print),
            r,
        ),
    ensures
        known(m@, request_id@, key@, op, print@, r),
{
    lemma_known(m@, request_id@, key@, op, print@, r);
}

/// What was kept is found again: the same request gets the same answer, under its own identifier,
/// and another request under the same key is refused.
pub proof fn law_kept_outcome_is_found_again(
    m: &mut ControlManager,
    key: String,
    op: Operation,
    print: Vec<u8>,
    response: &ResponseEnvelope,
    second_id: String,
    second_op: Operation,
    second_print: &[u8],
    r: Option<ResponseEnvelope>,
)
    requires
        old(m).wf(),
        call_ensures(ControlManager::cache_mutating_outcome, (m, key, op, print, response), ()),
        call_ensures(
            ControlManager::lookup_cached_mutating_outcome,
            (&*final(m), second_id, &key, second_op, second_print),
            r,
        ),
        exists|i: int| 0 <= i < key@.len() && !text_calls::white(#[trigger] key@[i]),
    ensures
        if second_op == op && second_print@ == print@ {
            r is Some && repeats(r->0, second_id@, outcome_of(key@, op, print@, *response))
        } else {
            r is Some && refuses(
                r->0,
                second_id@,
                ErrorCode::InvalidArgument,
                "idempotency_key was reused with a different operation or payload"@,
            )
        },
{
    let before = old(m)@;
    let after = final(m)@;
    lemma_keeps(before, key@, op, print@, *response);
    registry::lemma_remembered(before, key@, op, print@, response@);
    lemma_known(after, second_id@, key@, second_op, second_print@, r);
    assert(after.cache[after.cache.len() - 1].key == key@);
}

} // verus!
