//! What the device service knows, and how each operation changes it.
use crate::control::fingerprint;
use crate::control::protocol::{
    AddDeviceRequest, ControlRequest, ErrorBodyView, ErrorCode, ListDevicesRequest, Operation,
    RemoveDeviceRequest, RequestBody, ResponseResultView, ResponseView,
};
use crate::control::protocol;
use crate::text;
use crate::ublk::device::{
    AddDeviceResultView, DeviceState, DeviceStatusView, HealthResultView, RemoveDeviceResultView,
};
use crate::ublk::device;
use vstd::prelude::*;

verus! {

/// A device.
pub struct DeviceView {
    pub device_id: u32,
    pub volume_id: Seq<char>,
    pub device_path: Seq<char>,
    pub state: DeviceState,
    pub last_error: Option<Seq<char>>,
    /// When the device last changed.
    pub updated_seq: u64,
}

/// The outcome of a mutating operation, kept for the case that it is asked for again.
pub struct OutcomeView {
    pub key: Seq<char>,
    pub op: Operation,
    pub fingerprint: Seq<u8>,
    pub ok: bool,
    pub result: Option<ResponseResultView>,
    pub error: Option<ErrorBodyView>,
}

/// All that the device service knows.
#[verifier::ext_equal]
pub struct Registry {
    pub max_devices: usize,
    pub terminal_history_limit: usize,
    pub idempotency_cache_limit: usize,
    pub next_device_id: u32,
    pub next_sequence: u64,
    pub devices: Map<u32, DeviceView>,
    /// The volumes of the live devices, and those devices.
    pub active: Map<Seq<char>, u32>,
    /// Kept outcomes, the oldest first.
    pub cache: Seq<OutcomeView>,
}

/// The devices that nothing happens to any more.
pub open spec fn terminal_ids(devices: Map<u32, DeviceView>) -> Set<u32> {
    devices.dom().filter(|id: u32| devices[id].state.terminal())
}

/// The devices that something may still happen to.
pub open spec fn live_ids(devices: Map<u32, DeviceView>) -> Set<u32> {
    devices.dom().filter(|id: u32| !devices[id].state.terminal())
}

/// Whether a device may still be used.
pub open spec fn is_live(devices: Map<u32, DeviceView>, device_id: u32) -> bool {
    devices.contains_key(device_id) && !devices[device_id].state.terminal()
}

/// Whether a live device has this volume. A volume stays taken until its device is terminal.
pub open spec fn is_taken(devices: Map<u32, DeviceView>, volume_id: Seq<char>) -> bool {
    exists|id: u32| #[trigger] is_live(devices, id) && devices[id].volume_id == volume_id
}

/// The path of a device.
pub open spec fn path_of(device_id: u32) -> Seq<char> {
    "/dev/ublkb"@ + text::decimal(device_id as nat)
}

/// A device as it is reported.
pub open spec fn status_of(d: DeviceView) -> DeviceStatusView {
    DeviceStatusView {
        device_id: d.device_id,
        device_path: d.device_path,
        volume_id: d.volume_id,
        state: d.state,
        last_error: d.last_error,
    }
}

impl Registry {
    /// What holds of a registry between any two operations.
    pub open spec fn wf(self) -> bool {
        &&& self.consistent()
        &&& terminal_ids(self.devices).len() <= self.terminal_history_limit
    }

    /// What holds of a registry at all times, even while it has a terminal device too many.
    pub open spec fn consistent(self) -> bool {
        &&& self.max_devices >= 1
        &&& self.terminal_history_limit >= 1
        &&& self.idempotency_cache_limit >= 16
        &&& self.devices.dom().finite()
        &&& live_ids(self.devices).len() <= self.max_devices
        &&& forall|id: u32| #[trigger]
            self.devices.contains_key(id) ==> self.devices[id].device_id == id
                && self.devices[id].device_path == path_of(id) && self.devices[id].updated_seq
                <= self.next_sequence
        &&& forall|v: Seq<char>| #[trigger]
            self.active.contains_key(v) ==> is_live(self.devices, self.active[v])
                && self.devices[self.active[v]].volume_id == v
        &&& forall|id: u32| #[trigger]
            is_live(self.devices, id) ==> self.active.contains_key(self.devices[id].volume_id)
                && self.active[self.devices[id].volume_id] == id
        &&& self.cache_in_order()
    }

    /// No two kept outcomes have the same key, and there are no more than allowed.
    pub open spec fn cache_in_order(self) -> bool {
        &&& self.idempotency_cache_limit >= 1
        &&& self.cache.len() <= self.idempotency_cache_limit
        &&& forall|i: int, j: int|
            #![trigger self.cache[i], self.cache[j]]
            0 <= i < j < self.cache.len() ==> self.cache[i].key != self.cache[j].key
    }

    /// The sequence number that the next change gets.
    pub open spec fn next(self) -> u64 {
        if self.next_sequence == u64::MAX {
            u64::MAX
        } else {
            (self.next_sequence + 1) as u64
        }
    }

    /// The registry once a sequence number was taken.
    pub open spec fn ticked(self) -> Registry {
        Registry { next_sequence: self.next(), ..self }
    }

    /// The registry after a device was changed, under a new sequence number.
    pub open spec fn changed(
        self,
        device_id: u32,
        state: DeviceState,
        last_error: Option<Seq<char>>,
    ) -> Registry {
        let d = self.devices[device_id];
        Registry {
            next_sequence: self.next(),
            devices: self.devices.insert(
                device_id,
                DeviceView { state, last_error, updated_seq: self.next(), ..d },
            ),
            ..self
        }
    }

    /// The registry after a volume was let go.
    pub open spec fn released(self, volume_id: Seq<char>) -> Registry {
        Registry { active: self.active.remove(volume_id), ..self }
    }

    /// The registry after its oldest terminal devices were forgotten.
    pub open spec fn tidied(self) -> Registry {
        Registry { devices: pruned(self.devices, self.terminal_history_limit), ..self }
    }
}

/// Whether device `a` last changed before device `b`; of two that changed at once, the one with
/// the lower number did.
pub open spec fn older(devices: Map<u32, DeviceView>, a: u32, b: u32) -> bool {
    devices[a].updated_seq < devices[b].updated_seq || (devices[a].updated_seq
        == devices[b].updated_seq && a < b)
}

/// Whether a device is the terminal one that changed longest ago.
pub open spec fn is_oldest_terminal(devices: Map<u32, DeviceView>, id: u32) -> bool {
    &&& devices.contains_key(id)
    &&& devices[id].state.terminal()
    &&& forall|other: u32| #[trigger]
        devices.contains_key(other) && devices[other].state.terminal() && other != id ==> older(
            devices,
            id,
            other,
        )
}

/// The devices without the oldest terminal ones, so that no more than `limit` of those are left.
pub open spec fn pruned(devices: Map<u32, DeviceView>, limit: usize) -> Map<u32, DeviceView>
    decreases terminal_ids(devices).len(),
{
    let id = choose|id: u32| is_oldest_terminal(devices, id);
    if terminal_ids(devices).len() > limit && terminal_ids(devices.remove(id)).len()
        < terminal_ids(devices).len() {
        pruned(devices.remove(id), limit)
    } else {
        devices
    }
}

/// The number after this one; after the last comes zero.
pub open spec fn wrapped_next(id: u32) -> u32 {
    if id == u32::MAX {
        0
    } else {
        (id + 1) as u32
    }
}

/// The first number from `candidate` on, going round, that no live device has, within `tries`
/// tries.
pub open spec fn first_free(devices: Map<u32, DeviceView>, candidate: u32, tries: nat) -> Option<u32>
    decreases tries,
{
    if tries == 0 {
        None
    } else if !is_live(devices, candidate) {
        Some(candidate)
    } else {
        first_free(devices, wrapped_next(candidate), (tries - 1) as nat)
    }
}

/// A number that is set aside for a device, and its volume.
pub struct ReservationView {
    pub device_id: u32,
    pub device_path: Seq<char>,
    pub volume_id: Seq<char>,
}

/// Why a device number cannot be given, or the number and the registry after it was taken.
pub open spec fn chosen_id(reg: Registry, wanted: Option<u32>) -> Result<
    (u32, u32),
    (ErrorCode, Seq<char>),
> {
    match wanted {
        Some(id) => if is_live(reg.devices, id) {
            Err(
                (
                    ErrorCode::AlreadyExists,
                    "device_id '"@ + text::decimal(id as nat) + "' is already in use"@,
                ),
            )
        } else {
            Ok((id, reg.next_device_id))
        },
        None => match first_free(reg.devices, reg.next_device_id, 0x1_0000_0000) {
            Some(id) => Ok((id, wrapped_next(id))),
            None => Err((ErrorCode::Unavailable, "no free device_id available"@)),
        },
    }
}

/// A volume is to be attached to a new device.
pub open spec fn reserve(reg: Registry, request_id: Seq<char>, body: AddDeviceRequest) -> (
    Registry,
    Result<ReservationView, ResponseView>,
) {
    let volume_id = text::trimmed(body.volume_id@);
    if volume_id.len() == 0 {
        (
            reg,
            Err(
                protocol::failure(
                    request_id,
                    ErrorCode::InvalidArgument,
                    "volume_id must be non-empty"@,
                ),
            ),
        )
    } else if reg.active.contains_key(volume_id) {
        (
            reg,
            Err(
                protocol::failure(
                    request_id,
                    ErrorCode::AlreadyExists,
                    "volume_id '"@ + volume_id + "' is already attached"@,
                ),
            ),
        )
    } else if live_ids(reg.devices).len() >= reg.max_devices {
        (
            reg,
            Err(
                protocol::failure(
                    request_id,
                    ErrorCode::Unavailable,
                    "max_devices="@ + text::decimal(reg.max_devices as nat) + " reached"@,
                ),
            ),
        )
    } else {
        match chosen_id(reg, body.ublk_device_id) {
            Err((code, message)) => (reg, Err(protocol::failure(request_id, code, message))),
            Ok((device_id, next_device_id)) => (
                Registry {
                    next_device_id,
                    next_sequence: reg.next(),
                    devices: reg.devices.insert(
                        device_id,
                        DeviceView {
                            device_id,
                            volume_id,
                            device_path: path_of(device_id),
                            state: DeviceState::Allocating,
                            last_error: None,
                            updated_seq: reg.next(),
                        },
                    ),
                    active: reg.active.insert(volume_id, device_id),
                    ..reg
                },
                Ok(
                    ReservationView {
                        device_id,
                        device_path: path_of(device_id),
                        volume_id,
                    },
                ),
            ),
        }
    }
}

/// What is said of a device that is not there.
pub open spec fn not_found(device_id: u32) -> Seq<char> {
    "device_id '"@ + text::decimal(device_id as nat) + "' not found"@
}

/// What is said of a device to which nothing happens any more.
pub open spec fn in_terminal_state(device_id: u32, state: DeviceState) -> Seq<char> {
    "device_id '"@ + text::decimal(device_id as nat) + "' is in terminal state '"@ + state.name()
        + "'"@
}

/// A device starts to open its volume. Only one that a number has just been set aside for does.
pub open spec fn opening(reg: Registry, device_id: u32) -> (Registry, Result<(), ResponseView>) {
    let request_id = "add-device:"@ + text::decimal(device_id as nat);
    if !reg.devices.contains_key(device_id) {
        (
            reg,
            Err(protocol::failure(request_id, ErrorCode::NotFound, not_found(device_id))),
        )
    } else {
        let d = reg.devices[device_id];
        if d.state is OpeningVolume {
            (reg, Ok(()))
        } else if d.state.terminal() {
            (
                reg,
                Err(
                    protocol::failure(
                        request_id,
                        ErrorCode::Busy,
                        in_terminal_state(device_id, d.state),
                    ),
                ),
            )
        } else if !(d.state is Allocating) {
            (
                reg,
                Err(
                    protocol::failure(
                        request_id,
                        ErrorCode::Busy,
                        "device_id '"@ + text::decimal(device_id as nat)
                            + "' cannot open its volume from state '"@ + d.state.name() + "'"@,
                    ),
                ),
            )
        } else {
            (reg.changed(device_id, DeviceState::OpeningVolume, d.last_error), Ok(()))
        }
    }
}

/// A device serves its volume. Only one that has been opening it does, or does already.
pub open spec fn added(reg: Registry, request_id: Seq<char>, device_id: u32) -> (
    Registry,
    ResponseView,
) {
    if !reg.devices.contains_key(device_id) {
        (
            reg.ticked(),
            protocol::failure(
                request_id,
                ErrorCode::Internal,
                "device_id '"@ + text::decimal(device_id as nat)
                    + "' missing before final add transition"@,
            ),
        )
    } else if !(reg.devices[device_id].state is OpeningVolume
        || reg.devices[device_id].state is Serving) {
        (
            reg,
            protocol::failure(
                request_id,
                ErrorCode::Busy,
                "device_id '"@ + text::decimal(device_id as nat)
                    + "' cannot complete add from state '"@ + reg.devices[device_id].state.name()
                    + "'"@,
            ),
        )
    } else {
        let d = reg.devices[device_id];
        (
            reg.changed(device_id, DeviceState::Serving, None),
            protocol::success(
                request_id,
                ResponseResultView::AddDevice(
                    AddDeviceResultView {
                        device_id: d.device_id,
                        device_path: d.device_path,
                        volume_id: d.volume_id,
                        state: DeviceState::Serving,
                    },
                ),
            ),
        )
    }
}

/// A device could not be added. A terminal one stays as it is.
pub open spec fn add_failed(
    reg: Registry,
    request_id: Seq<char>,
    device_id: u32,
    code: ErrorCode,
    message: Seq<char>,
) -> (Registry, ResponseView) {
    if !reg.devices.contains_key(device_id) {
        (
            reg.ticked(),
            protocol::failure(
                request_id,
                ErrorCode::Internal,
                "device_id '"@ + text::decimal(device_id as nat)
                    + "' missing during add failure cleanup"@,
            ),
        )
    } else if reg.devices[device_id].state.terminal() {
        (
            reg,
            protocol::failure(
                request_id,
                ErrorCode::Busy,
                in_terminal_state(device_id, reg.devices[device_id].state),
            ),
        )
    } else {
        (
            reg.changed(device_id, DeviceState::Failed, Some(message)).released(
                reg.devices[device_id].volume_id,
            ).tidied(),
            protocol::failure(request_id, code, message),
        )
    }
}

/// Whether a device is the one of a volume that changed last.
pub open spec fn is_most_recent(
    devices: Map<u32, DeviceView>,
    volume_id: Seq<char>,
    id: u32,
) -> bool {
    &&& devices.contains_key(id)
    &&& devices[id].volume_id == volume_id
    &&& forall|other: u32| #[trigger]
        devices.contains_key(other) && devices[other].volume_id == volume_id && other != id
            ==> older(devices, other, id)
}

/// The device of a volume that changed last.
pub open spec fn most_recent(devices: Map<u32, DeviceView>, volume_id: Seq<char>) -> Option<u32> {
    if exists|id: u32| is_most_recent(devices, volume_id, id) {
        Some(choose|id: u32| is_most_recent(devices, volume_id, id))
    } else {
        None
    }
}

/// How the removal of a device starts: with an answer, or with a device to be drained.
pub enum RemovePreparationView {
    Immediate(ResponseView),
    Draining { device_id: u32, volume_id: Seq<char>, force: bool },
}

/// A request to remove a device that has been removed is answered as this.
pub open spec fn removed_already(request_id: Seq<char>, d: DeviceView) -> ResponseView {
    protocol::success(
        request_id,
        ResponseResultView::RemoveDevice(
            RemoveDeviceResultView {
                device_id: Some(d.device_id),
                volume_id: Some(d.volume_id),
                state: d.state,
                noop: true,
            },
        ),
    )
}

/// The device that a request to remove one is about, or why there is none. A volume whose device is
/// being drained does not stand in the way of a request that names another device.
pub open spec fn remove_target(reg: Registry, body: RemoveDeviceRequest) -> Result<
    u32,
    (ErrorCode, Seq<char>),
> {
    let by_volume = match protocol::present(body.volume_id) {
        Some(v) => if reg.active.contains_key(v) {
            Some(reg.active[v])
        } else {
            None
        },
        None => None,
    };
    let recent = match protocol::present(body.volume_id) {
        Some(v) => most_recent(reg.devices, v),
        None => None,
    };
    match (body.device_id, by_volume) {
        (Some(id), Some(active_id)) => if id != active_id && !(
        reg.devices[active_id].state is Draining) {
            Err(
                (
                    ErrorCode::InvalidArgument,
                    "device_id and volume_id refer to different active devices"@,
                ),
            )
        } else {
            Ok(id)
        },
        (Some(id), None) => Ok(id),
        (None, Some(active_id)) => Ok(active_id),
        (None, None) => match recent {
            Some(id) => Ok(id),
            None => Err((ErrorCode::NotFound, "requested device was not found"@)),
        },
    }
}

/// A device is to be removed. It keeps its volume until it has been drained.
pub open spec fn draining(reg: Registry, request_id: Seq<char>, body: RemoveDeviceRequest) -> (
    Registry,
    RemovePreparationView,
) {
    match remove_target(reg, body) {
        Err((code, message)) => (
            reg,
            RemovePreparationView::Immediate(protocol::failure(request_id, code, message)),
        ),
        Ok(device_id) => if !reg.devices.contains_key(device_id) {
            (
                reg,
                RemovePreparationView::Immediate(
                    protocol::failure(request_id, ErrorCode::NotFound, not_found(device_id)),
                ),
            )
        } else {
            let d = reg.devices[device_id];
            if d.state is Draining {
                (
                    reg,
                    RemovePreparationView::Immediate(
                        protocol::failure(
                            request_id,
                            ErrorCode::Busy,
                            "device_id '"@ + text::decimal(device_id as nat)
                                + "' is already draining"@,
                        ),
                    ),
                )
            } else if d.state.terminal() {
                (reg, RemovePreparationView::Immediate(removed_already(request_id, d)))
            } else {
                (
                    reg.changed(device_id, DeviceState::Draining, d.last_error),
                    RemovePreparationView::Draining {
                        device_id,
                        volume_id: d.volume_id,
                        force: body.force,
                    },
                )
            }
        },
    }
}

/// A device has been drained, and lets its volume go.
pub open spec fn removed(reg: Registry, request_id: Seq<char>, device_id: u32, forced: bool) -> (
    Registry,
    ResponseView,
) {
    if !reg.devices.contains_key(device_id) {
        (reg, protocol::failure(request_id, ErrorCode::NotFound, not_found(device_id)))
    } else {
        let d = reg.devices[device_id];
        if d.state.terminal() {
            (reg, removed_already(request_id, d))
        } else if !(d.state is Draining) {
            (
                reg,
                protocol::failure(
                    request_id,
                    ErrorCode::Busy,
                    "device_id '"@ + text::decimal(device_id as nat)
                        + "' cannot complete remove from state '"@ + d.state.name() + "'"@,
                ),
            )
        } else {
            let state = if forced {
                DeviceState::ForceDetached
            } else {
                DeviceState::Detached
            };
            (
                reg.changed(device_id, state, d.last_error).released(d.volume_id).tidied(),
                protocol::success(
                    request_id,
                    ResponseResultView::RemoveDevice(
                        RemoveDeviceResultView {
                            device_id: Some(device_id),
                            volume_id: Some(d.volume_id),
                            state,
                            noop: false,
                        },
                    ),
                ),
            )
        }
    }
}

/// Which devices a list is about.
pub enum FilterView {
    /// Those that agree with what is given.
    Matching {
        device_id: Option<u32>,
        volume_id: Option<Seq<char>>,
        state: Option<DeviceState>,
    },
    /// Those that do not work as they should have.
    Degraded,
}

/// Whether a device passes a filter.
pub open spec fn passes(filter: FilterView, d: DeviceView) -> bool {
    match filter {
        FilterView::Matching { device_id, volume_id, state } => {
            &&& device_id is None || device_id == Some(d.device_id)
            &&& volume_id is None || volume_id == Some(d.volume_id)
            &&& state is None || state == Some(d.state)
        },
        FilterView::Degraded => d.state.degraded(),
    }
}

/// Whether `statuses` are the devices that pass `filter`, in the order of their numbers.
pub open spec fn lists_exactly(
    statuses: Seq<DeviceStatusView>,
    devices: Map<u32, DeviceView>,
    filter: FilterView,
) -> bool {
    &&& forall|i: int, j: int|
        #![trigger statuses[i], statuses[j]]
        0 <= i < j < statuses.len() ==> statuses[i].device_id < statuses[j].device_id
    &&& forall|i: int|
        0 <= i < statuses.len() ==> {
            let id = (#[trigger] statuses[i]).device_id;
            &&& devices.contains_key(id)
            &&& passes(filter, devices[id])
            &&& statuses[i] == status_of(devices[id])
        }
    &&& forall|id: u32| #[trigger]
        devices.contains_key(id) && passes(filter, devices[id]) ==> exists|i: int|
            0 <= i < statuses.len() && (#[trigger] statuses[i]).device_id == id
}

/// Whether a response answers a request to list devices.
pub open spec fn is_listing(
    reg: Registry,
    request_id: Seq<char>,
    body: ListDevicesRequest,
    response: ResponseView,
) -> bool {
    match body.state {
        Some(name) => {
            &&& (forall|state: DeviceState| name@ != #[trigger] state.name()) ==> response
                == protocol::failure(
                request_id,
                ErrorCode::InvalidArgument,
                "unknown state filter '"@ + name@ + "'"@,
            )
            &&& forall|state: DeviceState|
                name@ == #[trigger] state.name() ==> listing_of(
                    reg,
                    request_id,
                    FilterView::Matching {
                        device_id: body.device_id,
                        volume_id: device::text_view(body.volume_id),
                        state: Some(state),
                    },
                    response,
                )
        },
        None => listing_of(
            reg,
            request_id,
            FilterView::Matching {
                device_id: body.device_id,
                volume_id: device::text_view(body.volume_id),
                state: None,
            },
            response,
        ),
    }
}

/// Whether a response lists the devices that pass a filter.
pub open spec fn listing_of(
    reg: Registry,
    request_id: Seq<char>,
    filter: FilterView,
    response: ResponseView,
) -> bool {
    response.result matches Some(ResponseResultView::ListDevices(devices)) && response
        == protocol::success(request_id, ResponseResultView::ListDevices(devices)) && lists_exactly(
        devices,
        reg.devices,
        filter,
    )
}

/// Whether a kept outcome has this key.
pub open spec fn has_key(cache: Seq<OutcomeView>, key: Seq<char>, at: int) -> bool {
    0 <= at < cache.len() && cache[at].key == key
}

/// The kept outcome with this key.
pub open spec fn kept(cache: Seq<OutcomeView>, key: Seq<char>) -> Option<OutcomeView> {
    if exists|at: int| #[trigger] has_key(cache, key, at) {
        Some(cache[choose|at: int| #[trigger] has_key(cache, key, at)])
    } else {
        None
    }
}

/// The answer to a mutating operation that is already known, if it is.
pub open spec fn known_answer(
    reg: Registry,
    request_id: Seq<char>,
    key: Seq<char>,
    op: Operation,
    fingerprint: Seq<u8>,
) -> Option<ResponseView> {
    if text::is_blank(key) {
        Some(
            protocol::failure(
                request_id,
                ErrorCode::InvalidArgument,
                "idempotency_key is required for mutating operations"@,
            ),
        )
    } else {
        match kept(reg.cache, key) {
            None => None,
            Some(outcome) => if outcome.op != op || outcome.fingerprint != fingerprint {
                Some(
                    protocol::failure(
                        request_id,
                        ErrorCode::InvalidArgument,
                        "idempotency_key was reused with a different operation or payload"@,
                    ),
                )
            } else {
                Some(
                    ResponseView {
                        version: protocol::PROTOCOL_VERSION@,
                        request_id,
                        ok: outcome.ok,
                        result: outcome.result,
                        error: outcome.error,
                    },
                )
            },
        }
    }
}

/// Kept outcomes without the one with this key.
pub open spec fn without_key(cache: Seq<OutcomeView>, key: Seq<char>) -> Seq<OutcomeView> {
    if exists|at: int| #[trigger] has_key(cache, key, at) {
        cache.remove(choose|at: int| #[trigger] has_key(cache, key, at))
    } else {
        cache
    }
}

/// The registry once the outcome of a mutating operation is kept: as the newest, and in place of
/// one with the same key. The oldest ones go where there are too many.
pub open spec fn remembered(
    reg: Registry,
    key: Seq<char>,
    op: Operation,
    fingerprint: Seq<u8>,
    response: ResponseView,
) -> Registry {
    let all = without_key(reg.cache, key).push(
        OutcomeView {
            key,
            op,
            fingerprint,
            ok: response.ok,
            result: response.result,
            error: response.error,
        },
    );
    Registry {
        cache: if all.len() > reg.idempotency_cache_limit {
            all.skip(all.len() - reg.idempotency_cache_limit)
        } else {
            all
        },
        ..reg
    }
}

/// Whether `result` says how the service is doing.
pub open spec fn is_health(reg: Registry, result: HealthResultView) -> bool {
    &&& lists_exactly(result.degraded_devices, reg.devices, FilterView::Degraded)
    &&& result.status == if result.degraded_devices.len() == 0 {
        "ok"@
    } else {
        "degraded"@
    }
    &&& result.active_devices == live_ids(reg.devices).len()
    &&& result.total_devices == reg.devices.len()
}

/// Whether a response says how the service is doing.
pub open spec fn health_answered(reg: Registry, request_id: Seq<char>, response: ResponseView) -> bool {
    response.result matches Some(ResponseResultView::Health(health)) && response
        == protocol::success(request_id, ResponseResultView::Health(health)) && is_health(
        reg,
        health,
    )
}

/// A device is added at once, where one can be.
pub open spec fn add_at_once(reg: Registry, request_id: Seq<char>, body: AddDeviceRequest) -> (
    Registry,
    ResponseView,
) {
    let (reserved, outcome) = reserve(reg, request_id, body);
    match outcome {
        Ok(reservation) => added(
            opening(reserved, reservation.device_id).0,
            request_id,
            reservation.device_id,
        ),
        Err(response) => (reserved, response),
    }
}

/// A device is removed at once, where there is one to be removed.
pub open spec fn remove_at_once(reg: Registry, request_id: Seq<char>, body: RemoveDeviceRequest) -> (
    Registry,
    ResponseView,
) {
    let (prepared, preparation) = draining(reg, request_id, body);
    match preparation {
        RemovePreparationView::Immediate(response) => (prepared, response),
        RemovePreparationView::Draining { device_id, force, .. } => removed(
            prepared,
            request_id,
            device_id,
            force,
        ),
    }
}

/// The key of a request; that of a request without one is empty.
pub open spec fn key_of(request: ControlRequest) -> Seq<char> {
    match request.idempotency_key {
        Some(key) => key@,
        None => Seq::empty(),
    }
}

/// The registry after a mutating request, and the answer: a known one, or the one that `done`
/// gives, which is then kept.
pub open spec fn mutated(
    reg: Registry,
    request: ControlRequest,
    done: (Registry, ResponseView),
) -> (Registry, ResponseView) {
    let request_id = request.request_id@;
    let key = key_of(request);
    let op = request.body.operation();
    let fingerprint = fingerprint::fingerprint(request.body);
    match known_answer(reg, request_id, key, op, fingerprint) {
        Some(response) => (reg, response),
        None => (remembered(done.0, key, op, fingerprint, done.1), done.1),
    }
}

/// Whether a request took a registry from `before` to `after` with this response.
pub open spec fn handled(
    before: Registry,
    request: ControlRequest,
    after: Registry,
    response: ResponseView,
) -> bool {
    let request_id = request.request_id@;
    match request.body {
        RequestBody::AddDevice(body) => (after, response) == mutated(
            before,
            request,
            add_at_once(before, request_id, body),
        ),
        RequestBody::RemoveDevice(body) => (after, response) == mutated(
            before,
            request,
            remove_at_once(before, request_id, body),
        ),
        RequestBody::ListDevices(body) => after == before && is_listing(
            before,
            request_id,
            body,
            response,
        ),
        RequestBody::Health(_) => after == before && health_answered(before, request_id, response),
    }
}

/// Every device is either terminal or live.
pub proof fn lemma_terminal_finite(devices: Map<u32, DeviceView>)
    requires
        devices.dom().finite(),
    ensures
        terminal_ids(devices).finite(),
        live_ids(devices).finite(),
        terminal_ids(devices).len() + live_ids(devices).len() == devices.len(),
{
    let t = terminal_ids(devices);
    let l = live_ids(devices);
    vstd::set_lib::lemma_len_subset(t, devices.dom());
    vstd::set_lib::lemma_len_subset(l, devices.dom());
    assert(t.disjoint(l));
    assert(t + l =~= devices.dom());
    vstd::set_lib::lemma_set_disjoint_lens(t, l);
}

/// Where there are terminal devices, one of them is the oldest.
pub proof fn lemma_oldest_exists(devices: Map<u32, DeviceView>)
    requires
        devices.dom().finite(),
        terminal_ids(devices).len() > 0,
    ensures
        exists|id: u32| is_oldest_terminal(devices, id),
    decreases terminal_ids(devices).len(),
{
    lemma_terminal_finite(devices);
    let t = terminal_ids(devices);
    let x = t.choose();
    let rest = devices.remove(x);
    assert(t.contains(x));
    assert(terminal_ids(rest) =~= t.remove(x));
    if terminal_ids(rest).len() == 0 {
        assert forall|other: u32| #[trigger]
            devices.contains_key(other) && devices[other].state.terminal() && other != x implies older(
            devices,
            x,
            other,
        ) by {
            assert(terminal_ids(rest).contains(other));
        }
        assert(is_oldest_terminal(devices, x));
    } else {
        lemma_oldest_exists(rest);
        let y = choose|y: u32| is_oldest_terminal(rest, y);
        let winner = if older(devices, x, y) {
            x
        } else {
            y
        };
        assert forall|other: u32| #[trigger]
            devices.contains_key(other) && devices[other].state.terminal() && other
                != winner implies older(devices, winner, other) by {
            if other != x && other != y {
                assert(rest.contains_key(other));
                assert(older(rest, y, other));
            }
        }
        assert(is_oldest_terminal(devices, winner));
    }
}

/// At most one device is the oldest terminal one.
pub proof fn lemma_oldest_unique(devices: Map<u32, DeviceView>, a: u32, b: u32)
    requires
        is_oldest_terminal(devices, a),
        is_oldest_terminal(devices, b),
    ensures
        a == b,
{
    if a != b {
        assert(older(devices, a, b));
        assert(older(devices, b, a));
    }
}

/// Forgetting the oldest terminal device is one step of forgetting those that are too many.
pub proof fn lemma_pruned_step(devices: Map<u32, DeviceView>, limit: usize, id: u32)
    requires
        devices.dom().finite(),
        is_oldest_terminal(devices, id),
        terminal_ids(devices).len() > limit,
    ensures
        pruned(devices, limit) == pruned(devices.remove(id), limit),
        terminal_ids(devices.remove(id)).len() == terminal_ids(devices).len() - 1,
{
    lemma_terminal_finite(devices);
    let chosen = choose|c: u32| is_oldest_terminal(devices, c);
    lemma_oldest_unique(devices, id, chosen);
    assert(terminal_ids(devices).contains(id));
    assert(terminal_ids(devices.remove(id)) =~= terminal_ids(devices).remove(id));
}

/// Forgetting old terminal devices leaves every other device as it is, and of the terminal ones no
/// more than the limit.
pub proof fn lemma_pruned(devices: Map<u32, DeviceView>, limit: usize)
    requires
        devices.dom().finite(),
    ensures
        pruned(devices, limit).dom().finite(),
        terminal_ids(pruned(devices, limit)).len() <= limit,
        live_ids(pruned(devices, limit)) == live_ids(devices),
        forall|id: u32| #[trigger]
            pruned(devices, limit).contains_key(id) ==> devices.contains_key(id) && pruned(
                devices,
                limit,
            )[id] == devices[id],
        forall|id: u32| #[trigger]
            devices.contains_key(id) && !devices[id].state.terminal() ==> pruned(
                devices,
                limit,
            ).contains_key(id),
    decreases terminal_ids(devices).len(),
{
    if terminal_ids(devices).len() > limit {
        lemma_oldest_exists(devices);
        let id = choose|c: u32| is_oldest_terminal(devices, c);
        lemma_pruned_step(devices, limit, id);
        let rest = devices.remove(id);
        lemma_pruned(rest, limit);
        let p = pruned(devices, limit);
        assert(live_ids(rest) =~= live_ids(devices));
        assert forall|other: u32| #[trigger]
            devices.contains_key(other) && !devices[other].state.terminal() implies p.contains_key(
            other,
        ) by {
            assert(rest.contains_key(other));
        }
        assert forall|other: u32| #[trigger] p.contains_key(other) implies devices.contains_key(
            other,
        ) && p[other] == devices[other] by {
            assert(rest.contains_key(other));
        }
    }
}

impl Registry {
    /// Once old terminal devices are forgotten, a consistent registry is in order.
    pub proof fn lemma_tidied(self)
        requires
            self.consistent(),
        ensures
            self.tidied().wf(),
    {
        lemma_pruned(self.devices, self.terminal_history_limit);
        let p = self.tidied();
        assert forall|v: Seq<char>| #[trigger] p.active.contains_key(v) implies is_live(
            p.devices,
            p.active[v],
        ) && p.devices[p.active[v]].volume_id == v by {
            assert(self.active.contains_key(v));
            assert(self.devices.contains_key(self.active[v]));
        }
        assert forall|id: u32| #[trigger] is_live(p.devices, id) implies p.active.contains_key(
            p.devices[id].volume_id,
        ) && p.active[p.devices[id].volume_id] == id by {
            assert(p.devices.contains_key(id));
            assert(is_live(self.devices, id));
        }
    }

    /// A change of a live device keeps a registry consistent, where the device goes on to live or
    /// its volume is let go.
    pub proof fn lemma_changed(
        self,
        device_id: u32,
        state: DeviceState,
        last_error: Option<Seq<char>>,
    )
        requires
            self.consistent(),
            is_live(self.devices, device_id),
        ensures
            !state.terminal() ==> self.changed(device_id, state, last_error).consistent(),
            state.terminal() ==> self.changed(device_id, state, last_error).released(
                self.devices[device_id].volume_id,
            ).consistent(),
            !state.terminal() ==> terminal_ids(
                self.changed(device_id, state, last_error).devices,
            ).len() <= terminal_ids(self.devices).len(),
    {
        let c = self.changed(device_id, state, last_error);
        let volume_id = self.devices[device_id].volume_id;
        let r = c.released(volume_id);
        lemma_terminal_finite(self.devices);
        vstd::set_lib::lemma_len_subset(live_ids(c.devices), live_ids(self.devices));
        if state.terminal() {
            assert forall|v: Seq<char>| #[trigger] r.active.contains_key(v) implies is_live(
                r.devices,
                r.active[v],
            ) && r.devices[r.active[v]].volume_id == v by {
                assert(self.active.contains_key(v));
            }
            assert forall|id: u32| #[trigger] is_live(r.devices, id) implies r.active.contains_key(
                r.devices[id].volume_id,
            ) && r.active[r.devices[id].volume_id] == id by {
                assert(is_live(self.devices, id));
            }
        } else {
            assert forall|v: Seq<char>| #[trigger] c.active.contains_key(v) implies is_live(
                c.devices,
                c.active[v],
            ) && c.devices[c.active[v]].volume_id == v by {
                assert(self.active.contains_key(v));
            }
            assert forall|id: u32| #[trigger] is_live(c.devices, id) implies c.active.contains_key(
                c.devices[id].volume_id,
            ) && c.active[c.devices[id].volume_id] == id by {
                assert(is_live(self.devices, id));
            }
            vstd::set_lib::lemma_len_subset(terminal_ids(c.devices), terminal_ids(self.devices));
        }
    }

    /// A sequence number that is taken for nothing keeps a registry in order.
    pub proof fn lemma_ticked(self)
        requires
            self.wf(),
        ensures
            self.ticked().wf(),
    {
        let t = self.ticked();
        assert forall|v: Seq<char>| #[trigger] t.active.contains_key(v) implies is_live(
            t.devices,
            t.active[v],
        ) && t.devices[t.active[v]].volume_id == v by {
            assert(self.active.contains_key(v));
        }
        assert forall|id: u32| #[trigger] t.devices.contains_key(id) implies t.devices[id].updated_seq
            <= t.next_sequence by {
            assert(self.devices.contains_key(id));
        }
        assert forall|id: u32| #[trigger] is_live(t.devices, id) implies t.active.contains_key(
            t.devices[id].volume_id,
        ) && t.active[t.devices[id].volume_id] == id by {
            assert(is_live(self.devices, id));
        }
    }

    /// A volume can be found under its name exactly as long as a live device has it.
    pub proof fn lemma_taken(self, volume_id: Seq<char>)
        requires
            self.consistent(),
        ensures
            self.active.contains_key(volume_id) <==> is_taken(self.devices, volume_id),
    {
        if self.active.contains_key(volume_id) {
            assert(is_live(self.devices, self.active[volume_id]));
        }
    }
}

/// Setting a device number aside keeps a registry in order.
pub proof fn lemma_reserved(reg: Registry, request_id: Seq<char>, body: AddDeviceRequest)
    requires
        reg.wf(),
        chosen_id(reg, body.ublk_device_id) matches Ok((id, _)) ==> !is_live(reg.devices, id),
    ensures
        reserve(reg, request_id, body).0.wf(),
{
    let after = reserve(reg, request_id, body).0;
    match reserve(reg, request_id, body).1 {
        Ok(reservation) => {
            let id = reservation.device_id;
            assert forall|v: Seq<char>| #[trigger] after.active.contains_key(v) implies is_live(
                after.devices,
                after.active[v],
            ) && after.devices[after.active[v]].volume_id == v by {
                if v != reservation.volume_id {
                    assert(reg.active.contains_key(v));
                }
            }
            assert forall|other: u32| #[trigger]
                is_live(after.devices, other) implies after.active.contains_key(
                after.devices[other].volume_id,
            ) && after.active[after.devices[other].volume_id] == other by {
                if other != id {
                    assert(is_live(reg.devices, other));
                }
            }
            lemma_terminal_finite(reg.devices);
            vstd::set_lib::lemma_len_subset(
                terminal_ids(after.devices),
                terminal_ids(reg.devices),
            );
            assert(live_ids(after.devices) =~= live_ids(reg.devices).insert(id));
        },
        Err(_) => {},
    }
}

/// A number that was found to be free is.
pub proof fn lemma_first_free(devices: Map<u32, DeviceView>, candidate: u32, tries: nat)
    ensures
        first_free(devices, candidate, tries) matches Some(id) ==> !is_live(
            devices,
            id,
        ),
    decreases tries,
{
    if tries > 0 && is_live(devices, candidate) {
        lemma_first_free(devices, wrapped_next(candidate), (tries - 1) as nat);
    }
}

/// At most one device of a volume is the one that changed last.
pub proof fn lemma_most_recent_unique(
    devices: Map<u32, DeviceView>,
    volume_id: Seq<char>,
    id: u32,
)
    requires
        is_most_recent(devices, volume_id, id),
    ensures
        most_recent(devices, volume_id) == Some(id),
{
    let found = choose|found: u32| is_most_recent(devices, volume_id, found);
    if found != id {
        assert(older(devices, id, found));
        assert(older(devices, found, id));
    }
}

/// Where an outcome stood before another was kept, that stands at `i` now: the outcome at `gone` made
/// way for the new one, and the oldest `dropped` were forgotten.
pub open spec fn stood_at(gone: int, dropped: int, i: int) -> int {
    if i + dropped < gone {
        i + dropped
    } else {
        i + dropped + 1
    }
}

/// Keeping an outcome puts it last. What stands before it has other keys and stood in the same order
/// before; of the rest, only the one with the same key and the oldest one too many are missing.
pub proof fn lemma_remembered(
    reg: Registry,
    key: Seq<char>,
    op: Operation,
    print: Seq<u8>,
    response: ResponseView,
) -> (places: (int, int))
    requires
        reg.cache_in_order(),
    ensures
        remembered(reg, key, op, print, response).cache_in_order(),
        ({
            let (gone, dropped) = places;
            let before = reg.cache;
            let after = remembered(reg, key, op, print, response).cache;
            &&& after.len() > 0
            &&& after.last() == (OutcomeView {
                key,
                op,
                fingerprint: print,
                ok: response.ok,
                result: response.result,
                error: response.error,
            })
            &&& 0 <= gone <= before.len()
            &&& gone < before.len() ==> before[gone].key == key
            &&& gone == before.len() ==> forall|k: int|
                0 <= k < before.len() ==> (#[trigger] before[k]).key != key
            &&& dropped == if gone == before.len() && before.len() == reg.idempotency_cache_limit {
                1int
            } else {
                0
            }
            &&& after.len() + dropped == before.len() + if gone < before.len() {
                0int
            } else {
                1
            }
            &&& forall|i: int|
                0 <= i < after.len() - 1 ==> (#[trigger] after[i]) == before[stood_at(
                    gone,
                    dropped,
                    i,
                )] && after[i].key != key
        }),
{
    let fewer = without_key(reg.cache, key);
    let new = OutcomeView {
        key,
        op,
        fingerprint: print,
        ok: response.ok,
        result: response.result,
        error: response.error,
    };
    let all = fewer.push(new);
    let after = remembered(reg, key, op, print, response).cache;
    let gone = if exists|g: int| #[trigger] has_key(reg.cache, key, g) {
        choose|g: int| #[trigger] has_key(reg.cache, key, g)
    } else {
        reg.cache.len() as int
    };
    let dropped = all.len() - after.len();
    assert forall|k: int| gone == reg.cache.len() && 0 <= k < reg.cache.len() implies (
    #[trigger] reg.cache[k]).key != key by {
        assert(!has_key(reg.cache, key, k));
    }
    assert forall|i: int| 0 <= i < after.len() - 1 implies (#[trigger] after[i])
        == reg.cache[stood_at(gone, dropped, i)] && after[i].key != key by {
        let k = stood_at(gone, dropped, i);
        assert(after[i] == all[i + dropped]);
        assert(all[i + dropped] == fewer[i + dropped]);
        assert(fewer[i + dropped] == reg.cache[k]);
        if gone < reg.cache.len() {
            assert(reg.cache[gone].key != reg.cache[k].key);
        }
    }
    assert forall|i: int, j: int|
        #![trigger after[i], after[j]]
        0 <= i < j < after.len() implies after[i].key != after[j].key by {
        if j < after.len() - 1 {
            assert(reg.cache[stood_at(gone, dropped, i)].key != reg.cache[stood_at(
                gone,
                dropped,
                j,
            )].key);
        }
    }
    (gone, dropped)
}

/// What has a key at one place of the cache is what is kept under it.
pub proof fn lemma_kept_at(reg: Registry, key: Seq<char>, at: int)
    requires
        reg.cache_in_order(),
        has_key(reg.cache, key, at),
    ensures
        kept(reg.cache, key) == Some(reg.cache[at]),
{
    let found = choose|f: int| #[trigger] has_key(reg.cache, key, f);
    assert(found == at);
}

} // verus!
