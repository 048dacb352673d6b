//! The devices of the service, and the operations on them.
use crate::control::protocol::{
    AddDeviceRequest, ControlRequest, ErrorBody, ErrorCode, ListDevicesRequest, Operation,
    RemoveDeviceRequest, RequestBody, ResponseEnvelope, ResponseResult, ResponseResultView,
    ResponseView,
};
use crate::control::protocol;
use crate::ordered;
use crate::text;
use crate::ublk::index::VolumeIndex;
use crate::ublk::registry::{
    DeviceView, FilterView, OutcomeView, Registry, RemovePreparationView, ReservationView,
};
use crate::ublk::registry;
use crate::ublk::device;
use std::collections::BTreeMap;
use vstd::prelude::*;

pub use crate::ublk::device::{
    AddDeviceResult, DeviceState, DeviceStatus, HealthResult, ListDevicesResult,
    RemoveDeviceResult,
};

verus! {

broadcast use vstd::laws_cmp::group_laws_cmp;

/// A number that is set aside for a device, and its volume.
#[derive(Debug)]
pub struct AddDeviceReservation {
    pub device_id: u32,
    pub device_path: String,
    pub volume_id: String,
}

impl Clone for AddDeviceReservation {
    fn clone(&self) -> (r: Self)
        ensures
            r == *self,
    {
        AddDeviceReservation {
            device_id: self.device_id,
            device_path: self.device_path.clone(),
            volume_id: self.volume_id.clone(),
        }
    }
}

impl View for AddDeviceReservation {
    type V = ReservationView;

    open spec fn view(&self) -> ReservationView {
        ReservationView {
            device_id: self.device_id,
            device_path: self.device_path@,
            volume_id: self.volume_id@,
        }
    }
}

/// How the removal of a device starts: with an answer, or with a device to be drained.
#[derive(Debug)]
pub enum RemovePreparation {
    Immediate(ResponseEnvelope),
    Draining { device_id: u32, volume_id: String, force: bool },
}

impl Clone for RemovePreparation {
    fn clone(&self) -> (r: Self)
        ensures
            r@ == self@,
    {
        match self {
            RemovePreparation::Immediate(response) => RemovePreparation::Immediate(
                response.clone(),
            ),
            RemovePreparation::Draining { device_id, volume_id, force } =>
                RemovePreparation::Draining {
                device_id: *device_id,
                volume_id: volume_id.clone(),
                force: *force,
            },
        }
    }
}

impl View for RemovePreparation {
    type V = RemovePreparationView;

    open spec fn view(&self) -> RemovePreparationView {
        match self {
            RemovePreparation::Immediate(response) => RemovePreparationView::Immediate(response@),
            RemovePreparation::Draining { device_id, volume_id, force } =>
                RemovePreparationView::Draining {
                device_id: *device_id,
                volume_id: volume_id@,
                force: *force,
            },
        }
    }
}

#[derive(Debug)]
struct DeviceRecord {
    device_id: u32,
    volume_id: String,
    device_path: String,
    state: DeviceState,
    last_error: Option<String>,
    updated_seq: u64,
}

impl View for DeviceRecord {
    type V = DeviceView;

    closed spec fn view(&self) -> DeviceView {
        DeviceView {
            device_id: self.device_id,
            volume_id: self.volume_id@,
            device_path: self.device_path@,
            state: self.state,
            last_error: device::text_view(self.last_error),
            updated_seq: self.updated_seq,
        }
    }
}

impl DeviceRecord {
    fn status(&self) -> (r: DeviceStatus)
        ensures
            r@ == registry::status_of(self@),
    {
        DeviceStatus {
            device_id: self.device_id,
            device_path: self.device_path.clone(),
            volume_id: self.volume_id.clone(),
            state: self.state,
            last_error: device::copy_text(&self.last_error),
        }
    }
}

#[derive(Debug)]
struct CachedIdempotentOutcome {
    key: String,
    op: Operation,
    fingerprint: Vec<u8>,
    ok: bool,
    result: Option<ResponseResult>,
    error: Option<ErrorBody>,
}

impl View for CachedIdempotentOutcome {
    type V = OutcomeView;

    closed spec fn view(&self) -> OutcomeView {
        OutcomeView {
            key: self.key@,
            op: self.op,
            fingerprint: self.fingerprint@,
            ok: self.ok,
            result: protocol::result_view(self.result),
            error: protocol::error_view(self.error),
        }
    }
}

impl CachedIdempotentOutcome {
    fn from_response(
        key: String,
        op: Operation,
        fingerprint: Vec<u8>,
        response: &ResponseEnvelope,
    ) -> (r: Self)
        ensures
            r@ == (OutcomeView {
                key: key@,
                op,
                fingerprint: fingerprint@,
                ok: response@.ok,
                result: response@.result,
                error: response@.error,
            }),
    {
        CachedIdempotentOutcome {
            key,
            op,
            fingerprint,
            ok: response.ok,
            result: protocol::copy_result(&response.result),
            error: protocol::copy_error(&response.error),
        }
    }

    fn to_response(&self, request_id: String) -> (r: ResponseEnvelope)
        ensures
            r@ == (ResponseView {
                version: protocol::PROTOCOL_VERSION@,
                request_id: request_id@,
                ok: self@.ok,
                result: self@.result,
                error: self@.error,
            }),
    {
        ResponseEnvelope {
            version: protocol::PROTOCOL_VERSION.to_owned(),
            request_id,
            ok: self.ok,
            result: protocol::copy_result(&self.result),
            error: protocol::copy_error(&self.error),
        }
    }
}

enum DeviceFilter {
    Matching { device_id: Option<u32>, volume_id: Option<String>, state: Option<DeviceState> },
    Degraded,
}

impl View for DeviceFilter {
    type V = FilterView;

    closed spec fn view(&self) -> FilterView {
        match self {
            DeviceFilter::Matching { device_id, volume_id, state } => FilterView::Matching {
                device_id: *device_id,
                volume_id: device::text_view(*volume_id),
                state: *state,
            },
            DeviceFilter::Degraded => FilterView::Degraded,
        }
    }
}

impl DeviceFilter {
    fn passes(&self, record: &DeviceRecord) -> (r: bool)
        ensures
            r == registry::passes(self@, record@),
    {
        match self {
            DeviceFilter::Degraded => record.state.is_degraded(),
            DeviceFilter::Matching { device_id, volume_id, state } => {
                let id_passes: bool = match device_id {
                    Some(id) => *id == record.device_id,
                    None => true,
                };
                let volume_passes: bool = match volume_id {
                    Some(v) => *v == record.volume_id,
                    None => true,
                };
                let state_passes: bool = match state {
                    Some(state) => *state == record.state,
                    None => true,
                };
                id_passes && volume_passes && state_passes
            },
        }
    }
}

/// The devices of the service.
#[derive(Debug)]
pub struct ControlManager {
    max_devices: usize,
    terminal_history_limit: usize,
    idempotency_cache_limit: usize,
    next_device_id: u32,
    next_sequence: u64,
    devices: BTreeMap<u32, DeviceRecord>,
    active_volume_to_device: VolumeIndex,
    idempotency_cache: Vec<CachedIdempotentOutcome>,
}

spec fn records_view(devices: Map<u32, DeviceRecord>) -> Map<u32, DeviceView> {
    devices.map_values(|r: DeviceRecord| r@)
}

spec fn outcomes_view(outcomes: Seq<CachedIdempotentOutcome>) -> Seq<OutcomeView> {
    Seq::new(outcomes.len(), |i: int| outcomes[i]@)
}

impl View for ControlManager {
    type V = Registry;

    closed spec fn view(&self) -> Registry {
        Registry {
            max_devices: self.max_devices,
            terminal_history_limit: self.terminal_history_limit,
            idempotency_cache_limit: self.idempotency_cache_limit,
            next_device_id: self.next_device_id,
            next_sequence: self.next_sequence,
            devices: records_view(self.devices@),
            active: self.active_volume_to_device@,
            cache: outcomes_view(self.idempotency_cache@),
        }
    }
}

/// The larger of two numbers.
pub open spec fn larger(a: usize, b: usize) -> usize {
    if a < b {
        b
    } else {
        a
    }
}

fn max(a: usize, b: usize) -> (r: usize)
    ensures
        r == larger(a, b),
{
    if a < b {
        b
    } else {
        a
    }
}

fn byte_slices_equal(a: &Vec<u8>, b: &[u8]) -> (r: bool)
    ensures
        r == (a@ == b@),
{
    if a.len() != b.len() {
        return false;
    }
    let mut i: usize = 0;
    while i < a.len()
        invariant
            i <= a@.len(),
            a@.len() == b@.len(),
            forall|j: int| 0 <= j < i ==> a@[j] == b@[j],
        decreases a@.len() - i,
    {
        if a[i] != b[i] {
            return false;
        }
        i = i + 1;
    }
    assert(a@ =~= b@);
    true
}

fn in_terminal_state(device_id: u32, state: DeviceState) -> (r: String)
    ensures
        r@ == registry::in_terminal_state(device_id, state),
{
    text::cat5(
        "device_id '",
        text::decimal_u64(device_id as u64).as_str(),
        "' is in terminal state '",
        device::state_name(state).as_str(),
        "'",
    )
}

fn quoted_device(prefix: &str, device_id: u32, suffix: &str) -> (r: String)
    ensures
        r@ == prefix@ + text::decimal(device_id as nat) + suffix@,
{
    text::cat3(prefix, text::decimal_u64(device_id as u64).as_str(), suffix)
}

impl ControlManager {
    /// The index of attached volumes is in order.
    pub closed spec fn index_wf(&self) -> bool {
        self.active_volume_to_device.wf()
    }

    /// The manager's invariant.
    pub open spec fn wf(&self) -> bool {
        self.index_wf() && self@.wf()
    }

    /// A service without devices. At least one device may be live, at least one terminal device is
    /// kept in memory, and at least sixteen outcomes are.
    pub fn new(
        max_devices: usize,
        terminal_history_limit: usize,
        idempotency_cache_limit: usize,
    ) -> (r: Self)
        ensures
            r.wf(),
            r@ == (Registry {
                max_devices: larger(max_devices, 1),
                terminal_history_limit: larger(terminal_history_limit, 1),
                idempotency_cache_limit: larger(idempotency_cache_limit, 16),
                next_device_id: 0,
                next_sequence: 0,
                devices: Map::empty(),
                active: Map::empty(),
                cache: Seq::empty(),
            }),
    {
        let r = ControlManager {
            max_devices: max(max_devices, 1),
            terminal_history_limit: max(terminal_history_limit, 1),
            idempotency_cache_limit: max(idempotency_cache_limit, 16),
            next_device_id: 0,
            next_sequence: 0,
            devices: BTreeMap::new(),
            active_volume_to_device: VolumeIndex::new(),
            idempotency_cache: Vec::new(),
        };
        assert(r@.devices =~= Map::<u32, DeviceView>::empty());
        assert(r@.cache =~= Seq::<OutcomeView>::empty());
        assert(registry::terminal_ids(r@.devices) =~= Set::<u32>::empty());
        assert(registry::live_ids(r@.devices) =~= Set::<u32>::empty());
        r
    }

    fn next_sequence(&mut self) -> (seq: u64)
        ensures
            final(self)@ == old(self)@.ticked(),
            seq == old(self)@.next(),
            final(self).active_volume_to_device == old(self).active_volume_to_device,
    {
        self.next_sequence = self.next_sequence.saturating_add(1);
        self.next_sequence
    }

    /// Gives a device a new state under a new sequence number.
    fn change(&mut self, device_id: u32, state: DeviceState, last_error: Option<String>)
        requires
            old(self)@.devices.contains_key(device_id),
        ensures
            final(self)@ == old(self)@.changed(device_id, state, device::text_view(last_error)),
            final(self).active_volume_to_device == old(self).active_volume_to_device,
    {
        let ghost before = self@;
        let updated_seq: u64 = self.next_sequence();
        match self.devices.remove(&device_id) {
            Some(record) => {
                let changed = DeviceRecord {
                    device_id: record.device_id,
                    volume_id: record.volume_id,
                    device_path: record.device_path,
                    state,
                    last_error,
                    updated_seq,
                };
                self.devices.insert(device_id, changed);
                assert(self@.devices =~= before.devices.insert(device_id, changed@));
                assert(self@ =~= before.changed(device_id, state, device::text_view(last_error)));
            },
            None => {
                assert(false);
            },
        }
    }

    fn state_of(&self, device_id: u32) -> (r: Option<DeviceState>)
        ensures
            match r {
                Some(state) => self@.devices.contains_key(device_id)
                    && self@.devices[device_id].state == state,
                None => !self@.devices.contains_key(device_id),
            },
    {
        match self.devices.get(&device_id) {
            Some(record) => Some(record.state),
            None => None,
        }
    }

    fn volume_of(&self, device_id: u32) -> (r: String)
        requires
            self@.devices.contains_key(device_id),
        ensures
            r@ == self@.devices[device_id].volume_id,
    {
        match self.devices.get(&device_id) {
            Some(record) => record.volume_id.clone(),
            None => {
                assert(false);
                String::new()
            },
        }
    }

    fn last_error_of(&self, device_id: u32) -> (r: Option<String>)
        requires
            self@.devices.contains_key(device_id),
        ensures
            device::text_view(r) == self@.devices[device_id].last_error,
    {
        match self.devices.get(&device_id) {
            Some(record) => device::copy_text(&record.last_error),
            None => {
                assert(false);
                None
            },
        }
    }

    /// Counts the devices that are terminal, or those that are not.
    fn count(&self, terminal: bool) -> (n: usize)
        ensures
            n == if terminal {
                registry::terminal_ids(self@.devices).len()
            } else {
                registry::live_ids(self@.devices).len()
            },
    {
        let keys: Vec<u32> = ordered::all_keys(&self.devices);
        let mut n: usize = 0;
        let mut i: usize = 0;
        let ghost mut picked = Set::<u32>::empty();
        while i < keys.len()
            invariant
                i <= keys@.len(),
                n <= i,
                ordered::are_all_keys(keys@, self.devices@),
                picked.finite(),
                n == picked.len(),
                forall|id: u32| #[trigger]
                    picked.contains(id) <==> exists|j: int|
                        0 <= j < i && #[trigger] keys@[j] == id && self@.devices[id].state.terminal()
                            == terminal,
            decreases keys@.len() - i,
        {
            let id: u32 = keys[i];
            match self.devices.get(&id) {
                Some(record) => {
                    if record.state.is_terminal() == terminal {
                        assert(!picked.contains(id));
                        n = n + 1;
                        proof {
                            picked = picked.insert(id);
                        }
                    }
                },
                None => {
                    assert(false);
                },
            }
            i = i + 1;
        }
        proof {
            let wanted = if terminal {
                registry::terminal_ids(self@.devices)
            } else {
                registry::live_ids(self@.devices)
            };
            assert forall|id: u32| #[trigger] wanted.contains(id) implies picked.contains(id) by {
                assert(self.devices@.contains_key(id));
                let j = choose|j: int| 0 <= j < keys@.len() && keys@[j] == id;
                assert(keys@[j] == id);
            }
            assert(picked =~= wanted);
        }
        n
    }

    fn device_active(&self, device_id: u32) -> (r: bool)
        ensures
            r == registry::is_live(self@.devices, device_id),
    {
        match self.state_of(device_id) {
            Some(state) => !state.is_terminal(),
            None => false,
        }
    }

    /// Takes the next number that no live device has.
    fn allocate_device_id(&mut self) -> (r: Option<u32>)
        ensures
            r == registry::first_free(old(self)@.devices, old(self)@.next_device_id, 0x1_0000_0000),
            final(self)@ == (Registry {
                next_device_id: match r {
                    Some(id) => registry::wrapped_next(id),
                    None => old(self)@.next_device_id,
                },
                ..old(self)@
            }),
            final(self).active_volume_to_device == old(self).active_volume_to_device,
    {
        let start: u32 = self.next_device_id;
        let mut tried: u64 = 0;
        loop
            invariant
                self@ == (Registry { next_device_id: self.next_device_id, ..old(self)@ }),
                self.active_volume_to_device == old(self).active_volume_to_device,
                start == old(self)@.next_device_id,
                tried < 0x1_0000_0000,
                self.next_device_id == (start + tried) % 0x1_0000_0000,
                registry::first_free(
                    old(self)@.devices,
                    self.next_device_id,
                    (0x1_0000_0000 - tried) as nat,
                ) == registry::first_free(old(self)@.devices, start, 0x1_0000_0000),
            decreases 0x1_0000_0000 - tried,
        {
            let candidate: u32 = self.next_device_id;
            self.next_device_id = if candidate == u32::MAX {
                0
            } else {
                candidate + 1
            };
            if !self.device_active(candidate) {
                return Some(candidate);
            }
            if self.next_device_id == start {
                assert(tried == 0xffff_ffff);
                assert(registry::first_free(old(self)@.devices, start, 0) is None);
                return None;
            }
            tried = tried + 1;
        }
    }

    fn find_recent_device_by_volume(&self, volume_id: &String) -> (r: Option<u32>)
        ensures
            r == registry::most_recent(self@.devices, volume_id@),
    {
        let keys: Vec<u32> = ordered::all_keys(&self.devices);
        let mut best: Option<(u32, u64)> = None;
        let mut i: usize = 0;
        while i < keys.len()
            invariant
                i <= keys@.len(),
                ordered::are_all_keys(keys@, self.devices@),
                match best {
                    Some((id, seq)) => {
                        &&& self@.devices.contains_key(id)
                        &&& self@.devices[id].volume_id == volume_id@
                        &&& self@.devices[id].updated_seq == seq
                        &&& i < keys@.len() ==> id < keys@[i as int]
                        &&& forall|j: int|
                            0 <= j < i && self@.devices[#[trigger] keys@[j]].volume_id
                                == volume_id@ && keys@[j] != id ==> registry::older(
                                self@.devices,
                                keys@[j],
                                id,
                            )
                    },
                    None => forall|j: int|
                        0 <= j < i ==> self@.devices[#[trigger] keys@[j]].volume_id != volume_id@,
                },
            decreases keys@.len() - i,
        {
            let id: u32 = keys[i];
            match self.devices.get(&id) {
                Some(record) => {
                    if record.volume_id == *volume_id {
                        let newer: bool = match best {
                            Some((_, seq)) => record.updated_seq >= seq,
                            None => true,
                        };
                        if newer {
                            best = Some((id, record.updated_seq));
                        }
                    }
                },
                None => {
                    assert(false);
                },
            }
            i = i + 1;
        }
        proof {
            match best {
                Some((id, _)) => {
                    assert forall|other: u32| #[trigger]
                        self@.devices.contains_key(other) && self@.devices[other].volume_id
                            == volume_id@ && other != id implies registry::older(
                        self@.devices,
                        other,
                        id,
                    ) by {
                        assert(self.devices@.contains_key(other));
                        let j = choose|j: int| 0 <= j < keys@.len() && keys@[j] == other;
                        assert(keys@[j] == other);
                    }
                    assert(registry::is_most_recent(self@.devices, volume_id@, id));
                    registry::lemma_most_recent_unique(self@.devices, volume_id@, id);
                },
                None => {
                    assert forall|id: u32| !registry::is_most_recent(
                        self@.devices,
                        volume_id@,
                        id,
                    ) by {
                        if self@.devices.contains_key(id) {
                            assert(self.devices@.contains_key(id));
                            let j = choose|j: int| 0 <= j < keys@.len() && keys@[j] == id;
                            assert(keys@[j] == id);
                        }
                    }
                },
            }
        }
        match best {
            Some((id, _)) => Some(id),
            None => None,
        }
    }

    fn prune_terminal_history(&mut self)
        requires
            old(self)@.devices.dom().finite(),
        ensures
            final(self)@ == old(self)@.tidied(),
            final(self).active_volume_to_device == old(self).active_volume_to_device,
    {
        let mut terminal_count: usize = self.count(true);
        while terminal_count > self.terminal_history_limit
            invariant
                self@.devices.dom().finite(),
                terminal_count == registry::terminal_ids(self@.devices).len(),
                self.terminal_history_limit == old(self)@.terminal_history_limit,
                self.active_volume_to_device == old(self).active_volume_to_device,
                self@ == (Registry { devices: self@.devices, ..old(self)@ }),
                registry::pruned(self@.devices, self.terminal_history_limit) == registry::pruned(
                    old(self)@.devices,
                    self.terminal_history_limit,
                ),
            decreases terminal_count,
        {
            let id: u32 = self.oldest_terminal();
            let ghost before = self@.devices;
            proof {
                registry::lemma_pruned_step(before, self.terminal_history_limit, id);
            }
            self.devices.remove(&id);
            assert(self@.devices =~= before.remove(id));
            terminal_count = terminal_count - 1;
        }
        assert(registry::pruned(self@.devices, self.terminal_history_limit) == self@.devices);
    }

    fn oldest_terminal(&self) -> (r: u32)
        requires
            self@.devices.dom().finite(),
            registry::terminal_ids(self@.devices).len() > 0,
        ensures
            registry::is_oldest_terminal(self@.devices, r),
    {
        let keys: Vec<u32> = ordered::all_keys(&self.devices);
        let mut best: Option<(u32, u64)> = None;
        let mut i: usize = 0;
        while i < keys.len()
            invariant
                i <= keys@.len(),
                ordered::are_all_keys(keys@, self.devices@),
                match best {
                    Some((id, seq)) => {
                        &&& self@.devices.contains_key(id)
                        &&& self@.devices[id].state.terminal()
                        &&& self@.devices[id].updated_seq == seq
                        &&& i < keys@.len() ==> id < keys@[i as int]
                        &&& forall|j: int|
                            0 <= j < i && self@.devices[#[trigger] keys@[j]].state.terminal()
                                && keys@[j] != id ==> registry::older(
                                self@.devices,
                                id,
                                keys@[j],
                            )
                    },
                    None => forall|j: int|
                        0 <= j < i ==> !self@.devices[#[trigger] keys@[j]].state.terminal(),
                },
            decreases keys@.len() - i,
        {
            let id: u32 = keys[i];
            match self.devices.get(&id) {
                Some(record) => {
                    if record.state.is_terminal() {
                        let older: bool = match best {
                            Some((_, seq)) => record.updated_seq < seq,
                            None => true,
                        };
                        if older {
                            best = Some((id, record.updated_seq));
                        }
                    }
                },
                None => {
                    assert(false);
                },
            }
            i = i + 1;
        }
        proof {
            assert forall|id: u32| #[trigger]
                self@.devices.contains_key(id) implies exists|j: int|
                0 <= j < keys@.len() && keys@[j] == id by {
                assert(self.devices@.contains_key(id));
            }
            match best {
                Some((id, _)) => {
                    assert forall|other: u32| #[trigger]
                        self@.devices.contains_key(other) && self@.devices[other].state.terminal()
                            && other != id implies registry::older(self@.devices, id, other) by {
                        let j = choose|j: int| 0 <= j < keys@.len() && keys@[j] == other;
                        assert(keys@[j] == other);
                    }
                },
                None => {
                    let id = registry::terminal_ids(self@.devices).choose();
                    assert(registry::terminal_ids(self@.devices).contains(id));
                    let j = choose|j: int| 0 <= j < keys@.len() && keys@[j] == id;
                    assert(keys@[j] == id);
                },
            }
        }
        match best {
            Some((id, _)) => id,
            None => {
                assert(false);
                0
            },
        }
    }

    /// The answer to a mutating operation that is already known: the kept one where the operation
    /// is a repetition, a refusal where the key is missing or was used for something else.
    pub fn lookup_cached_mutating_outcome(
        &self,
        request_id: String,
        idempotency_key: &String,
        op: Operation,
        fingerprint: &[u8],
    ) -> (r: Option<ResponseEnvelope>)
        requires
            self.wf(),
        ensures
            match r {
                Some(response) => registry::known_answer(
                    self@,
                    request_id@,
                    idempotency_key@,
                    op,
                    fingerprint@,
                ) == Some(response@),
                None => registry::known_answer(
                    self@,
                    request_id@,
                    idempotency_key@,
                    op,
                    fingerprint@,
                ) is None,
            },
    {
        if text::blank(idempotency_key.as_str()) {
            return Some(
                ResponseEnvelope::error(
                    request_id,
                    ErrorCode::InvalidArgument,
                    "idempotency_key is required for mutating operations",
                ),
            );
        }
        match self.find_outcome(idempotency_key) {
            None => None,
            Some(at) => {
                let cached: &CachedIdempotentOutcome = &self.idempotency_cache[at];
                if cached.op != op || !byte_slices_equal(&cached.fingerprint, fingerprint) {
                    return Some(
                        ResponseEnvelope::error(
                            request_id,
                            ErrorCode::InvalidArgument,
                            "idempotency_key was reused with a different operation or payload",
                        ),
                    );
                }
                Some(cached.to_response(request_id))
            },
        }
    }

    fn find_outcome(&self, key: &String) -> (r: Option<usize>)
        requires
            self@.wf(),
        ensures
            match r {
                Some(at) => registry::has_key(self@.cache, key@, at as int) && registry::kept(
                    self@.cache,
                    key@,
                ) == Some(self@.cache[at as int]) && registry::without_key(self@.cache, key@)
                    == self@.cache.remove(at as int),
                None => registry::kept(self@.cache, key@) is None && registry::without_key(
                    self@.cache,
                    key@,
                ) == self@.cache,
            },
    {
        let mut i: usize = 0;
        while i < self.idempotency_cache.len()
            invariant
                i <= self.idempotency_cache@.len(),
                self@.wf(),
                forall|j: int| 0 <= j < i ==> (#[trigger] self@.cache[j]).key != key@,
            decreases self.idempotency_cache@.len() - i,
        {
            if self.idempotency_cache[i].key == *key {
                proof {
                    assert(registry::has_key(self@.cache, key@, i as int));
                    let found = choose|at: int| #[trigger] registry::has_key(
                        self@.cache,
                        key@,
                        at,
                    );
                    assert(found == i);
                }
                return Some(i);
            }
            i = i + 1;
        }
        None
    }

    /// Keeps the outcome of a mutating operation.
    pub fn cache_mutating_outcome(
        &mut self,
        idempotency_key: String,
        op: Operation,
        fingerprint: Vec<u8>,
        response: &ResponseEnvelope,
    )
        requires
            old(self).wf(),
        ensures
            final(self).wf(),
            final(self)@ == registry::remembered(
                old(self)@,
                idempotency_key@,
                op,
                fingerprint@,
                response@,
            ),
    {
        let ghost before = self@;
        let ghost key = idempotency_key@;
        match self.find_outcome(&idempotency_key) {
            Some(at) => {
                self.idempotency_cache.remove(at);
                assert(self@.cache =~= before.cache.remove(at as int));
            },
            None => {},
        }
        let ghost fewer = self@.cache;
        assert(fewer == registry::without_key(before.cache, key));
        let outcome = CachedIdempotentOutcome::from_response(
            idempotency_key,
            op,
            fingerprint,
            response,
        );
        let ghost entry = outcome@;
        self.idempotency_cache.push(outcome);
        assert(self@.cache =~= fewer.push(entry));
        if self.idempotency_cache.len() > self.idempotency_cache_limit {
            self.idempotency_cache.remove(0);
            assert(self@.cache =~= fewer.push(entry).skip(1));
        }
        proof {
            let after = registry::remembered(before, key, op, fingerprint@, response@);
            assert(self@ =~= after);
            registry::lemma_remembered(before, key, op, fingerprint@, response@);
        }
    }

    /// Sets a device number aside for a volume. A volume that a live device has, be it one that is
    /// about to be removed, is refused.
    pub fn reserve_add_device(&mut self, request_id: String, body: &AddDeviceRequest) -> (r: Result<
        AddDeviceReservation,
        ResponseEnvelope,
    >)
        requires
            old(self).wf(),
        ensures
            final(self).wf(),
            final(self)@ == registry::reserve(old(self)@, request_id@, *body).0,
            text::trimmed(body.volume_id@).len() > 0 && registry::is_taken(
                old(self)@.devices,
                text::trimmed(body.volume_id@),
            ) ==> (r matches Err(response) && response@ == protocol::failure(
                request_id@,
                ErrorCode::AlreadyExists,
                "volume_id '"@ + text::trimmed(body.volume_id@) + "' is already attached"@,
            )),
            match r {
                Ok(reservation) => registry::reserve(old(self)@, request_id@, *body).1 == Ok::<
                    ReservationView,
                    ResponseView,
                >(reservation@),
                Err(response) => registry::reserve(old(self)@, request_id@, *body).1 == Err::<
                    ReservationView,
                    ResponseView,
                >(response@),
            },
    {
        let ghost before = self@;
        let volume_id: String = text::trim(body.volume_id.as_str());
        proof {
            before.lemma_taken(volume_id@);
        }
        if volume_id.as_str().unicode_len() == 0 {
            return Err(
                ResponseEnvelope::error(
                    request_id,
                    ErrorCode::InvalidArgument,
                    "volume_id must be non-empty",
                ),
            );
        }
        if self.active_volume_to_device.get(&volume_id).is_some() {
            let message: String = text::cat3(
                "volume_id '",
                volume_id.as_str(),
                "' is already attached",
            );
            return Err(
                ResponseEnvelope::error(request_id, ErrorCode::AlreadyExists, message.as_str()),
            );
        }
        if self.count(false) >= self.max_devices {
            let message: String = text::cat3(
                "max_devices=",
                text::decimal_usize(self.max_devices).as_str(),
                " reached",
            );
            return Err(
                ResponseEnvelope::error(request_id, ErrorCode::Unavailable, message.as_str()),
            );
        }
        let device_id: u32 = match body.ublk_device_id {
            Some(id) => {
                if self.device_active(id) {
                    let message: String = quoted_device("device_id '", id, "' is already in use");
                    return Err(
                        ResponseEnvelope::error(
                            request_id,
                            ErrorCode::AlreadyExists,
                            message.as_str(),
                        ),
                    );
                }
                id
            },
            None => match self.allocate_device_id() {
                Some(id) => {
                    proof {
                        registry::lemma_first_free(before.devices, before.next_device_id, 0x1_0000_0000);
                    }
                    id
                },
                None => {
                    return Err(
                        ResponseEnvelope::error(
                            request_id,
                            ErrorCode::Unavailable,
                            "no free device_id available",
                        ),
                    );
                },
            },
        };
        assert(!registry::is_live(before.devices, device_id));
        let device_path: String = quoted_device("/dev/ublkb", device_id, "");
        proof {
            reveal_strlit("");
            assert(""@ =~= Seq::<char>::empty());
            assert(device_path@ =~= registry::path_of(device_id));
        }
        let updated_seq: u64 = self.next_sequence();
        let record = DeviceRecord {
            device_id,
            volume_id: volume_id.clone(),
            device_path: device_path.clone(),
            state: DeviceState::Allocating,
            last_error: None,
            updated_seq,
        };
        let ghost added = record@;
        self.devices.insert(device_id, record);
        self.active_volume_to_device.insert(volume_id.clone(), device_id);
        proof {
            assert(self@.devices =~= before.devices.insert(device_id, added));
            let after = registry::reserve(before, request_id@, *body).0;
            assert(self@ =~= after);
            registry::lemma_reserved(before, request_id@, *body);
        }
        Ok(AddDeviceReservation { device_id, device_path, volume_id })
    }

    /// A device that a number has just been set aside for starts to open its volume.
    pub fn mark_device_opening(&mut self, device_id: u32) -> (r: Result<(), ResponseEnvelope>)
        requires
            old(self).wf(),
        ensures
            final(self).wf(),
            final(self)@ == registry::opening(old(self)@, device_id).0,
            match r {
                Ok(()) => registry::opening(old(self)@, device_id).1 is Ok,
                Err(response) => registry::opening(old(self)@, device_id).1 == Err::<
                    (),
                    ResponseView,
                >(response@),
            },
    {
        let ghost before = self@;
        let state: DeviceState = match self.state_of(device_id) {
            Some(state) => state,
            None => {
                let message: String = quoted_device("device_id '", device_id, "' not found");
                return Err(
                    ResponseEnvelope::error(
                        text::cat2("add-device:", text::decimal_u64(device_id as u64).as_str()),
                        ErrorCode::NotFound,
                        message.as_str(),
                    ),
                );
            },
        };
        if state == DeviceState::OpeningVolume {
            return Ok(());
        }
        if state != DeviceState::Allocating {
            let message: String = if state.is_terminal() {
                in_terminal_state(device_id, state)
            } else {
                text::cat5(
                    "device_id '",
                    text::decimal_u64(device_id as u64).as_str(),
                    "' cannot open its volume from state '",
                    device::state_name(state).as_str(),
                    "'",
                )
            };
            return Err(
                ResponseEnvelope::error(
                    text::cat2("add-device:", text::decimal_u64(device_id as u64).as_str()),
                    ErrorCode::Busy,
                    message.as_str(),
                ),
            );
        }
        let last_error: Option<String> = self.last_error_of(device_id);
        proof {
            before.lemma_changed(
                device_id,
                DeviceState::OpeningVolume,
                before.devices[device_id].last_error,
            );
        }
        self.change(device_id, DeviceState::OpeningVolume, last_error);
        Ok(())
    }

    /// A device that has been opening its volume serves it, and one that serves goes on to.
    pub fn finalize_add_success(&mut self, request_id: String, device_id: u32) -> (r:
        ResponseEnvelope)
        requires
            old(self).wf(),
        ensures
            final(self).wf(),
            final(self)@ == registry::added(old(self)@, request_id@, device_id).0,
            r@ == registry::added(old(self)@, request_id@, device_id).1,
    {
        let ghost before = self@;
        let state: DeviceState = match self.state_of(device_id) {
            Some(state) => state,
            None => {
                self.next_sequence();
                proof {
                    before.lemma_ticked();
                }
                let message: String = quoted_device(
                    "device_id '",
                    device_id,
                    "' missing before final add transition",
                );
                return ResponseEnvelope::error(request_id, ErrorCode::Internal, message.as_str());
            },
        };
        if state != DeviceState::OpeningVolume && state != DeviceState::Serving {
            let message: String = text::cat5(
                "device_id '",
                text::decimal_u64(device_id as u64).as_str(),
                "' cannot complete add from state '",
                device::state_name(state).as_str(),
                "'",
            );
            return ResponseEnvelope::error(request_id, ErrorCode::Busy, message.as_str());
        }
        proof {
            before.lemma_changed(device_id, DeviceState::Serving, None);
        }
        self.change(device_id, DeviceState::Serving, None);
        match self.devices.get(&device_id) {
            Some(record) => {
                let result = AddDeviceResult {
                    device_id: record.device_id,
                    device_path: record.device_path.clone(),
                    volume_id: record.volume_id.clone(),
                    state: record.state,
                };
                assert(record@ == self@.devices[device_id]);
                ResponseEnvelope::ok(request_id, ResponseResult::AddDevice(result))
            },
            None => {
                assert(self@.devices.contains_key(device_id));
                assert(false);
                ResponseEnvelope::error(request_id, ErrorCode::Internal, "")
            },
        }
    }

    /// A device could not be added. A terminal one stays as it is.
    pub fn fail_add_device(
        &mut self,
        request_id: String,
        device_id: u32,
        code: ErrorCode,
        message: String,
    ) -> (r: ResponseEnvelope)
        requires
            old(self).wf(),
        ensures
            final(self).wf(),
            final(self)@ == registry::add_failed(
                old(self)@,
                request_id@,
                device_id,
                code,
                message@,
            ).0,
            r@ == registry::add_failed(old(self)@, request_id@, device_id, code, message@).1,
    {
        let ghost before = self@;
        let state: DeviceState = match self.state_of(device_id) {
            Some(state) => state,
            None => {
                self.next_sequence();
                proof {
                    before.lemma_ticked();
                }
                let message: String = quoted_device(
                    "device_id '",
                    device_id,
                    "' missing during add failure cleanup",
                );
                return ResponseEnvelope::error(request_id, ErrorCode::Internal, message.as_str());
            },
        };
        if state.is_terminal() {
            let message: String = in_terminal_state(device_id, state);
            return ResponseEnvelope::error(request_id, ErrorCode::Busy, message.as_str());
        }
        let volume_id: String = self.volume_of(device_id);
        let response: ResponseEnvelope = ResponseEnvelope::error(
            request_id,
            code,
            message.as_str(),
        );
        proof {
            before.lemma_changed(device_id, DeviceState::Failed, Some(message@));
            before.changed(device_id, DeviceState::Failed, Some(message@)).released(
                volume_id@,
            ).lemma_tidied();
        }
        self.change(device_id, DeviceState::Failed, Some(message));
        let ghost changed = self@;
        self.active_volume_to_device.remove(&volume_id);
        assert(self@ =~= changed.released(volume_id@));
        self.prune_terminal_history();
        response
    }

    /// Starts to remove a device, which keeps its volume until that is done.
    pub fn prepare_remove_device(&mut self, request_id: String, body: &RemoveDeviceRequest) -> (r:
        RemovePreparation)
        requires
            old(self).wf(),
        ensures
            final(self).wf(),
            final(self)@ == registry::draining(old(self)@, request_id@, *body).0,
            r@ == registry::draining(old(self)@, request_id@, *body).1,
    {
        let ghost before = self@;
        let volume_id: Option<String> = protocol::trim_present(&body.volume_id);
        let by_volume: Option<u32> = match &volume_id {
            Some(v) => self.active_volume_to_device.get(v),
            None => None,
        };
        let recent: Option<u32> = match &volume_id {
            Some(v) => self.find_recent_device_by_volume(v),
            None => None,
        };
        let target: Option<u32> = match (body.device_id, by_volume) {
            (Some(device_id), Some(active_id)) => {
                let draining: bool = match self.state_of(active_id) {
                    Some(state) => state == DeviceState::Draining,
                    None => false,
                };
                if device_id != active_id && !draining {
                    return RemovePreparation::Immediate(
                        ResponseEnvelope::error(
                            request_id,
                            ErrorCode::InvalidArgument,
                            "device_id and volume_id refer to different active devices",
                        ),
                    );
                }
                Some(device_id)
            },
            (Some(device_id), None) => Some(device_id),
            (None, Some(active_id)) => Some(active_id),
            (None, None) => recent,
        };
        let device_id: u32 = match target {
            Some(device_id) => device_id,
            None => {
                return RemovePreparation::Immediate(
                    ResponseEnvelope::error(
                        request_id,
                        ErrorCode::NotFound,
                        "requested device was not found",
                    ),
                );
            },
        };
        assert(registry::remove_target(before, *body) == Ok::<u32, (ErrorCode, Seq<char>)>(
            device_id,
        ));
        let state: DeviceState = match self.state_of(device_id) {
            Some(state) => state,
            None => {
                let message: String = quoted_device("device_id '", device_id, "' not found");
                return RemovePreparation::Immediate(
                    ResponseEnvelope::error(request_id, ErrorCode::NotFound, message.as_str()),
                );
            },
        };
        if state == DeviceState::Draining {
            let message: String = quoted_device("device_id '", device_id, "' is already draining");
            return RemovePreparation::Immediate(
                ResponseEnvelope::error(request_id, ErrorCode::Busy, message.as_str()),
            );
        }
        let volume_id: String = self.volume_of(device_id);
        if state.is_terminal() {
            let result = RemoveDeviceResult {
                device_id: Some(device_id),
                volume_id: Some(volume_id),
                state,
                noop: true,
            };
            return RemovePreparation::Immediate(
                ResponseEnvelope::ok(request_id, ResponseResult::RemoveDevice(result)),
            );
        }
        let last_error: Option<String> = self.last_error_of(device_id);
        proof {
            before.lemma_changed(
                device_id,
                DeviceState::Draining,
                before.devices[device_id].last_error,
            );
        }
        self.change(device_id, DeviceState::Draining, last_error);
        RemovePreparation::Draining { device_id, volume_id, force: body.force }
    }

    /// Ends the removal of a device.
    pub fn complete_remove_device(
        &mut self,
        request_id: String,
        device_id: u32,
        force_detach: bool,
    ) -> (r: ResponseEnvelope)
        requires
            old(self).wf(),
        ensures
            final(self).wf(),
            final(self)@ == registry::removed(old(self)@, request_id@, device_id, force_detach).0,
            r@ == registry::removed(old(self)@, request_id@, device_id, force_detach).1,
    {
        let ghost before = self@;
        let state: DeviceState = match self.state_of(device_id) {
            Some(state) => state,
            None => {
                let message: String = quoted_device("device_id '", device_id, "' not found");
                return ResponseEnvelope::error(request_id, ErrorCode::NotFound, message.as_str());
            },
        };
        let volume_id: String = self.volume_of(device_id);
        if state.is_terminal() {
            let result = RemoveDeviceResult {
                device_id: Some(device_id),
                volume_id: Some(volume_id),
                state,
                noop: true,
            };
            return ResponseEnvelope::ok(request_id, ResponseResult::RemoveDevice(result));
        }
        if state != DeviceState::Draining {
            let message: String = text::cat5(
                "device_id '",
                text::decimal_u64(device_id as u64).as_str(),
                "' cannot complete remove from state '",
                device::state_name(state).as_str(),
                "'",
            );
            return ResponseEnvelope::error(request_id, ErrorCode::Busy, message.as_str());
        }
        let next: DeviceState = if force_detach {
            DeviceState::ForceDetached
        } else {
            DeviceState::Detached
        };
        let last_error: Option<String> = self.last_error_of(device_id);
        proof {
            before.lemma_changed(device_id, next, before.devices[device_id].last_error);
            before.changed(device_id, next, before.devices[device_id].last_error).released(
                volume_id@,
            ).lemma_tidied();
        }
        self.change(device_id, next, last_error);
        let ghost changed = self@;
        self.active_volume_to_device.remove(&volume_id);
        assert(self@ =~= changed.released(volume_id@));
        self.prune_terminal_history();
        let result = RemoveDeviceResult {
            device_id: Some(device_id),
            volume_id: Some(volume_id),
            state: next,
            noop: false,
        };
        ResponseEnvelope::ok(request_id, ResponseResult::RemoveDevice(result))
    }

    /// The devices that pass a filter, in the order of their numbers.
    fn statuses(&self, filter: &DeviceFilter) -> (r: Vec<DeviceStatus>)
        requires
            self@.wf(),
        ensures
            registry::lists_exactly(device::statuses_view(r@), self@.devices, filter@),
    {
        let keys: Vec<u32> = ordered::all_keys(&self.devices);
        let mut r: Vec<DeviceStatus> = Vec::new();
        let mut i: usize = 0;
        while i < keys.len()
            invariant
                i <= keys@.len(),
                self@.wf(),
                ordered::are_all_keys(keys@, self.devices@),
                forall|a: int, b: int|
                    #![trigger r@[a], r@[b]]
                    0 <= a < b < r@.len() ==> r@[a].device_id < r@[b].device_id,
                forall|a: int|
                    0 <= a < r@.len() ==> {
                        let id = (#[trigger] r@[a]).device_id;
                        &&& self@.devices.contains_key(id)
                        &&& registry::passes(filter@, self@.devices[id])
                        &&& r@[a]@ == registry::status_of(self@.devices[id])
                        &&& i < keys@.len() ==> id < keys@[i as int]
                    },
                forall|j: int|
                    0 <= j < i && registry::passes(filter@, self@.devices[#[trigger] keys@[j]])
                        ==> exists|a: int|
                        0 <= a < r@.len() && (#[trigger] r@[a]).device_id == keys@[j],
            decreases keys@.len() - i,
        {
            let id: u32 = keys[i];
            let ghost before = r@;
            match self.devices.get(&id) {
                Some(record) => {
                    assert(record@ == self@.devices[id]);
                    assert(self@.devices.contains_key(id));
                    if filter.passes(record) {
                        r.push(record.status());
                        assert(r@[before.len() as int].device_id == id);
                    }
                },
                None => {
                    assert(false);
                },
            }
            assert forall|j: int|
                0 <= j < i + 1 && registry::passes(
                    filter@,
                    self@.devices[#[trigger] keys@[j]],
                ) implies exists|a: int|
                0 <= a < r@.len() && (#[trigger] r@[a]).device_id == keys@[j] by {
                if j < i {
                    let a = choose|a: int|
                        0 <= a < before.len() && (#[trigger] before[a]).device_id == keys@[j];
                    assert(r@[a] == before[a]);
                } else {
                    assert(r@[before.len() as int].device_id == keys@[j]);
                }
            }
            i = i + 1;
        }
        proof {
            let view = device::statuses_view(r@);
            assert forall|id: u32| #[trigger]
                self@.devices.contains_key(id) && registry::passes(
                    filter@,
                    self@.devices[id],
                ) implies exists|a: int|
                0 <= a < view.len() && (#[trigger] view[a]).device_id == id by {
                assert(self.devices@.contains_key(id));
                let j = choose|j: int| 0 <= j < keys@.len() && keys@[j] == id;
                assert(keys@[j] == id);
                let a = choose|a: int|
                    0 <= a < r@.len() && (#[trigger] r@[a]).device_id == keys@[j];
                assert(view[a].device_id == id);
            }
        }
        r
    }

    /// Lists devices.
    pub fn list_devices(&self, request_id: String, body: ListDevicesRequest) -> (r:
        ResponseEnvelope)
        requires
            self.wf(),
        ensures
            registry::is_listing(self@, request_id@, body, r@),
    {
        let state: Option<DeviceState> = match &body.state {
            Some(name) => match DeviceState::parse_filter(name.as_str()) {
                Some(state) => Some(state),
                None => {
                    let message: String = text::cat3("unknown state filter '", name.as_str(), "'");
                    return ResponseEnvelope::error(
                        request_id,
                        ErrorCode::InvalidArgument,
                        message.as_str(),
                    );
                },
            },
            None => None,
        };
        proof {
            assert forall|other: DeviceState|
                body.state matches Some(name) && name@ == #[trigger] other.name() implies Some(
                other,
            ) == state by {
                device::law_state_names_differ(other, state->0);
            }
        }
        let filter = DeviceFilter::Matching {
            device_id: body.device_id,
            volume_id: body.volume_id,
            state,
        };
        let devices: Vec<DeviceStatus> = self.statuses(&filter);
        let r = ResponseEnvelope::ok(
            request_id,
            ResponseResult::ListDevices(ListDevicesResult { devices }),
        );
        assert(registry::listing_of(self@, request_id@, filter@, r@));
        r
    }

    /// Says how the service is doing.
    pub fn health(&self, request_id: String) -> (r: ResponseEnvelope)
        requires
            self.wf(),
        ensures
            registry::health_answered(self@, request_id@, r@),
    {
        let degraded_devices: Vec<DeviceStatus> = self.statuses(&DeviceFilter::Degraded);
        let status: String = if degraded_devices.len() == 0 {
            "ok".to_owned()
        } else {
            "degraded".to_owned()
        };
        assert(self@.devices.dom() =~= self.devices@.dom());
        let result = HealthResult {
            status,
            active_devices: self.count(false),
            total_devices: self.devices.len(),
            degraded_devices,
        };
        assert(registry::is_health(self@, result@));
        ResponseEnvelope::ok(request_id, ResponseResult::Health(result))
    }

    /// Handles a request from start to end, with devices that start and stop at once.
    pub fn handle_request(&mut self, request: ControlRequest) -> (r: ResponseEnvelope)
        requires
            old(self).wf(),
        ensures
            final(self).wf(),
            registry::handled(old(self)@, request, final(self)@, r@),
    {
        let op: Operation = request.operation();
        let fingerprint: Vec<u8> = match request.body_fingerprint() {
            Ok(bytes) => bytes,
            Err(_) => Vec::new(),
        };
        let key: String = match request.idempotency_key {
            Some(key) => key,
            None => String::new(),
        };
        let request_id: String = request.request_id;
        match request.body {
            RequestBody::ListDevices(body) => {
                return self.list_devices(request_id, body);
            },
            RequestBody::Health(_) => {
                return self.health(request_id);
            },
            RequestBody::AddDevice(body) => {
                match self.lookup_cached_mutating_outcome(
                    request_id.clone(),
                    &key,
                    op,
                    fingerprint.as_slice(),
                ) {
                    Some(cached) => {
                        return cached;
                    },
                    None => {},
                }
                let response: ResponseEnvelope = match self.reserve_add_device(
                    request_id.clone(),
                    &body,
                ) {
                    Ok(reservation) => {
                        let _ = self.mark_device_opening(reservation.device_id);
                        self.finalize_add_success(request_id, reservation.device_id)
                    },
                    Err(response) => response,
                };
                self.cache_mutating_outcome(key, op, fingerprint, &response);
                response
            },
            RequestBody::RemoveDevice(body) => {
                match self.lookup_cached_mutating_outcome(
                    request_id.clone(),
                    &key,
                    op,
                    fingerprint.as_slice(),
                ) {
                    Some(cached) => {
                        return cached;
                    },
                    None => {},
                }
                let response: ResponseEnvelope = match self.prepare_remove_device(
                    request_id.clone(),
                    &body,
                ) {
                    RemovePreparation::Immediate(response) => response,
                    RemovePreparation::Draining { device_id, volume_id: _, force } => {
                        self.complete_remove_device(request_id, device_id, force)
                    },
                };
                self.cache_mutating_outcome(key, op, fingerprint, &response);
                response
            },
        }
    }
}

} // verus!
