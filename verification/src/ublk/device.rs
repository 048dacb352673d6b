//! Devices as they are reported.
use vstd::prelude::*;

verus! {

/// Where a device stands in its life.
#[derive(Clone, Copy, Debug, PartialEq, Eq, Structural)]
pub enum DeviceState {
    Allocating,
    OpeningVolume,
    Serving,
    Draining,
    Detached,
    Failed,
    ForceDetached,
}

impl DeviceState {
    /// Nothing happens to the device any more.
    pub open spec fn terminal(self) -> bool {
        self is Detached || self is Failed || self is ForceDetached
    }

    /// The device does not work as it should have.
    pub open spec fn degraded(self) -> bool {
        self is Failed || self is ForceDetached
    }

    /// The name of the state.
    pub open spec fn name(self) -> Seq<char> {
        match self {
            DeviceState::Allocating => "Allocating"@,
            DeviceState::OpeningVolume => "OpeningVolume"@,
            DeviceState::Serving => "Serving"@,
            DeviceState::Draining => "Draining"@,
            DeviceState::Detached => "Detached"@,
            DeviceState::Failed => "Failed"@,
            DeviceState::ForceDetached => "ForceDetached"@,
        }
    }

    /// Whether nothing happens to the device any more.
    pub fn is_terminal(&self) -> (r: bool)
        ensures
            r == self.terminal(),
    {
        match self {
            DeviceState::Detached | DeviceState::Failed | DeviceState::ForceDetached => true,
            _ => false,
        }
    }

    /// Whether the device does not work as it should have.
    pub fn is_degraded(&self) -> (r: bool)
        ensures
            r == self.degraded(),
    {
        match self {
            DeviceState::Failed | DeviceState::ForceDetached => true,
            _ => false,
        }
    }

    /// The state with this name.
    pub fn parse_filter(value: &str) -> (r: Option<DeviceState>)
        ensures
            match r {
                Some(state) => value@ == state.name(),
                None => forall|state: DeviceState| value@ != #[trigger] state.name(),
            },
    {
        let value: String = value.to_owned();
        if value == state_name(DeviceState::Allocating) {
            Some(DeviceState::Allocating)
        } else if value == state_name(DeviceState::OpeningVolume) {
            Some(DeviceState::OpeningVolume)
        } else if value == state_name(DeviceState::Serving) {
            Some(DeviceState::Serving)
        } else if value == state_name(DeviceState::Draining) {
            Some(DeviceState::Draining)
        } else if value == state_name(DeviceState::Detached) {
            Some(DeviceState::Detached)
        } else if value == state_name(DeviceState::Failed) {
            Some(DeviceState::Failed)
        } else if value == state_name(DeviceState::ForceDetached) {
            Some(DeviceState::ForceDetached)
        } else {
            None
        }
    }
}

/// The name of a state.
pub fn state_name(state: DeviceState) -> (r: String)
    ensures
        r@ == state.name(),
{
    match state {
        DeviceState::Allocating => "Allocating".to_owned(),
        DeviceState::OpeningVolume => "OpeningVolume".to_owned(),
        DeviceState::Serving => "Serving".to_owned(),
        DeviceState::Draining => "Draining".to_owned(),
        DeviceState::Detached => "Detached".to_owned(),
        DeviceState::Failed => "Failed".to_owned(),
        DeviceState::ForceDetached => "ForceDetached".to_owned(),
    }
}

/// No two states share a name.
pub proof fn law_state_names_differ(a: DeviceState, b: DeviceState)
    requires
        a.name() == b.name(),
    ensures
        a == b,
{
    reveal_strlit("Allocating");
    reveal_strlit("OpeningVolume");
    reveal_strlit("Serving");
    reveal_strlit("Draining");
    reveal_strlit("Detached");
    reveal_strlit("Failed");
    reveal_strlit("ForceDetached");
    assert("Draining"@[1] == 'r' && "Detached"@[1] == 'e');
    assert("OpeningVolume"@[0] == 'O' && "ForceDetached"@[0] == 'F');
    assert("Allocating"@.len() == 10 && "Serving"@.len() == 7 && "Failed"@.len() == 6);
    assert("Draining"@.len() == 8 && "Detached"@.len() == 8);
    assert("OpeningVolume"@.len() == 13 && "ForceDetached"@.len() == 13);
}

/// What a text that may be missing holds.
pub open spec fn text_view(t: Option<String>) -> Option<Seq<char>> {
    match t {
        Some(s) => Some(s@),
        None => None,
    }
}

/// A copy of a text that may be missing.
pub fn copy_text(t: &Option<String>) -> (r: Option<String>)
    ensures
        r == *t,
{
    match t {
        Some(s) => Some(s.clone()),
        None => None,
    }
}

/// A device that was added.
#[derive(Debug, PartialEq, Eq)]
pub struct AddDeviceResult {
    pub device_id: u32,
    pub device_path: String,
    pub volume_id: String,
    pub state: DeviceState,
}

/// What an `AddDeviceResult` holds.
pub struct AddDeviceResultView {
    pub device_id: u32,
    pub device_path: Seq<char>,
    pub volume_id: Seq<char>,
    pub state: DeviceState,
}

impl View for AddDeviceResult {
    type V = AddDeviceResultView;

    open spec fn view(&self) -> AddDeviceResultView {
        AddDeviceResultView {
            device_id: self.device_id,
            device_path: self.device_path@,
            volume_id: self.volume_id@,
            state: self.state,
        }
    }
}

impl Clone for AddDeviceResult {
    fn clone(&self) -> (r: Self)
        ensures
            r == *self,
    {
        AddDeviceResult {
            device_id: self.device_id,
            device_path: self.device_path.clone(),
            volume_id: self.volume_id.clone(),
            state: self.state,
        }
    }
}

/// A device that was removed; `noop` where it had been already.
#[derive(Debug, PartialEq, Eq)]
pub struct RemoveDeviceResult {
    pub device_id: Option<u32>,
    pub volume_id: Option<String>,
    pub state: DeviceState,
    pub noop: bool,
}

/// What a `RemoveDeviceResult` holds.
pub struct RemoveDeviceResultView {
    pub device_id: Option<u32>,
    pub volume_id: Option<Seq<char>>,
    pub state: DeviceState,
    pub noop: bool,
}

impl View for RemoveDeviceResult {
    type V = RemoveDeviceResultView;

    open spec fn view(&self) -> RemoveDeviceResultView {
        RemoveDeviceResultView {
            device_id: self.device_id,
            volume_id: text_view(self.volume_id),
            state: self.state,
            noop: self.noop,
        }
    }
}

impl Clone for RemoveDeviceResult {
    fn clone(&self) -> (r: Self)
        ensures
            r == *self,
    {
        RemoveDeviceResult {
            device_id: self.device_id,
            volume_id: copy_text(&self.volume_id),
            state: self.state,
            noop: self.noop,
        }
    }
}

/// One device of a list.
#[derive(Debug, PartialEq, Eq)]
pub struct DeviceStatus {
    pub device_id: u32,
    pub device_path: String,
    pub volume_id: String,
    pub state: DeviceState,
    pub last_error: Option<String>,
}

/// What a `DeviceStatus` holds.
pub struct DeviceStatusView {
    pub device_id: u32,
    pub device_path: Seq<char>,
    pub volume_id: Seq<char>,
    pub state: DeviceState,
    pub last_error: Option<Seq<char>>,
}

impl View for DeviceStatus {
    type V = DeviceStatusView;

    open spec fn view(&self) -> DeviceStatusView {
        DeviceStatusView {
            device_id: self.device_id,
            device_path: self.device_path@,
            volume_id: self.volume_id@,
            state: self.state,
            last_error: text_view(self.last_error),
        }
    }
}

impl Clone for DeviceStatus {
    fn clone(&self) -> (r: Self)
        ensures
            r == *self,
    {
        DeviceStatus {
            device_id: self.device_id,
            device_path: self.device_path.clone(),
            volume_id: self.volume_id.clone(),
            state: self.state,
            last_error: copy_text(&self.last_error),
        }
    }
}

/// What a list of devices holds.
pub open spec fn statuses_view(statuses: Seq<DeviceStatus>) -> Seq<DeviceStatusView> {
    Seq::new(statuses.len(), |i: int| statuses[i]@)
}

/// A copy of a list of devices.
pub fn copy_statuses(statuses: &Vec<DeviceStatus>) -> (r: Vec<DeviceStatus>)
    ensures
        r@ == statuses@,
{
    let mut r: Vec<DeviceStatus> = Vec::new();
    let mut i: usize = 0;
    while i < statuses.len()
        invariant
            i <= statuses@.len(),
            r@ == statuses@.subrange(0, i as int),
        decreases statuses@.len() - i,
    {
        r.push(statuses[i].clone());
        assert(r@ =~= statuses@.subrange(0, i + 1));
        i = i + 1;
    }
    assert(r@ =~= statuses@);
    r
}

/// A list of devices.
#[derive(Debug, PartialEq, Eq)]
pub struct ListDevicesResult {
    pub devices: Vec<DeviceStatus>,
}

impl View for ListDevicesResult {
    type V = Seq<DeviceStatusView>;

    open spec fn view(&self) -> Seq<DeviceStatusView> {
        statuses_view(self.devices@)
    }
}

impl Clone for ListDevicesResult {
    fn clone(&self) -> (r: Self)
        ensures
            r@ == self@,
    {
        ListDevicesResult { devices: copy_statuses(&self.devices) }
    }
}

/// How the service is doing.
#[derive(Debug, PartialEq, Eq)]
pub struct HealthResult {
    pub status: String,
    pub active_devices: usize,
    pub total_devices: usize,
    pub degraded_devices: Vec<DeviceStatus>,
}

/// What a `HealthResult` holds.
pub struct HealthResultView {
    pub status: Seq<char>,
    pub active_devices: usize,
    pub total_devices: usize,
    pub degraded_devices: Seq<DeviceStatusView>,
}

impl View for HealthResult {
    type V = HealthResultView;

    open spec fn view(&self) -> HealthResultView {
        HealthResultView {
            status: self.status@,
            active_devices: self.active_devices,
            total_devices: self.total_devices,
            degraded_devices: statuses_view(self.degraded_devices@),
        }
    }
}

impl Clone for HealthResult {
    fn clone(&self) -> (r: Self)
        ensures
            r@ == self@,
    {
        HealthResult {
            status: self.status.clone(),
            active_devices: self.active_devices,
            total_devices: self.total_devices,
            degraded_devices: copy_statuses(&self.degraded_devices),
        }
    }
}

} // verus!
